//! What each route answers.

pub mod api_auth;
pub mod api_files;
pub mod api_settings;
pub mod api_sse;
pub mod api_upload;
pub mod pages;
