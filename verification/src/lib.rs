//! A file store that keeps its files in a Telegram channel.

pub mod auth;
pub mod config;
pub mod constants;
pub mod database;
pub mod error;
pub mod events;
pub mod json;
pub mod manifest;
pub mod middleware;
pub mod outside;
pub mod reply;
pub mod routes;
pub mod telegram;
pub mod text;
