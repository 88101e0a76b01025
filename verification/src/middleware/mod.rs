//! What happens to a request before a route sees it, and to an answer after.

pub mod auth;
pub mod security_headers;
