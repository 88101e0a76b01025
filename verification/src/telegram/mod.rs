//! The Telegram side: requests to the Bot API and what its answers mean.

pub mod service;
pub mod types;
