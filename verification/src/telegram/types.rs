//! The parts of Telegram's objects that matter here.

use vstd::prelude::*;

verus! {

/// A document of a message.
#[derive(Debug, PartialEq)]
pub struct Document {
    pub file_id: String,
}

/// A message of the channel.
#[derive(Debug, PartialEq)]
pub struct Message {
    pub message_id: i64,
    pub document: Option<Document>,
}

/// What is known of a file that can be downloaded.
#[derive(Debug, PartialEq)]
pub struct TelegramFile {
    pub file_path: Option<String>,
}

/// What became of asking for a file.
#[derive(Debug)]
pub enum FileAnswer {
    /// The request was not answered.
    SendFailed(String),
    /// The answer could not be read.
    ParseFailed(String),
    /// The answer.
    Answer { ok: bool, result: Option<TelegramFile> },
}

} // verus!
