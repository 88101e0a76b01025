//! Requests to the Bot API, retries, and the deletion of a file with its chunks.

use vstd::prelude::*;
use vstd::utf8::*;

use crate::json;
use crate::json::Json;
use crate::json::JsonView;
use crate::manifest;
use crate::outside;
use crate::telegram::types::FileAnswer;
use crate::telegram::types::Message;
use crate::text;

verus! {

// ---------------------------------------------------------------------------------------------
// Rate limiting
// ---------------------------------------------------------------------------------------------

/// An answer says that requests come too fast: by its HTTP status or by the code in its body.
pub open spec fn rate_limited(status: u16, body: JsonView) -> bool {
    status == 429 || json::i64_of(json::field(body, "error_code"@)) == Some(429i64)
}

/// The wait that an answer asks for, in seconds.
pub open spec fn requested_wait(body: JsonView) -> Option<u64> {
    match json::field(body, "parameters"@) {
        Some(p) => json::u64_of(json::field(p, "retry_after"@)),
        None => None,
    }
}

/// The wait after an answer that says that requests come too fast: three seconds where the answer
/// asks for none, and a minute at most.
pub open spec fn retry_wait(body: JsonView) -> u64 {
    match requested_wait(body) {
        Some(n) => if n > 60 {
            60
        } else {
            n
        },
        None => 3,
    }
}

/// The wait in seconds before a request may be sent again, where the answer says that requests come
/// too fast.
pub fn retry_after_secs(status: u16, body: &Json) -> (r: Option<u64>)
    ensures
        r == if rate_limited(status, body@) {
            Some(retry_wait(body@))
        } else {
            None
        },
        r is Some ==> r->0 <= 60,
{
    let by_body = match body.get_i64("error_code") {
        Some(n) => n == 429,
        None => false,
    };
    if !(status == 429 || by_body) {
        return None;
    }
    let asked = match body.get("parameters") {
        Some(p) => p.get_u64("retry_after"),
        None => None,
    };
    match asked {
        Some(n) => if n > 60 {
            Some(60)
        } else {
            Some(n)
        },
        None => Some(3),
    }
}

// ---------------------------------------------------------------------------------------------
// Requests
// ---------------------------------------------------------------------------------------------

/// The bot and the channel that files are kept in.
#[derive(Debug)]
pub struct TelegramService {
    pub bot_token: String,
    pub channel_name: String,
}

/// A call of the Bot API with a JSON body.
#[derive(Debug, PartialEq)]
pub struct ApiCall {
    pub url: String,
    pub body: Json,
}

/// An upload to the Bot API: the text fields of its form, and the name and type of the document.
#[derive(Debug, PartialEq)]
pub struct UploadCall {
    pub url: String,
    pub fields: Vec<(String, String)>,
    pub file_name: String,
    pub mime_type: String,
}

/// The address of a method of the Bot API.
pub open spec fn api_address(bot_token: Seq<char>, method: Seq<char>) -> Seq<char> {
    "https://api.telegram.org/bot"@ + bot_token + "/"@ + method
}

/// The address of a file.
pub open spec fn file_address(bot_token: Seq<char>, file_path: Seq<char>) -> Seq<char> {
    "https://api.telegram.org/file/bot"@ + bot_token + "/"@ + file_path
}

/// The address of a method of the Bot API for a bot.
pub fn bot_api_url(bot_token: &str, method: &str) -> (r: String)
    ensures
        r@ == api_address(bot_token@, method@),
{
    let mut s = String::from_str("https://api.telegram.org/bot");
    s.append(bot_token);
    s.append("/");
    s.append(method);
    s
}

/// The body of the call that asks for a file.
pub open spec fn file_question(file_id: Seq<char>) -> JsonView {
    JsonView::Obj(json::empty_fields().push(("file_id"@, JsonView::Str(file_id))))
}

/// The body of the call that deletes a message of a channel.
pub open spec fn deletion_request(channel_name: Seq<char>, message_id: i64) -> JsonView {
    JsonView::Obj(
        json::empty_fields().push(("chat_id"@, JsonView::Str(channel_name))).push(
            ("message_id"@, json::int_view(message_id)),
        ),
    )
}

/// What asking for a file gives: its address where the answer names a path, an error where there is
/// no answer.
pub open spec fn download_address(bot_token: Seq<char>, answer: FileAnswer) -> Result<
    Option<Seq<char>>,
    Seq<char>,
> {
    match answer {
        FileAnswer::SendFailed(e) => Err("getFile request failed: "@ + e@),
        FileAnswer::ParseFailed(e) => Err("Parse error: "@ + e@),
        FileAnswer::Answer { ok, result } => match result {
            Some(f) => match f.file_path {
                Some(p) => if ok {
                    Ok(Some(file_address(bot_token, p@)))
                } else {
                    Ok(None)
                },
                None => Ok(None),
            },
            None => Ok(None),
        },
    }
}

/// The contents of a result whose success is an optional text.
pub open spec fn result_opt_view(r: Result<Option<String>, String>) -> Result<
    Option<Seq<char>>,
    Seq<char>,
> {
    match r {
        Ok(o) => Ok(text::opt_view(o)),
        Err(e) => Err(e@),
    }
}

/// The contents of a result whose success is a text.
pub open spec fn result_view(r: Result<String, String>) -> Result<Seq<char>, Seq<char>> {
    match r {
        Ok(s) => Ok(s@),
        Err(e) => Err(e@),
    }
}

/// One text behind another.
pub fn joined(a: &str, b: &str) -> (r: String)
    ensures
        r@ == a@ + b@,
{
    let mut s = String::from_str(a);
    s.append(b);
    s
}

impl TelegramService {
    /// The service of a bot and a channel.
    pub fn new(bot_token: String, channel_name: String) -> (r: Self)
        ensures
            r.bot_token == bot_token,
            r.channel_name == channel_name,
    {
        TelegramService { bot_token, channel_name }
    }

    /// The address of a method of the Bot API.
    pub fn api_url(&self, method: &str) -> (r: String)
        ensures
            r@ == api_address(self.bot_token@, method@),
    {
        bot_api_url(self.bot_token.as_str(), method)
    }

    /// The address of a file.
    pub fn file_url(&self, file_path: &str) -> (r: String)
        ensures
            r@ == file_address(self.bot_token@, file_path@),
    {
        let mut s = String::from_str("https://api.telegram.org/file/bot");
        s.append(self.bot_token.as_str());
        s.append("/");
        s.append(file_path);
        s
    }

    /// The call that asks for a file.
    pub fn get_file_call(&self, file_id: &str) -> (r: ApiCall)
        ensures
            asks_for_file(*self, file_id@, r),
    {
        let mut f = json::no_fields();
        json::put(&mut f, "file_id", json::text_value(file_id));
        ApiCall { url: self.api_url("getFile"), body: Json::Obj(f) }
    }

    /// The address of a file, from what asking for it gave.
    pub fn get_download_url(&self, answer: FileAnswer) -> (r: Result<Option<String>, String>)
        ensures
            result_opt_view(r) == download_address(self.bot_token@, answer),
    {
        match answer {
            FileAnswer::SendFailed(e) => Err(joined("getFile request failed: ", e.as_str())),
            FileAnswer::ParseFailed(e) => Err(joined("Parse error: ", e.as_str())),
            FileAnswer::Answer { ok, result } => match result {
                Some(f) => match f.file_path {
                    Some(p) => {
                        if ok {
                            Ok(Some(self.file_url(p.as_str())))
                        } else {
                            Ok(None)
                        }
                    },
                    None => Ok(None),
                },
                None => Ok(None),
            },
        }
    }

    /// The call that deletes a message.
    pub fn delete_message_call(&self, message_id: i64) -> (r: ApiCall)
        ensures
            asks_for_deletion(*self, message_id, r),
    {
        let mut f = json::no_fields();
        json::put(&mut f, "chat_id", json::text_value(self.channel_name.as_str()));
        json::put(&mut f, "message_id", json::int_value(message_id));
        ApiCall { url: self.api_url("deleteMessage"), body: Json::Obj(f) }
    }

    /// The upload of a document whose media type is known.
    pub fn upload_call(&self, filename: &str, mime_type: String, reply_to: Option<i64>) -> (r: UploadCall)
        ensures
            is_upload_of(*self, filename@, mime_type@, reply_to, r),
    {
        let mut fields = crate::reply::no_headers();
        crate::reply::put_header(&mut fields, "chat_id", self.channel_name.as_str());
        match reply_to {
            Some(id) => {
                let mut s = String::new();
                text::push_decimal_signed(&mut s, id);
                assert(s@ =~= text::decimal_signed(id as int));
                crate::reply::put_header(&mut fields, "reply_to_message_id", s.as_str());
            },
            None => {},
        }
        UploadCall {
            url: self.api_url("sendDocument"),
            fields,
            file_name: String::from_str(filename),
            mime_type,
        }
    }

    /// The upload of a document, with the media type that its name suggests.
    pub fn send_document_call(&self, filename: &str, reply_to: Option<i64>) -> (r: UploadCall)
        ensures
            is_upload_of(*self, filename@, outside::guessed_mime(filename@), reply_to, r),
    {
        let mime_type = outside::guess_mime(filename);
        self.upload_call(filename, mime_type, reply_to)
    }
}

/// The call that asks for a file.
pub open spec fn asks_for_file(service: TelegramService, file_id: Seq<char>, r: ApiCall) -> bool {
    &&& r.url@ == api_address(service.bot_token@, "getFile"@)
    &&& r.body@ == file_question(file_id)
}

/// The call that deletes a message.
pub open spec fn asks_for_deletion(service: TelegramService, message_id: i64, r: ApiCall) -> bool {
    &&& r.url@ == api_address(service.bot_token@, "deleteMessage"@)
    &&& r.body@ == deletion_request(service.channel_name@, message_id)
}

/// The upload of a document to the channel, under its name and with its media type.
pub open spec fn is_upload_of(
    service: TelegramService,
    filename: Seq<char>,
    mime_type: Seq<char>,
    reply_to: Option<i64>,
    r: UploadCall,
) -> bool {
    &&& r.url@ == api_address(service.bot_token@, "sendDocument"@)
    &&& r.file_name@ == filename
    &&& r.mime_type@ == mime_type
    &&& crate::reply::headers_view(r.fields@) == upload_fields(service.channel_name@, reply_to)
}

/// The text fields of the form of an upload.
pub open spec fn upload_fields(channel_name: Seq<char>, reply_to: Option<i64>) -> Seq<
    (Seq<char>, Seq<char>),
> {
    let chat = crate::reply::empty_headers().push(("chat_id"@, channel_name));
    match reply_to {
        Some(id) => chat.push(("reply_to_message_id"@, text::decimal_signed(id as int))),
        None => chat,
    }
}

// ---------------------------------------------------------------------------------------------
// Uploading with retries
// ---------------------------------------------------------------------------------------------

/// What became of an attempt to upload a document.
#[derive(Debug)]
pub enum SendOutcome {
    /// The media type was not accepted.
    BadMime(String),
    /// The request was not answered.
    NetworkError(String),
    /// The answer was no JSON.
    ParseError(String),
    /// The answer, and the message that its result holds.
    Answer { status: u16, data: Json, message: Result<Message, String> },
}

/// What to do after an attempt.
#[derive(Debug, PartialEq)]
pub enum SendStep {
    /// Wait so many seconds and try again.
    Wait(u64),
    /// Try no more.
    Done(Result<Message, String>),
}

/// As many attempts as configured, and one at least.
pub open spec fn attempts_for(configured: u32) -> u32 {
    if configured > 1 {
        configured
    } else {
        1
    }
}

/// How far an upload has come: the number of the attempt that is under way, and how many there may
/// be.
#[derive(Debug, PartialEq)]
pub struct SendAttempts {
    pub attempt: u32,
    pub max_attempts: u32,
}

impl SendAttempts {
    /// The attempt under way is one of those that there may be.
    pub open spec fn wf(&self) -> bool {
        1 <= self.attempt <= self.max_attempts
    }

    /// The first attempt of as many as configured, and of one at least.
    pub fn first(configured: u32) -> (r: Self)
        ensures
            r.wf(),
            r.attempt == 1,
            r.max_attempts == attempts_for(configured),
    {
        SendAttempts { attempt: 1, max_attempts: if configured > 1 { configured } else { 1 } }
    }
}

/// How an attempt ended for good, where it is not tried again.
pub open spec fn send_error(outcome: SendOutcome) -> Seq<char> {
    match outcome {
        SendOutcome::BadMime(e) => "Invalid MIME type: "@ + e@,
        SendOutcome::NetworkError(e) => "sendDocument request failed: "@ + e@,
        SendOutcome::ParseError(e) => "Parse error: "@ + e@,
        SendOutcome::Answer { status, data, message } => if json::is_true(json::field(data@, "ok"@)) {
            "Decode message error: "@ + message->Err_0@
        } else {
            "sendDocument error: "@ + match json::text_of(json::field(data@, "description"@)) {
                Some(d) => d,
                None => "unknown error"@,
            }
        },
    }
}

/// The wait after which an attempt that ended so may be repeated.
pub open spec fn send_wait(outcome: SendOutcome) -> Option<u64> {
    match outcome {
        SendOutcome::BadMime(_) => None,
        SendOutcome::NetworkError(_) => Some(2),
        SendOutcome::ParseError(_) => Some(2),
        SendOutcome::Answer { status, data, message } => if json::is_true(json::field(data@, "ok"@)) {
            None
        } else if rate_limited(status, data@) {
            Some(retry_wait(data@))
        } else {
            None
        },
    }
}

/// The message that an attempt gave.
pub open spec fn sent_message(outcome: SendOutcome) -> Option<Message> {
    match outcome {
        SendOutcome::Answer { status, data, message } => if json::is_true(json::field(data@, "ok"@)) {
            match message {
                Ok(m) => Some(m),
                Err(_) => None,
            }
        } else {
            None
        },
        _ => None,
    }
}

/// An attempt has ended so: what to do next, and how far the upload has come then.
pub open spec fn attempted(
    before: SendAttempts,
    outcome: SendOutcome,
    after: SendAttempts,
    step: SendStep,
) -> bool {
    &&& after.max_attempts == before.max_attempts
    &&& after.attempt == before.attempt + if step is Wait {
        1int
    } else {
        0
    }
    &&& match sent_message(outcome) {
        Some(m) => step == SendStep::Done(Ok(m)),
        None => if send_wait(outcome) is Some && before.attempt < before.max_attempts {
            step == SendStep::Wait(send_wait(outcome)->0)
        } else {
            step matches SendStep::Done(Err(e)) && e@ == send_error(outcome)
        },
    }
}

impl TelegramService {
    /// What to do after an attempt. A message ends it; an error that may pass is tried again while
    /// attempts are left; any other error ends it.
    pub fn send_document_with_retry(attempts: &mut SendAttempts, outcome: SendOutcome) -> (r: SendStep)
        requires
            old(attempts).wf(),
        ensures
            final(attempts).wf(),
            attempted(*old(attempts), outcome, *final(attempts), r),
            r matches SendStep::Wait(n) ==> n <= 60,
    {
        let left = attempts.attempt < attempts.max_attempts;
        let step = match outcome {
            SendOutcome::BadMime(e) => SendStep::Done(Err(joined("Invalid MIME type: ", e.as_str()))),
            SendOutcome::NetworkError(e) => {
                if left {
                    SendStep::Wait(2)
                } else {
                    SendStep::Done(Err(joined("sendDocument request failed: ", e.as_str())))
                }
            },
            SendOutcome::ParseError(e) => {
                if left {
                    SendStep::Wait(2)
                } else {
                    SendStep::Done(Err(joined("Parse error: ", e.as_str())))
                }
            },
            SendOutcome::Answer { status, data, message } => {
                if data.field_is_true("ok") {
                    match message {
                        Ok(m) => SendStep::Done(Ok(m)),
                        Err(e) => SendStep::Done(Err(joined("Decode message error: ", e.as_str()))),
                    }
                } else {
                    match (retry_after_secs(status, &data), left) {
                        (Some(wait), true) => SendStep::Wait(wait),
                        _ => match data.get_text("description") {
                            Some(d) => SendStep::Done(Err(joined("sendDocument error: ", d))),
                            None => SendStep::Done(
                                Err(joined("sendDocument error: ", "unknown error")),
                            ),
                        },
                    }
                }
            },
        };
        match step {
            SendStep::Wait(_) => {
                attempts.attempt = attempts.attempt + 1;
            },
            _ => {},
        }
        step
    }
}

// ---------------------------------------------------------------------------------------------
// Deleting
// ---------------------------------------------------------------------------------------------

/// What became of asking for the deletion of a message.
#[derive(Debug)]
pub enum DeleteOutcome {
    /// The request was not answered.
    SendFailed,
    /// The answer; a null where it was no JSON.
    Answer(Json),
}

/// A message is gone, with the reason: it was deleted, it was not there, or something went wrong.
pub open spec fn deletion(outcome: DeleteOutcome) -> (bool, Seq<char>) {
    match outcome {
        DeleteOutcome::SendFailed => (false, "error"@),
        DeleteOutcome::Answer(data) => if json::is_true(json::field(data@, "ok"@)) {
            (true, "deleted"@)
        } else if text::has_substring(
            text::text_or_empty(json::text_of(json::field(data@, "description"@))),
            "not found"@,
        ) {
            (true, "not_found"@)
        } else {
            (false, "error"@)
        },
    }
}

impl TelegramService {
    /// Tells whether a message is gone, and why. A message that was not there counts as gone.
    pub fn delete_message(outcome: &DeleteOutcome) -> (r: (bool, String))
        ensures
            (r.0, r.1@) == deletion(*outcome),
    {
        match outcome {
            DeleteOutcome::SendFailed => (false, String::from_str("error")),
            DeleteOutcome::Answer(data) => {
                if data.field_is_true("ok") {
                    return (true, String::from_str("deleted"));
                }
                let found = match data.get_text("description") {
                    Some(d) => text::contains_str(d, "not found"),
                    None => {
                        let r = text::contains_str("", "not found");
                        proof {
                            reveal_strlit("");
                            assert(""@ =~= Seq::<char>::empty());
                        }
                        r
                    },
                };
                if found {
                    (true, String::from_str("not_found"))
                } else {
                    (false, String::from_str("error"))
                }
            },
        }
    }
}

/// What deleting a file with its chunks came to.
#[derive(Debug, PartialEq)]
pub struct DeleteResult {
    pub status: String,
    pub main_file_id: String,
    pub deleted_chunks: Vec<String>,
    pub failed_chunks: Vec<String>,
    pub main_message_deleted: bool,
    pub main_delete_reason: String,
    pub is_manifest: bool,
    pub reason: String,
}

/// What a deletion result holds.
pub struct DeleteResultView {
    pub status: Seq<char>,
    pub main_file_id: Seq<char>,
    pub deleted_chunks: Seq<Seq<char>>,
    pub failed_chunks: Seq<Seq<char>>,
    pub main_message_deleted: bool,
    pub main_delete_reason: Seq<char>,
    pub is_manifest: bool,
    pub reason: Seq<char>,
}

impl View for DeleteResult {
    type V = DeleteResultView;

    open spec fn view(&self) -> DeleteResultView {
        DeleteResultView {
            status: self.status@,
            main_file_id: self.main_file_id@,
            deleted_chunks: text::strings_view(self.deleted_chunks@),
            failed_chunks: text::strings_view(self.failed_chunks@),
            main_message_deleted: self.main_message_deleted,
            main_delete_reason: self.main_delete_reason@,
            is_manifest: self.is_manifest,
            reason: self.reason@,
        }
    }
}

/// The file identifier was refused before anything was deleted.
pub open spec fn refused_deletion(file_id: Seq<char>, reason: Seq<char>) -> DeleteResultView {
    DeleteResultView {
        status: "error"@,
        main_file_id: file_id,
        deleted_chunks: Seq::empty(),
        failed_chunks: Seq::empty(),
        main_message_deleted: false,
        main_delete_reason: Seq::empty(),
        is_manifest: false,
        reason,
    }
}

/// Which message a deletion is about, and which file to look into for chunks.
#[derive(Debug, PartialEq)]
pub struct DeletePlan {
    pub message_id: i64,
    pub actual_file_id: String,
}

/// The identifier `message:file` taken apart, or the reason why it cannot be.
pub open spec fn composite_parts(file_id: Seq<char>) -> Result<(i64, Seq<char>), Seq<char>> {
    match text::split_once(file_id, ':') {
        None => Err("Invalid file_id format"@),
        Some((m, f)) => match text::signed_value(m) {
            Some(n) => if i64::MIN <= n <= i64::MAX {
                Ok((n as i64, f))
            } else {
                Err("Invalid message_id"@)
            },
            None => Err("Invalid message_id"@),
        },
    }
}

fn refuse_deletion(file_id: &str, reason: &str) -> (r: DeleteResult)
    ensures
        r@ == refused_deletion(file_id@, reason@),
{
    let r = DeleteResult {
        status: String::from_str("error"),
        main_file_id: String::from_str(file_id),
        deleted_chunks: Vec::new(),
        failed_chunks: Vec::new(),
        main_message_deleted: false,
        main_delete_reason: String::new(),
        is_manifest: false,
        reason: String::from_str(reason),
    };
    assert(text::strings_view(r.deleted_chunks@) =~= Seq::<Seq<char>>::empty());
    assert(text::strings_view(r.failed_chunks@) =~= Seq::<Seq<char>>::empty());
    r
}

/// Begins the deletion of a file: which message to delete, and which file to look into for chunks.
pub fn plan_deletion(file_id: &str) -> (r: Result<DeletePlan, DeleteResult>)
    ensures
        match composite_parts(file_id@) {
            Ok((m, f)) => r matches Ok(p) && p.message_id == m && p.actual_file_id@ == f,
            Err(reason) => r matches Err(d) && d@ == refused_deletion(file_id@, reason),
        },
{
    match text::str_split_once(file_id, ':') {
        None => Err(refuse_deletion(file_id, "Invalid file_id format")),
        Some((m, f)) => match text::parse_i64(m) {
            Some(message_id) => Ok(DeletePlan { message_id, actual_file_id: String::from_str(f) }),
            None => Err(refuse_deletion(file_id, "Invalid message_id")),
        },
    }
}

/// The contents of a file, where they could be had.
pub open spec fn bytes_view(body: Option<&[u8]>) -> Option<Seq<u8>> {
    match body {
        Some(b) => Some(b@),
        None => None,
    }
}

/// The contents of a file are a manifest.
pub open spec fn names_chunks(body: Option<Seq<u8>>) -> bool {
    match body {
        Some(b) => manifest::has_magic(b),
        None => false,
    }
}

/// The chunks that the contents of a file name: those of a manifest with three lines or more.
pub open spec fn chunks_named(body: Option<Seq<u8>>) -> Seq<Seq<char>> {
    match body {
        Some(b) => if manifest::has_magic(b) && manifest::manifest_lines(b).len() >= 3 {
            manifest::manifest_lines(b).skip(2)
        } else {
            Seq::empty()
        },
        None => Seq::empty(),
    }
}

/// What the contents of a file say about chunks: whether it is a manifest, and which chunks it names.
/// Contents that could not be had name none.
pub fn find_chunks(body: Option<&[u8]>) -> (r: (bool, Vec<String>))
    ensures
        r.0 == names_chunks(bytes_view(body)),
        text::strings_view(r.1@) == chunks_named(bytes_view(body)),
{
    let none: Vec<String> = Vec::new();
    assert(text::strings_view(none@) =~= Seq::<Seq<char>>::empty());
    match body {
        Some(b) => {
            if manifest::is_manifest(b) {
                let lines = manifest::read_lines(b);
                assert(text::strings_view(lines@).len() == lines@.len());
                if lines.len() >= 3 {
                    (true, manifest::lines_from(&lines, 2))
                } else {
                    (true, none)
                }
            } else {
                (false, none)
            }
        },
        None => (false, none),
    }
}

/// The message of a chunk, from its identifier `message:file`.
pub open spec fn chunk_message(composite: Seq<char>) -> Option<i64> {
    match composite_parts(composite) {
        Ok((m, _)) => Some(m),
        Err(_) => None,
    }
}

/// Whether a chunk is gone: its message is. A chunk whose identifier names no message is not.
#[derive(Debug, PartialEq)]
pub struct ChunkOutcome {
    pub chunk_id: String,
    pub deleted: bool,
}

/// A chunk is deleted: its identifier names a message, and that message is gone by the answer to
/// asking for its deletion.
pub open spec fn chunk_deleted(chunk_id: Seq<char>, asked: Option<DeleteOutcome>) -> bool {
    chunk_message(chunk_id) is Some && match asked {
        Some(o) => deletion(o).0,
        None => false,
    }
}

/// What became of a chunk, from the answer to asking for the deletion of its message, where it was
/// asked for.
pub fn chunk_outcome(chunk_id: String, asked: Option<&DeleteOutcome>) -> (r: ChunkOutcome)
    ensures
        r.chunk_id@ == chunk_id@,
        r.deleted == chunk_deleted(
            chunk_id@,
            match asked {
                Some(o) => Some(*o),
                None => None,
            },
        ),
{
    let deleted = match (plan_deletion(chunk_id.as_str()), asked) {
        (Ok(_), Some(o)) => TelegramService::delete_message(o).0,
        _ => false,
    };
    ChunkOutcome { chunk_id, deleted }
}

/// The answer about the chunk at `i` of a list, where its deletion was asked for.
pub open spec fn answer_about(asked: Seq<Option<DeleteOutcome>>, i: int) -> Option<DeleteOutcome> {
    if 0 <= i < asked.len() {
        asked[i]
    } else {
        None
    }
}

/// The chunks of a list whose messages are gone, or those whose messages are not, in order.
pub open spec fn chunks_gone(
    chunk_ids: Seq<Seq<char>>,
    asked: Seq<Option<DeleteOutcome>>,
    deleted: bool,
) -> Seq<Seq<char>>
    decreases chunk_ids.len(),
{
    if chunk_ids.len() == 0 {
        Seq::empty()
    } else {
        let before = chunks_gone(chunk_ids.drop_last(), asked, deleted);
        if chunk_deleted(chunk_ids.last(), answer_about(asked, chunk_ids.len() - 1)) == deleted {
            before.push(chunk_ids.last())
        } else {
            before
        }
    }
}

/// What deleting a file with these contents came to: the chunks that it names are sorted into those
/// that are gone and those that are not, and it is a success where the main message is gone and no
/// chunk is left.
pub open spec fn deletion_result(
    file_id: Seq<char>,
    body: Option<Seq<u8>>,
    asked: Seq<Option<DeleteOutcome>>,
    main: DeleteOutcome,
) -> DeleteResultView {
    let (main_ok, main_reason) = deletion(main);
    let failed = chunks_gone(chunks_named(body), asked, false);
    DeleteResultView {
        status: if main_ok && failed.len() == 0 {
            "success"@
        } else {
            "partial_failure"@
        },
        main_file_id: file_id,
        deleted_chunks: chunks_gone(chunks_named(body), asked, true),
        failed_chunks: failed,
        main_message_deleted: main_ok,
        main_delete_reason: main_reason,
        is_manifest: names_chunks(body),
        reason: Seq::empty(),
    }
}

impl TelegramService {
    /// What deleting a file came to, from its contents where they could be had, one answer for each
    /// chunk that they name, in order, and the answer about its main message. A chunk about which there
    /// is no answer was not asked for.
    pub fn delete_file_with_chunks(
        file_id: &str,
        body: Option<&[u8]>,
        asked: &Vec<Option<DeleteOutcome>>,
        main: &DeleteOutcome,
    ) -> (r: DeleteResult)
        ensures
            r@ == match composite_parts(file_id@) {
                Ok(_) => deletion_result(file_id@, bytes_view(body), asked@, *main),
                Err(reason) => refused_deletion(file_id@, reason),
            },
    {
        if let Err(refused) = plan_deletion(file_id) {
            return refused;
        }
        let (is_manifest, chunk_ids) = find_chunks(body);
        let (main_ok, main_reason) = TelegramService::delete_message(main);
        let mut deleted: Vec<String> = Vec::new();
        let mut failed: Vec<String> = Vec::new();
        let ghost ids = text::strings_view(chunk_ids@);
        let mut i: usize = 0;
        proof {
            assert(ids.take(0) =~= Seq::<Seq<char>>::empty());
            assert(text::strings_view(deleted@) =~= Seq::<Seq<char>>::empty());
            assert(text::strings_view(failed@) =~= Seq::<Seq<char>>::empty());
        }
        while i < chunk_ids.len()
            invariant
                ids == text::strings_view(chunk_ids@),
                i <= chunk_ids@.len(),
                text::strings_view(deleted@) == chunks_gone(ids.take(i as int), asked@, true),
                text::strings_view(failed@) == chunks_gone(ids.take(i as int), asked@, false),
            decreases chunk_ids@.len() - i,
        {
            let ghost d = text::strings_view(deleted@);
            let ghost f = text::strings_view(failed@);
            let answer = if i < asked.len() {
                match &asked[i] {
                    Some(o) => Some(o),
                    None => None,
                }
            } else {
                None
            };
            let outcome = chunk_outcome(chunk_ids[i].clone(), answer);
            let ghost id = outcome.chunk_id@;
            proof {
                let t = ids.take(i + 1);
                assert(t.drop_last() =~= ids.take(i as int));
                assert(t.last() == id);
            }
            if outcome.deleted {
                deleted.push(outcome.chunk_id);
                assert(text::strings_view(deleted@) =~= d.push(id));
            } else {
                failed.push(outcome.chunk_id);
                assert(text::strings_view(failed@) =~= f.push(id));
            }
            i = i + 1;
        }
        assert(ids.take(ids.len() as int) =~= ids);
        assert(text::strings_view(failed@).len() == failed@.len());
        let status = if main_ok && failed.len() == 0 {
            String::from_str("success")
        } else {
            String::from_str("partial_failure")
        };
        DeleteResult {
            status,
            main_file_id: String::from_str(file_id),
            deleted_chunks: deleted,
            failed_chunks: failed,
            main_message_deleted: main_ok,
            main_delete_reason: main_reason,
            is_manifest,
            reason: String::new(),
        }
    }
}

/// Each chunk of a deletion is either among the deleted or among the failed ones, and the two lists
/// hold nothing else.
pub proof fn law_chunks_are_accounted_for(chunk_ids: Seq<Seq<char>>, asked: Seq<Option<DeleteOutcome>>)
    ensures
        chunks_gone(chunk_ids, asked, true).len() + chunks_gone(chunk_ids, asked, false).len()
            == chunk_ids.len(),
        chunks_gone(chunk_ids, asked, true).to_multiset().add(
            chunks_gone(chunk_ids, asked, false).to_multiset(),
        ) == chunk_ids.to_multiset(),
    decreases chunk_ids.len(),
{
    broadcast use vstd::seq_lib::group_to_multiset_ensures;

    if chunk_ids.len() > 0 {
        law_chunks_are_accounted_for(chunk_ids.drop_last(), asked);
        assert(chunk_ids =~= chunk_ids.drop_last().push(chunk_ids.last()));
    }
    assert(chunks_gone(chunk_ids, asked, true).to_multiset().add(
        chunks_gone(chunk_ids, asked, false).to_multiset(),
    ) =~= chunk_ids.to_multiset());
}

/// Both lists of a deletion are in the order of the manifest: what is sorted out of the first chunks
/// comes first in what is sorted out of all.
pub proof fn law_chunks_keep_their_order(
    chunk_ids: Seq<Seq<char>>,
    asked: Seq<Option<DeleteOutcome>>,
    deleted: bool,
    n: int,
)
    requires
        0 <= n <= chunk_ids.len(),
    ensures
        chunks_gone(chunk_ids.take(n), asked, deleted).is_prefix_of(
            chunks_gone(chunk_ids, asked, deleted),
        ),
    decreases chunk_ids.len(),
{
    if n < chunk_ids.len() {
        law_chunks_keep_their_order(chunk_ids.drop_last(), asked, deleted, n);
        assert(chunk_ids.drop_last().take(n) =~= chunk_ids.take(n));
    } else {
        assert(chunk_ids.take(n) =~= chunk_ids);
    }
}

// ---------------------------------------------------------------------------------------------
// The name in a manifest
// ---------------------------------------------------------------------------------------------

/// What became of fetching a manifest.
#[derive(Debug)]
pub enum ManifestFetch {
    /// Asking for its address gave an error.
    LocateFailed(String),
    /// It has no address.
    NoUrl,
    /// The request was not answered.
    SendFailed(String),
    /// The answer could not be read.
    ReadFailed(String),
    /// Its contents.
    Body(Vec<u8>),
}

/// The name of the file that a manifest is about, or why there is none.
pub open spec fn manifest_filename(fetch: ManifestFetch) -> Result<Seq<char>, Seq<char>> {
    match fetch {
        ManifestFetch::LocateFailed(e) => Err(e@),
        ManifestFetch::NoUrl => Err("No download URL"@),
        ManifestFetch::SendFailed(e) => Err("Download manifest failed: "@ + e@),
        ManifestFetch::ReadFailed(e) => Err(e@),
        ManifestFetch::Body(b) => if !manifest::has_magic(b@) {
            Err("Not a manifest file"@)
        } else if manifest::manifest_lines(b@).len() < 2 {
            Err("Invalid manifest format"@)
        } else {
            Ok(manifest::manifest_lines(b@)[1])
        },
    }
}

impl TelegramService {
    /// The name of the file that a manifest is about.
    pub fn try_get_manifest_original_filename(fetch: ManifestFetch) -> (r: Result<String, String>)
        ensures
            result_view(r) == manifest_filename(fetch),
    {
        match fetch {
            ManifestFetch::LocateFailed(e) => Err(e),
            ManifestFetch::NoUrl => Err(String::from_str("No download URL")),
            ManifestFetch::SendFailed(e) => Err(joined("Download manifest failed: ", e.as_str())),
            ManifestFetch::ReadFailed(e) => Err(e),
            ManifestFetch::Body(b) => {
                if !manifest::is_manifest(b.as_slice()) {
                    return Err(String::from_str("Not a manifest file"));
                }
                let lines = manifest::read_lines(b.as_slice());
                assert(text::strings_view(lines@).len() == lines@.len());
                if lines.len() < 2 {
                    return Err(String::from_str("Invalid manifest format"));
                }
                assert(text::strings_view(lines@)[1] == lines@[1]@);
                Ok(lines[1].clone())
            },
        }
    }
}

/// Whoever deletes a file that was uploaded in chunks finds every chunk in its manifest, and whoever
/// asks for its name finds that.
pub proof fn law_manifest_is_found_whole(filename: Seq<char>, chunk_ids: Seq<Seq<char>>, body: Vec<u8>)
    requires
        manifest::is_one_line(filename),
        forall|i: int| 0 <= i < chunk_ids.len() ==> manifest::is_one_line(#[trigger] chunk_ids[i]),
        chunk_ids.len() > 0,
        body@ == encode_utf8(manifest::manifest_text(filename, chunk_ids)),
    ensures
        chunks_named(Some(body@)) == chunk_ids,
        manifest_filename(ManifestFetch::Body(body)) == Ok::<_, Seq<char>>(filename),
{
    manifest::law_manifest_round_trip(filename, chunk_ids);
}

// ---------------------------------------------------------------------------------------------
// Laws
// ---------------------------------------------------------------------------------------------

/// The calls of the Bot API go to the address of the bot, and those for files to that of its files.
pub proof fn law_addresses_name_bot_and_method(token: Seq<char>, name: Seq<char>)
    ensures
        api_address(token, name) == "https://api.telegram.org/bot"@ + (token + ("/"@ + name)),
        file_address(token, name) == "https://api.telegram.org/file/bot"@ + (token + ("/"@ + name)),
{
    assert(api_address(token, name) =~= "https://api.telegram.org/bot"@ + (token + ("/"@ + name)));
    assert(file_address(token, name) =~= "https://api.telegram.org/file/bot"@ + (token + ("/"@ + name)));
}

/// Whoever asks for a file names it, whoever deletes a message names it and its channel, and whoever
/// uploads a document names the channel, and the message that it answers where there is one.
pub proof fn law_calls_name_what_they_are_about(
    file_id: Seq<char>,
    channel: Seq<char>,
    message_id: i64,
    reply_to: Option<i64>,
)
    ensures
        json::field(file_question(file_id), "file_id"@) == Some(JsonView::Str(file_id)),
        json::field(deletion_request(channel, message_id), "chat_id"@) == Some(JsonView::Str(channel)),
        json::i64_of(json::field(deletion_request(channel, message_id), "message_id"@)) == Some(message_id),
        upload_fields(channel, reply_to)[0] == ("chat_id"@, channel),
        match reply_to {
            Some(m) => upload_fields(channel, reply_to).len() == 2 && upload_fields(channel, reply_to)[1].0
                == "reply_to_message_id"@ && text::signed_value(upload_fields(channel, reply_to)[1].1)
                == Some(m as int),
            None => upload_fields(channel, reply_to).len() == 1,
        },
{
    broadcast use json::lemma_lookup_push;

    reveal_strlit("file_id");
    reveal_strlit("chat_id");
    reveal_strlit("message_id");
    assert("file_id"@.len() == 7);
    assert("chat_id"@.len() == 7);
    assert("message_id"@.len() == 10);
    assert("file_id"@[0] != "chat_id"@[0]);
    if let Some(m) = reply_to {
        text::lemma_decimal_round_trip(m as int);
    }
}

/// A file has an address where Telegram's answer is good and names its path, and the address ends with
/// that path. Any other answer is that there is none, and no answer is an error that tells why.
pub proof fn law_addresses_of_files(token: Seq<char>, answer: FileAnswer)
    ensures
        match answer {
            FileAnswer::Answer { ok, result } => {
                let has_path = ok && result is Some && result->Some_0.file_path is Some;
                &&& download_address(token, answer) is Ok
                &&& download_address(token, answer)->Ok_0 is Some <==> has_path
                &&& has_path ==> download_address(token, answer)->Ok_0 == Some(
                    "https://api.telegram.org/file/bot"@ + token + "/"@
                        + result->Some_0.file_path->Some_0@,
                )
            },
            FileAnswer::SendFailed(e) => download_address(token, answer) == Err::<Option<Seq<char>>, _>(
                "getFile request failed: "@ + e@,
            ),
            FileAnswer::ParseFailed(e) => download_address(token, answer) == Err::<Option<Seq<char>>, _>(
                "Parse error: "@ + e@,
            ),
        },
{
}

/// Requests come too fast where the status says so or the body does, and nowhere else. The wait is the
/// one that was asked for, but a minute at most, and three seconds where none was.
pub proof fn law_waits_are_those_asked_for(status: u16, body: JsonView, parameters: JsonView, n: u64)
    ensures
        status == 429 ==> rate_limited(status, body),
        json::field(body, "error_code"@) == Some(JsonView::Uint(429)) ==> rate_limited(status, body),
        rate_limited(status, body) ==> status == 429 || json::i64_of(json::field(body, "error_code"@))
            == Some(429i64),
        json::field(body, "parameters"@) == Some(parameters) && json::field(parameters, "retry_after"@)
            == Some(JsonView::Uint(n)) && n <= 60 ==> retry_wait(body) == n,
        json::field(body, "parameters"@) == Some(parameters) && json::field(parameters, "retry_after"@)
            == Some(JsonView::Uint(n)) && n > 60 ==> retry_wait(body) == 60,
        json::field(body, "parameters"@) is None ==> retry_wait(body) == 3,
        json::field(body, "parameters"@) == Some(parameters) && json::field(parameters, "retry_after"@)
            is None ==> retry_wait(body) == 3,
        retry_wait(body) <= 60,
{
}

/// An upload ends with a message exactly where the answer is good and holds one, and it is that message.
pub proof fn law_sent_messages_are_given_back(
    before: SendAttempts,
    outcome: SendOutcome,
    after: SendAttempts,
    step: SendStep,
    m: Message,
)
    requires
        attempted(before, outcome, after, step),
    ensures
        step == SendStep::Done(Ok(m)) <==> (outcome matches SendOutcome::Answer { status, data, message }
            && json::field(data@, "ok"@) == Some(JsonView::Bool(true)) && message == Ok::<_, String>(m)),
{
}

/// What may pass is tried again as long as attempts are left: a request without an answer or with one
/// that cannot be read, after two seconds, and one that came too fast, after the wait that is asked for.
/// Nothing else is tried again, and each new attempt counts.
pub proof fn law_passing_errors_are_tried_again(
    before: SendAttempts,
    outcome: SendOutcome,
    after: SendAttempts,
    step: SendStep,
)
    requires
        before.wf(),
        attempted(before, outcome, after, step),
    ensures
        after.wf(),
        after.max_attempts == before.max_attempts,
        step is Wait ==> before.attempt < before.max_attempts && after.attempt == before.attempt + 1,
        !(step is Wait) ==> after.attempt == before.attempt,
        outcome is BadMime ==> step is Done,
        (outcome is NetworkError || outcome is ParseError) && before.attempt < before.max_attempts ==> step
            == SendStep::Wait(2),
        outcome matches SendOutcome::Answer { status, data, message } ==> {
            let good = json::field(data@, "ok"@) == Some(JsonView::Bool(true));
            let fast = status == 429 || json::i64_of(json::field(data@, "error_code"@)) == Some(429i64);
            &&& step is Wait <==> !good && fast && before.attempt < before.max_attempts
            &&& step is Wait ==> step == SendStep::Wait(retry_wait(data@))
        },
{
}

/// An upload that fails for good says why: the error ends with what was reported, behind what it is
/// about.
pub proof fn law_failed_uploads_say_why(
    before: SendAttempts,
    outcome: SendOutcome,
    after: SendAttempts,
    step: SendStep,
    e: String,
)
    requires
        attempted(before, outcome, after, step),
        step == SendStep::Done(Err(e)),
    ensures
        match outcome {
            SendOutcome::BadMime(why) => e@ == "Invalid MIME type: "@ + why@,
            SendOutcome::NetworkError(why) => e@ == "sendDocument request failed: "@ + why@,
            SendOutcome::ParseError(why) => e@ == "Parse error: "@ + why@,
            SendOutcome::Answer { status, data, message } => match message {
                Err(why) if json::field(data@, "ok"@) == Some(JsonView::Bool(true)) => e@
                    == "Decode message error: "@ + why@,
                _ => match json::field(data@, "description"@) {
                    Some(JsonView::Str(d)) => e@ == "sendDocument error: "@ + d,
                    _ => e@ == "sendDocument error: "@ + "unknown error"@,
                },
            },
        },
{
}

/// An answer says that a message was not there: its description holds these words.
pub open spec fn says_not_found(data: JsonView) -> bool {
    exists|a: Seq<char>, b: Seq<char>|
        json::field(data, "description"@) == Some(JsonView::Str(#[trigger] (a + "not found"@ + b)))
}

/// A message counts as gone exactly where the answer is good, or its description holds the words
/// `not found`. Any other answer, and none, leaves it where it is.
pub proof fn law_gone_messages(outcome: DeleteOutcome)
    ensures
        match outcome {
            DeleteOutcome::SendFailed => deletion(outcome) == (false, "error"@),
            DeleteOutcome::Answer(data) => {
                let good = json::field(data@, "ok"@) == Some(JsonView::Bool(true));
                &&& deletion(outcome).0 <==> good || says_not_found(data@)
                &&& good ==> deletion(outcome).1 == "deleted"@
                &&& !good && says_not_found(data@) ==> deletion(outcome).1 == "not_found"@
                &&& !good && !says_not_found(data@) ==> deletion(outcome) == (false, "error"@)
            },
        },
{
    if let DeleteOutcome::Answer(data) = outcome {
        reveal_strlit("not found");
        let description = json::field(data@, "description"@);
        let d = text::text_or_empty(json::text_of(description));
        if text::has_substring(d, "not found"@) {
            let (a, b) = text::law_what_occurs_is_a_part(d, "not found"@);
            assert((a + "not found"@ + b).len() >= 9);
            assert(description == Some(JsonView::Str(a + "not found"@ + b)));
        }
        if says_not_found(data@) {
            let (a, b) = choose|a: Seq<char>, b: Seq<char>|
                description == Some(JsonView::Str(#[trigger] (a + "not found"@ + b)));
            text::law_parts_occur(a, "not found"@, b);
        }
    }
}

/// The identifier of a document must be a message and a file with a colon between; any other is refused,
/// and nothing is deleted.
pub proof fn law_other_identifiers_are_refused(file_id: Seq<char>, m: Seq<char>, f: Seq<char>, n: i64)
    ensures
        !file_id.contains(':') ==> composite_parts(file_id) == Err::<(i64, Seq<char>), _>(
            "Invalid file_id format"@,
        ),
        !m.contains(':') && text::signed_value(m) is None ==> composite_parts(m + seq![':'] + f) == Err::<
            (i64, Seq<char>),
            _,
        >("Invalid message_id"@),
        !m.contains(':') && text::signed_value(m) == Some(n as int) ==> composite_parts(m + seq![':'] + f) == Ok::<
            _,
            Seq<char>,
        >((n, f)),
        refused_deletion(file_id, m).status == "error"@,
        refused_deletion(file_id, m).main_file_id == file_id,
        refused_deletion(file_id, m).reason == m,
        refused_deletion(file_id, m).deleted_chunks.len() == 0,
        refused_deletion(file_id, m).failed_chunks.len() == 0,
        !refused_deletion(file_id, m).main_message_deleted,
        !refused_deletion(file_id, m).is_manifest,
{
    text::law_split_where_the_separator_is(file_id, ':');
    if !m.contains(':') {
        text::lemma_split_once_join(m, ':', f);
    }
}

/// Contents that do not begin as a manifest does name no chunks, and neither do contents that could not
/// be had.
pub proof fn law_plain_files_have_no_chunks(body: Option<Seq<u8>>)
    ensures
        names_chunks(body) <==> body is Some && encode_utf8("tgstate-blob\n"@).is_prefix_of(body->Some_0),
        !names_chunks(body) ==> chunks_named(body).len() == 0,
        body is None ==> chunks_named(body).len() == 0,
{
}

/// A chunk is among the deleted ones exactly where it stands in the manifest at a place about which the
/// answer is that its message is gone, and among the failed ones where it stands at any other place.
pub proof fn law_chunks_are_where_they_belong(
    chunk_ids: Seq<Seq<char>>,
    asked: Seq<Option<DeleteOutcome>>,
    deleted: bool,
    c: Seq<char>,
)
    ensures
        chunks_gone(chunk_ids, asked, deleted).contains(c) <==> exists|i: int|
            0 <= i < chunk_ids.len() && #[trigger] chunk_ids[i] == c && (chunk_message(c) is Some && i
                < asked.len() && asked[i] is Some && deletion(asked[i]->Some_0).0) == deleted,
    decreases chunk_ids.len(),
{
    let all = chunks_gone(chunk_ids, asked, deleted);
    if chunk_ids.len() > 0 {
        let less = chunk_ids.drop_last();
        let n = chunk_ids.len() - 1;
        law_chunks_are_where_they_belong(less, asked, deleted, c);
        let before = chunks_gone(less, asked, deleted);
        if all.contains(c) {
            let k = choose|k: int| 0 <= k < all.len() && all[k] == c;
            if k < before.len() {
                assert(before[k] == c);
                let i = choose|i: int|
                    0 <= i < less.len() && #[trigger] less[i] == c && (chunk_message(c) is Some && i
                        < asked.len() && asked[i] is Some && deletion(asked[i]->Some_0).0) == deleted;
                assert(chunk_ids[i] == c);
            } else {
                assert(chunk_ids[n] == c);
            }
        }
        if exists|i: int|
            0 <= i < chunk_ids.len() && #[trigger] chunk_ids[i] == c && (chunk_message(c) is Some && i
                < asked.len() && asked[i] is Some && deletion(asked[i]->Some_0).0) == deleted {
            let i = choose|i: int|
                0 <= i < chunk_ids.len() && #[trigger] chunk_ids[i] == c && (chunk_message(c) is Some && i
                    < asked.len() && asked[i] is Some && deletion(asked[i]->Some_0).0) == deleted;
            if i < n {
                assert(less[i] == c);
                let k = choose|k: int| 0 <= k < before.len() && before[k] == c;
                assert(all[k] == c);
            } else {
                assert(all.last() == c);
            }
        }
    }
}

/// A deletion is a success exactly where the main message is gone and no chunk is left, and a partial
/// failure elsewhere. It tells what became of the main message, and which file it was about.
pub proof fn law_deletions_tell_what_is_left(
    file_id: Seq<char>,
    body: Option<Seq<u8>>,
    asked: Seq<Option<DeleteOutcome>>,
    main: DeleteOutcome,
)
    ensures
        ({
            let r = deletion_result(file_id, body, asked, main);
            &&& r.status == "success"@ <==> deletion(main).0 && r.failed_chunks.len() == 0
            &&& r.status == "success"@ || r.status == "partial_failure"@
            &&& r.main_message_deleted == deletion(main).0
            &&& r.main_delete_reason == deletion(main).1
            &&& r.main_file_id == file_id
            &&& r.is_manifest == names_chunks(body)
            &&& r.reason.len() == 0
            &&& r.deleted_chunks == chunks_gone(chunks_named(body), asked, true)
            &&& r.failed_chunks == chunks_gone(chunks_named(body), asked, false)
        }),
{
    reveal_strlit("success");
    reveal_strlit("partial_failure");
    assert("success"@.len() == 7);
    assert("partial_failure"@.len() == 15);
}

/// There are as many attempts as configured, and one where none is.
pub proof fn law_attempts_are_as_configured(configured: u32)
    ensures
        attempts_for(configured) >= 1,
        attempts_for(configured) >= configured,
        configured >= 1 ==> attempts_for(configured) == configured,
{
}

/// The name of a file is read from the second line of its manifest, and from nothing else: what is no
/// manifest, or has no second line, or could not be had, gives an error.
pub proof fn law_names_are_read_from_manifests(fetch: ManifestFetch)
    ensures
        manifest_filename(fetch) is Ok <==> (fetch matches ManifestFetch::Body(b) && encode_utf8(
            "tgstate-blob\n"@,
        ).is_prefix_of(b@) && manifest::manifest_lines(b@).len() >= 2),
        manifest_filename(fetch) is Ok ==> (fetch matches ManifestFetch::Body(b) && manifest_filename(
            fetch,
        )->Ok_0 == manifest::manifest_lines(b@)[1]),
        fetch is NoUrl ==> manifest_filename(fetch) == Err::<Seq<char>, _>("No download URL"@),
        fetch matches ManifestFetch::Body(b) ==> !encode_utf8("tgstate-blob\n"@).is_prefix_of(b@) ==> (
        manifest_filename(fetch) == Err::<Seq<char>, _>("Not a manifest file"@)),
        fetch matches ManifestFetch::Body(b) ==> encode_utf8("tgstate-blob\n"@).is_prefix_of(b@)
            && manifest::manifest_lines(b@).len() < 2 ==> (manifest_filename(fetch) == Err::<Seq<char>, _>(
            "Invalid manifest format"@,
        )),
        fetch matches ManifestFetch::LocateFailed(e) ==> manifest_filename(fetch) == Err::<Seq<char>, _>(e@),
        fetch matches ManifestFetch::ReadFailed(e) ==> manifest_filename(fetch) == Err::<Seq<char>, _>(e@),
        fetch matches ManifestFetch::SendFailed(e) ==> manifest_filename(fetch) == Err::<Seq<char>, _>(
            "Download manifest failed: "@ + e@,
        ),
{
}

/// A document is uploaded by its bot to its channel, under its own name and with its own type.
pub proof fn law_documents_are_uploaded_under_their_names(
    service: TelegramService,
    filename: Seq<char>,
    mime_type: Seq<char>,
    reply_to: Option<i64>,
    r: UploadCall,
)
    requires
        is_upload_of(service, filename, mime_type, reply_to, r),
    ensures
        r.url@ == "https://api.telegram.org/bot"@ + service.bot_token@ + "/"@ + "sendDocument"@,
        r.file_name@ == filename,
        r.mime_type@ == mime_type,
        r.fields@.len() == if reply_to is Some {
            2int
        } else {
            1
        },
        r.fields@[0].0@ == "chat_id"@,
        r.fields@[0].1@ == service.channel_name@,
{
    let v = crate::reply::headers_view(r.fields@);
    assert(v.len() == r.fields@.len());
    assert(v[0] == (r.fields@[0].0@, r.fields@[0].1@));
}

/// What a deletion result holds is what it is made of.
pub proof fn law_results_hold_what_they_are_made_of(d: DeleteResult, i: int)
    ensures
        d@.status == d.status@,
        d@.main_file_id == d.main_file_id@,
        d@.main_message_deleted == d.main_message_deleted,
        d@.main_delete_reason == d.main_delete_reason@,
        d@.is_manifest == d.is_manifest,
        d@.reason == d.reason@,
        d@.deleted_chunks.len() == d.deleted_chunks@.len(),
        d@.failed_chunks.len() == d.failed_chunks@.len(),
        0 <= i < d.deleted_chunks@.len() ==> d@.deleted_chunks[i] == d.deleted_chunks@[i]@,
        0 <= i < d.failed_chunks@.len() ==> d@.failed_chunks[i] == d.failed_chunks@[i]@,
{
}

/// The bot asks for the file that was named, and deletes the message that was named from its own channel.
pub proof fn law_calls_go_to_the_bot(
    service: TelegramService,
    file_id: Seq<char>,
    message_id: i64,
    question: ApiCall,
    deletion: ApiCall,
)
    requires
        asks_for_file(service, file_id, question),
        asks_for_deletion(service, message_id, deletion),
    ensures
        question.url@ == "https://api.telegram.org/bot"@ + service.bot_token@ + "/"@ + "getFile"@,
        json::field(question.body@, "file_id"@) == Some(JsonView::Str(file_id)),
        deletion.url@ == "https://api.telegram.org/bot"@ + service.bot_token@ + "/"@ + "deleteMessage"@,
        json::field(deletion.body@, "chat_id"@) == Some(JsonView::Str(service.channel_name@)),
        json::i64_of(json::field(deletion.body@, "message_id"@)) == Some(message_id),
{
    law_calls_name_what_they_are_about(file_id, service.channel_name@, message_id, None);
}

/// A chunk is deleted exactly where its identifier names a message and the answer to asking for the
/// deletion says that this message is gone. One that was not asked about is not.
pub proof fn law_chunks_go_with_their_messages(chunk_id: Seq<char>, outcome: DeleteOutcome)
    ensures
        chunk_deleted(chunk_id, Some(outcome)) <==> chunk_message(chunk_id) is Some && deletion(outcome).0,
        !chunk_deleted(chunk_id, None),
{
}

} // verus!
