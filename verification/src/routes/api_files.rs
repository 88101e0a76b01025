//! Downloads, and the list of files.

use vstd::prelude::*;
use vstd::utf8::*;

use crate::auth;
use crate::config;
use crate::config::{AppSettingsMap, AppSettingsView};
use crate::constants;
use crate::database;
use crate::database::{FileMetadata, FileView};
use crate::json;
use crate::json::{Json, JsonView};
use crate::manifest;
use crate::outside;
use crate::reply;
use crate::reply::{Body, BodyView, Reply, ReplyView};
use crate::routes::api_upload;
use crate::routes::pages;
use crate::telegram::service;
use crate::telegram::service::{DeleteResult, DeleteResultView, TelegramService};
use crate::text;

verus! {

/// What a download asks for.
#[derive(Debug, PartialEq)]
pub struct DownloadQuery {
    pub download: Option<String>,
}

/// The files that are to be deleted.
#[derive(Debug, PartialEq)]
pub struct BatchDeleteRequest {
    pub file_ids: Vec<String>,
}

/// The share password that a file is to have. An empty one clears it.
#[derive(Debug, PartialEq)]
pub struct SharePasswordRequest {
    pub password: String,
}

// ---------------------------------------------------------------------------------------------
// The bot
// ---------------------------------------------------------------------------------------------

/// There is a token and a channel.
pub open spec fn bot_configured(settings: AppSettingsView) -> bool {
    &&& text::text_or_empty(settings.bot_token).len() > 0
    &&& text::text_or_empty(settings.channel_name).len() > 0
}

/// Access to the channel of the settings, where a bot is configured; else an answer with this message
/// and code.
pub open spec fn is_access(
    settings: AppSettingsView,
    message: Seq<char>,
    code: Seq<char>,
    r: Result<TelegramService, Reply>,
) -> bool {
    if bot_configured(settings) {
        r matches Ok(s) && Some(s.bot_token@) == settings.bot_token && Some(s.channel_name@)
            == settings.channel_name
    } else {
        r matches Err(e) && e@ == reply::error_reply(503, message, code)
    }
}

/// Access to the channel, where a bot is configured; else an answer with this message and code.
pub fn service_or_refusal(settings: &AppSettingsMap, message: &str, code: &str) -> (r: Result<
    TelegramService,
    Reply,
>)
    ensures
        is_access(settings@, message@, code@, r),
{
    let token = config::borrow_or_empty(&settings.bot_token);
    let channel = config::borrow_or_empty(&settings.channel_name);
    if token.unicode_len() == 0 || channel.unicode_len() == 0 {
        return Err(reply::reply_error(503, message, code));
    }
    Ok(TelegramService::new(String::from_str(token), String::from_str(channel)))
}

/// Access to the channel, where a bot is configured.
pub fn get_telegram_service(settings: &AppSettingsMap) -> (r: Result<TelegramService, Reply>)
    ensures
        is_access(settings@, "Bot 未配置"@, "bot_not_configured"@, r),
{
    service_or_refusal(settings, "Bot 未配置", "bot_not_configured")
}

// ---------------------------------------------------------------------------------------------
// Names and types
// ---------------------------------------------------------------------------------------------

/// No identifier of a file: it is empty, or longer than 128 bytes, or holds a control character.
pub open spec fn bad_identifier(s: Seq<char>) -> bool {
    ||| s.len() == 0
    ||| text::byte_len(s) > 128
    ||| exists|i: int| 0 <= i < s.len() && text::is_control(#[trigger] s[i])
}

/// Tells whether a text is no identifier of a file.
pub fn invalid_identifier(s: &str) -> (r: bool)
    ensures
        r == bad_identifier(s@),
{
    proof {
        text::lemma_byte_len(s@);
    }
    let x = text::to_chars(s);
    if x.len() == 0 || s.as_bytes().len() > 128 {
        return true;
    }
    let mut i: usize = 0;
    while i < x.len()
        invariant
            x@ == s@,
            i <= x@.len(),
            forall|j: int| 0 <= j < i ==> !text::is_control(#[trigger] s@[j]),
        decreases x@.len() - i,
    {
        if text::char_is_control(x[i]) {
            assert(text::is_control(s@[i as int]));
            return true;
        }
        i = i + 1;
    }
    false
}

/// A type with the character set that text has here, where it names none.
pub open spec fn with_charset(mime: Seq<char>) -> Seq<char> {
    if "text/"@.is_prefix_of(mime) && !text::has_substring(mime, "charset"@) {
        mime + "; charset=utf-8"@
    } else {
        mime
    }
}

/// The `Content-Type` of a file of a type.
pub fn content_type_of(mime: &str) -> (r: String)
    ensures
        r@ == with_charset(mime@),
{
    if text::starts_with(mime, "text/") && !text::contains_str(mime, "charset") {
        service::joined(mime, "; charset=utf-8")
    } else {
        String::from_str(mime)
    }
}

/// The `Content-Type` of a file, by its name.
pub open spec fn content_type(filename: Seq<char>) -> Seq<char> {
    with_charset(outside::guessed_mime(filename))
}

/// The `Content-Type` of a file, by its name.
pub fn guess_content_type(filename: &str) -> (r: String)
    ensures
        r@ == content_type(filename@),
{
    let mime = outside::guess_mime(filename);
    content_type_of(mime.as_str())
}

/// The extensions of what browsers may show in place. Content that browsers would run is not among
/// them.
pub open spec fn preview_extensions() -> Seq<Seq<char>> {
    seq![
        "jpg"@,
        "jpeg"@,
        "png"@,
        "gif"@,
        "webp"@,
        "bmp"@,
        "ico"@,
        "tiff"@,
        "mp4"@,
        "webm"@,
        "ogg"@,
        "mp3"@,
        "wav"@,
        "flac"@,
        "pdf"@,
        "txt"@,
        "json"@,
        "csv"@,
        "md"@,
        "log"@,
    ]
}

/// What stands behind the last dot of a name; the whole name where it has none.
pub open spec fn extension(filename: Seq<char>) -> Seq<char> {
    text::split_on(filename, '.').last()
}

/// The `Content-Disposition` of a file, whose extension in lower case is `ext`.
pub open spec fn disposition_with(filename: Seq<char>, ext: Seq<char>, force_download: bool) -> Seq<char> {
    (if !force_download && preview_extensions().contains(ext) {
        "inline; filename*=UTF-8''"@
    } else {
        "attachment; filename*=UTF-8''"@
    }) + outside::percent_encoded(encode_utf8(filename))
}

/// The `Content-Disposition` of a file.
pub open spec fn disposition(filename: Seq<char>, force_download: bool) -> Seq<char> {
    disposition_with(filename, outside::lower_text(extension(filename)), force_download)
}

fn extension_of<'a>(filename: &'a str) -> (r: &'a str)
    ensures
        r@ == extension(filename@),
{
    let x = text::to_chars(filename);
    let n: usize = x.len();
    let mut start: usize = n;
    while start > 0 && x[start - 1] != '.'
        invariant
            n == x@.len(),
            start <= n,
            forall|j: int| start <= j < n ==> x@[j] != '.',
        decreases start,
    {
        start = start - 1;
    }
    let r = filename.substring_char(start, n);
    proof {
        let p = r@;
        assert(p =~= x@.skip(start as int));
        assert forall|j: int| 0 <= j < p.len() implies p[j] != '.' by {
            assert(p[j] == x@[start + j]);
        }
        assert(!p.contains('.'));
        text::lemma_position_found(p, '.');
        assert(text::split_on(p, '.') =~= seq![p]);
        if start > 0 {
            let head = x@.take(start - 1);
            assert(x@ =~= head + seq!['.'] + p);
            text::lemma_split_on_join(head, '.', p);
        } else {
            assert(x@ =~= p);
        }
    }
    r
}

fn is_previewable(ext: &str) -> (r: bool)
    ensures
        r == preview_extensions().contains(ext@),
{
    let list: [&str; 20] = [
        "jpg",
        "jpeg",
        "png",
        "gif",
        "webp",
        "bmp",
        "ico",
        "tiff",
        "mp4",
        "webm",
        "ogg",
        "mp3",
        "wav",
        "flac",
        "pdf",
        "txt",
        "json",
        "csv",
        "md",
        "log",
    ];
    let ghost want = preview_extensions();
    assert(text::strs_view(list@) =~= want);
    let mut i: usize = 0;
    while i < 20
        invariant
            want == preview_extensions(),
            text::strs_view(list@) == want,
            want.len() == 20,
            i <= 20,
            forall|j: int| 0 <= j < i ==> want[j] != ext@,
        decreases 20 - i,
    {
        assert(want[i as int] == list@[i as int]@);
        if text::str_eq(list[i], ext) {
            assert(want.contains(want[i as int]));
            return true;
        }
        i = i + 1;
    }
    false
}

/// The `Content-Disposition` of a file whose extension in lower case is `ext`.
pub fn content_disposition_of(filename: &str, ext: &str, force_download: bool) -> (r: String)
    ensures
        r@ == disposition_with(filename@, ext@, force_download),
{
    let encoded_name = outside::percent_encode(filename);
    if !force_download && is_previewable(ext) {
        service::joined("inline; filename*=UTF-8''", encoded_name.as_str())
    } else {
        service::joined("attachment; filename*=UTF-8''", encoded_name.as_str())
    }
}

/// The `Content-Disposition` of a file: `inline` for what may be shown in place, else `attachment`.
pub fn content_disposition(filename: &str, force_download: bool) -> (r: String)
    ensures
        r@ == disposition(filename@, force_download),
{
    let ext = outside::to_lowercase(extension_of(filename));
    content_disposition_of(filename, ext.as_str(), force_download)
}

// ---------------------------------------------------------------------------------------------
// Serving a file
// ---------------------------------------------------------------------------------------------

/// What is served.
#[derive(Debug, PartialEq)]
pub struct ServeRequest {
    pub file_id: String,
    pub filename: String,
    pub range: Option<String>,
    pub force_download: bool,
    pub is_head: bool,
}

pub struct ServeView {
    pub file_id: Seq<char>,
    pub filename: Seq<char>,
    pub range: Option<Seq<char>>,
    pub force_download: bool,
    pub is_head: bool,
}

impl View for ServeRequest {
    type V = ServeView;

    open spec fn view(&self) -> ServeView {
        ServeView {
            file_id: self.file_id@,
            filename: self.filename@,
            range: text::opt_view(self.range),
            force_download: self.force_download,
            is_head: self.is_head,
        }
    }
}

/// The file of an identifier `message:file`; an identifier without a colon is the file itself.
pub open spec fn real_file(file_id: Seq<char>) -> Seq<char> {
    match text::split_once(file_id, ':') {
        Some((_, f)) => f,
        None => file_id,
    }
}

/// The file of an identifier `message:file`.
pub fn real_file_id(file_id: &str) -> (r: String)
    ensures
        r@ == real_file(file_id@),
{
    match text::str_split_once(file_id, ':') {
        Some((_, f)) => String::from_str(f),
        None => String::from_str(file_id),
    }
}

/// What happened while a file was served.
#[derive(Debug, PartialEq)]
pub enum ServeEvent {
    /// Nothing yet.
    Begun,
    /// The address of the file, or that there is none, or that it could not be had.
    Located(Result<Option<String>, String>),
    /// The beginning of the file could not be fetched.
    PeekRefused,
    /// The beginning of the file could not be read.
    PeekBroken,
    /// The beginning of the file.
    Peeked(Vec<u8>),
    /// The manifest could not be fetched.
    ManifestRefused,
    /// The manifest could not be read.
    ManifestBroken,
    /// The whole manifest.
    ManifestRead(Vec<u8>),
    /// The range could not be fetched.
    RangeRefused,
    /// The range comes, with this status and these headers.
    RangeOpened { status: u16, content_range: Option<String>, content_length: Option<String> },
    /// The file could not be fetched.
    FileRefused,
    /// The file comes, with this header.
    FileOpened { content_length: Option<String> },
}

/// What is done next to serve a file.
#[derive(Debug, PartialEq)]
pub enum ServeStep {
    /// Ask for the address of this file.
    Locate(String),
    /// Fetch this range from the address.
    Peek { url: String, range: String },
    /// Fetch everything from the address, as a manifest.
    FetchManifest,
    /// Fetch this range from the address, and pass it on.
    FetchRange(String),
    /// Fetch everything from the address, and pass it on.
    FetchFile,
    /// Answer.
    Answer(Reply),
}

pub enum ServeStepView {
    Locate(Seq<char>),
    Peek { url: Seq<char>, range: Seq<char> },
    FetchManifest,
    FetchRange(Seq<char>),
    FetchFile,
    Answer(ReplyView),
}

impl View for ServeStep {
    type V = ServeStepView;

    open spec fn view(&self) -> ServeStepView {
        match *self {
            ServeStep::Locate(f) => ServeStepView::Locate(f@),
            ServeStep::Peek { url, range } => ServeStepView::Peek { url: url@, range: range@ },
            ServeStep::FetchManifest => ServeStepView::FetchManifest,
            ServeStep::FetchRange(r) => ServeStepView::FetchRange(r@),
            ServeStep::FetchFile => ServeStepView::FetchFile,
            ServeStep::Answer(r) => ServeStepView::Answer(r@),
        }
    }
}

/// The headers of a file that is served.
pub open spec fn file_headers(filename: Seq<char>, force_download: bool) -> Seq<(Seq<char>, Seq<char>)> {
    reply::empty_headers().push(("Content-Type"@, content_type(filename))).push(
        ("Content-Disposition"@, disposition(filename, force_download)),
    ).push(("Accept-Ranges"@, "bytes"@)).push(("X-Content-Type-Options"@, "nosniff"@))
}

/// Headers with one more, where it has a value.
pub open spec fn with_header(
    headers: Seq<(Seq<char>, Seq<char>)>,
    name: Seq<char>,
    value: Option<Seq<char>>,
) -> Seq<(Seq<char>, Seq<char>)> {
    match value {
        Some(v) => headers.push((name, v)),
        None => headers,
    }
}

/// The answer that a manifest makes.
pub open spec fn manifest_answer(req: ServeView, lines: Seq<Seq<char>>) -> ReplyView {
    if lines.len() < 3 {
        reply::error_reply(500, "清单文件格式错误"@, "manifest_error"@)
    } else {
        ReplyView {
            status: 200,
            headers: file_headers(lines[1], req.force_download),
            body: if req.is_head {
                BodyView::Empty
            } else {
                BodyView::Chunks(lines.skip(2))
            },
        }
    }
}

/// What is done next to serve a file.
pub open spec fn serve_step(req: ServeView, event: ServeEvent) -> ServeStepView {
    match event {
        ServeEvent::Begun => ServeStepView::Locate(real_file(req.file_id)),
        ServeEvent::Located(Ok(Some(url))) => ServeStepView::Peek { url: url@, range: "bytes=0-127"@ },
        ServeEvent::Located(Ok(None)) => ServeStepView::Answer(
            reply::error_reply(404, "文件未找到或链接已过期"@, "not_found"@),
        ),
        ServeEvent::Located(Err(_)) => ServeStepView::Answer(
            reply::error_reply(503, "无法连接到 Telegram"@, "tg_error"@),
        ),
        ServeEvent::PeekRefused => ServeStepView::Answer(
            reply::error_reply(502, "无法下载文件"@, "download_error"@),
        ),
        ServeEvent::PeekBroken => ServeStepView::Answer(
            reply::error_reply(502, "读取文件失败"@, "read_error"@),
        ),
        ServeEvent::Peeked(bytes) => if manifest::has_magic(bytes@) {
            ServeStepView::FetchManifest
        } else {
            match req.range {
                Some(range) => ServeStepView::FetchRange(range),
                None => ServeStepView::FetchFile,
            }
        },
        ServeEvent::ManifestRefused => ServeStepView::Answer(
            reply::error_reply(502, "下载文件失败"@, "download_error"@),
        ),
        ServeEvent::ManifestBroken => ServeStepView::Answer(
            reply::error_reply(502, "读取文件失败"@, "read_error"@),
        ),
        ServeEvent::ManifestRead(bytes) => ServeStepView::Answer(
            manifest_answer(req, manifest::manifest_lines(bytes@)),
        ),
        ServeEvent::RangeRefused => ServeStepView::Answer(
            reply::error_reply(502, "无法下载文件"@, "download_error"@),
        ),
        ServeEvent::RangeOpened { status, content_range, content_length } => ServeStepView::Answer(
            ReplyView {
                status,
                headers: with_header(
                    with_header(
                        file_headers(req.filename, req.force_download),
                        "Content-Range"@,
                        text::opt_view(content_range),
                    ),
                    "Content-Length"@,
                    text::opt_view(content_length),
                ),
                body: BodyView::Upstream,
            },
        ),
        ServeEvent::FileRefused => ServeStepView::Answer(
            reply::error_reply(502, "无法下载文件"@, "download_error"@),
        ),
        ServeEvent::FileOpened { content_length } => ServeStepView::Answer(
            ReplyView {
                status: 200,
                headers: with_header(
                    file_headers(req.filename, req.force_download),
                    "Content-Length"@,
                    text::opt_view(content_length),
                ),
                body: if req.is_head {
                    BodyView::Empty
                } else {
                    BodyView::Upstream
                },
            },
        ),
    }
}

fn headers_of(filename: &str, force_download: bool) -> (r: Vec<(String, String)>)
    ensures
        reply::headers_view(r@) == file_headers(filename@, force_download),
{
    let ct = guess_content_type(filename);
    let cd = content_disposition(filename, force_download);
    let mut headers = reply::no_headers();
    reply::put_header(&mut headers, "Content-Type", ct.as_str());
    reply::put_header(&mut headers, "Content-Disposition", cd.as_str());
    reply::put_header(&mut headers, "Accept-Ranges", "bytes");
    reply::put_header(&mut headers, "X-Content-Type-Options", "nosniff");
    headers
}

fn put_opt_header(headers: &mut Vec<(String, String)>, name: &str, value: &Option<String>)
    ensures
        reply::headers_view(final(headers)@) == with_header(
            reply::headers_view(old(headers)@),
            name@,
            text::opt_view(*value),
        ),
{
    match value {
        Some(v) => {
            reply::put_header(headers, name, v.as_str());
        },
        None => {},
    }
}

fn serve_manifest(req: &ServeRequest, bytes: &[u8]) -> (r: Reply)
    ensures
        r@ == manifest_answer(req@, manifest::manifest_lines(bytes@)),
{
    let lines = manifest::read_lines(bytes);
    assert(text::strings_view(lines@).len() == lines@.len());
    if lines.len() < 3 {
        return reply::reply_error(500, "清单文件格式错误", "manifest_error");
    }
    let headers = headers_of(lines[1].as_str(), req.force_download);
    if req.is_head {
        return Reply { status: 200, headers, body: Body::Empty };
    }
    let chunk_ids = manifest::lines_from(&lines, 2);
    Reply { status: 200, headers, body: Body::Chunks(chunk_ids) }
}

/// What is done next to serve a file: it is located, its beginning tells whether it is a manifest, and
/// then the chunks of the manifest, or the range that was asked for, or the file are passed on.
pub fn serve_file(req: &ServeRequest, event: &ServeEvent) -> (r: ServeStep)
    ensures
        r@ == serve_step(req@, *event),
{
    match event {
        ServeEvent::Begun => ServeStep::Locate(real_file_id(req.file_id.as_str())),
        ServeEvent::Located(located) => match located {
            Ok(Some(url)) => ServeStep::Peek {
                url: url.clone(),
                range: String::from_str("bytes=0-127"),
            },
            Ok(None) => ServeStep::Answer(
                reply::reply_error(404, "文件未找到或链接已过期", "not_found"),
            ),
            Err(_) => ServeStep::Answer(reply::reply_error(503, "无法连接到 Telegram", "tg_error")),
        },
        ServeEvent::PeekRefused => ServeStep::Answer(
            reply::reply_error(502, "无法下载文件", "download_error"),
        ),
        ServeEvent::PeekBroken => ServeStep::Answer(reply::reply_error(502, "读取文件失败", "read_error")),
        ServeEvent::Peeked(bytes) => {
            if manifest::is_manifest(bytes.as_slice()) {
                ServeStep::FetchManifest
            } else {
                match &req.range {
                    Some(range) => ServeStep::FetchRange(range.clone()),
                    None => ServeStep::FetchFile,
                }
            }
        },
        ServeEvent::ManifestRefused => ServeStep::Answer(
            reply::reply_error(502, "下载文件失败", "download_error"),
        ),
        ServeEvent::ManifestBroken => ServeStep::Answer(
            reply::reply_error(502, "读取文件失败", "read_error"),
        ),
        ServeEvent::ManifestRead(bytes) => ServeStep::Answer(serve_manifest(req, bytes.as_slice())),
        ServeEvent::RangeRefused => ServeStep::Answer(
            reply::reply_error(502, "无法下载文件", "download_error"),
        ),
        ServeEvent::RangeOpened { status, content_range, content_length } => {
            let mut headers = headers_of(req.filename.as_str(), req.force_download);
            put_opt_header(&mut headers, "Content-Range", content_range);
            put_opt_header(&mut headers, "Content-Length", content_length);
            ServeStep::Answer(Reply { status: *status, headers, body: Body::Upstream })
        },
        ServeEvent::FileRefused => ServeStep::Answer(
            reply::reply_error(502, "无法下载文件", "download_error"),
        ),
        ServeEvent::FileOpened { content_length } => {
            let mut headers = headers_of(req.filename.as_str(), req.force_download);
            put_opt_header(&mut headers, "Content-Length", content_length);
            let body = if req.is_head {
                Body::Empty
            } else {
                Body::Upstream
            };
            ServeStep::Answer(Reply { status: 200, headers, body })
        },
    }
}

/// What is done next for a chunk of a file that is served.
#[derive(Debug, PartialEq)]
pub enum ChunkStep {
    /// Pass its bytes on.
    PassOn,
    /// Wait this many seconds and try again, from its address on.
    RetryAfter(u64),
    /// Break off the answer with this error.
    BreakOff(String),
}

/// What follows a try to open a chunk: it is tried twice, with a second between.
pub open spec fn follows_try(attempt: u32, opened: bool, step: ChunkStep) -> bool {
    if opened {
        step is PassOn
    } else if attempt == 0 {
        step == ChunkStep::RetryAfter(1)
    } else {
        step matches ChunkStep::BreakOff(e) && e@ == "chunk download failed"@
    }
}

/// A try to open a chunk has ended: it is tried twice, with a second between.
pub fn chunk_tried(attempt: u32, opened: bool) -> (r: ChunkStep)
    ensures
        follows_try(attempt, opened, r),
{
    if opened {
        ChunkStep::PassOn
    } else if attempt == 0 {
        ChunkStep::RetryAfter(1)
    } else {
        ChunkStep::BreakOff(String::from_str("chunk download failed"))
    }
}

/// The error with which an answer is broken off in the middle of a chunk.
pub open spec fn stream_error(error: Seq<char>) -> Seq<char> {
    "chunk stream error: "@ + error
}

/// The error with which an answer is broken off in the middle of a chunk.
pub fn chunk_stream_error(error: &str) -> (r: String)
    ensures
        r@ == stream_error(error@),
{
    service::joined("chunk stream error: ", error)
}

/// The answer where a chunk cannot be had.
pub open spec fn chunk_failure() -> ReplyView {
    reply::error_reply(502, "文件下载失败"@, "chunk_download_failed"@)
}

/// The answer where a chunk cannot be had. It does not name the chunk.
pub fn chunk_download_failed_response(_chunk_id: &str) -> (r: Reply)
    ensures
        r@ == chunk_failure(),
        reply::refuses(r@, 502, "chunk_download_failed"@, "文件下载失败"@),
{
    proof {
        reply::law_errors_tell_code_and_message(502, "文件下载失败"@, "chunk_download_failed"@);
    }
    reply::reply_error(502, "文件下载失败", "chunk_download_failed")
}

// ---------------------------------------------------------------------------------------------
// Download routes
// ---------------------------------------------------------------------------------------------

/// A download is to be saved and not shown.
pub open spec fn forces_download(download: Option<Seq<char>>) -> bool {
    download == Some("1"@) || download == Some("true"@)
}

fn is_forced(query: &DownloadQuery) -> (r: bool)
    ensures
        r == forces_download(text::opt_view(query.download)),
{
    match &query.download {
        Some(v) => text::str_eq(v.as_str(), "1") || text::str_eq(v.as_str(), "true"),
        None => false,
    }
}

/// How a download begins: the identifier must be one, and a bot must be configured.
pub open spec fn download_begins(
    identifier: Seq<char>,
    settings: AppSettingsView,
    r: Result<TelegramService, Reply>,
) -> bool {
    if bad_identifier(identifier) {
        r matches Err(e) && e@ == reply::error_reply(400, "无效的文件标识"@, "invalid_id"@)
    } else {
        is_access(settings, "Bot 未配置"@, "bot_not_configured"@, r)
    }
}

/// A download begins: the identifier must be one, and a bot must be configured.
pub fn begin_download(identifier: &str, settings: &AppSettingsMap) -> (r: Result<TelegramService, Reply>)
    ensures
        download_begins(identifier@, settings@, r),
{
    if invalid_identifier(identifier) {
        return Err(reply::reply_error(400, "无效的文件标识", "invalid_id"));
    }
    get_telegram_service(settings)
}

/// A file is locked for a request: it has a share password, and no cookie unlocks it.
pub open spec fn is_locked(f: FileView, cookie_header: Option<Seq<char>>) -> bool {
    match f.share_password {
        Some(hash) => !auth::unlocked(cookie_header, pages::display_of(f), hash),
        None => false,
    }
}

/// Tells whether a file is locked for a request.
pub fn locked(f: &FileMetadata, cookie_header: Option<&str>) -> (r: bool)
    ensures
        r == is_locked(f@, text::opt_str_view(cookie_header)),
{
    match &f.share_password {
        Some(hash) => !auth::share_unlocked(cookie_header, pages::display_id(f), hash.as_str()),
        None => false,
    }
}

/// What a download by a short link comes to.
pub open spec fn short_download(
    file: Option<FileView>,
    cookie_header: Option<Seq<char>>,
    download: Option<Seq<char>>,
    range: Option<Seq<char>>,
    is_head: bool,
) -> Result<ServeView, ReplyView> {
    match file {
        Some(f) => if is_locked(f, cookie_header) {
            Err(reply::error_reply(401, "需要分享密码"@, "share_locked"@))
        } else {
            Ok(
                ServeView {
                    file_id: f.file_id,
                    filename: f.filename,
                    range,
                    force_download: forces_download(download),
                    is_head,
                },
            )
        },
        None => Err(reply::error_reply(404, "文件未找到"@, "not_found"@)),
    }
}

/// What was found of a file; an error counts as nothing found.
pub open spec fn found_view(file: Result<Option<FileMetadata>, String>) -> Option<FileView> {
    match file {
        Ok(Some(f)) => Some(f@),
        _ => None,
    }
}

/// What is served, or the answer in its place.
pub open spec fn served_view(r: Result<ServeRequest, Reply>) -> Result<ServeView, ReplyView> {
    match r {
        Ok(s) => Ok(s@),
        Err(e) => Err(e@),
    }
}

/// A download by a short link.
pub fn download_file_short(
    file: Result<Option<FileMetadata>, String>,
    cookie_header: Option<&str>,
    query: &DownloadQuery,
    range: Option<String>,
    is_head: bool,
) -> (r: Result<ServeRequest, Reply>)
    ensures
        served_view(r) == short_download(
            found_view(file),
            text::opt_str_view(cookie_header),
            text::opt_view(query.download),
            text::opt_view(range),
            is_head,
        ),
{
    match file {
        Ok(Some(f)) => {
            if locked(&f, cookie_header) {
                return Err(reply::reply_error(401, "需要分享密码", "share_locked"));
            }
            Ok(
                ServeRequest {
                    file_id: f.file_id,
                    filename: f.filename,
                    range,
                    force_download: is_forced(query),
                    is_head,
                },
            )
        },
        _ => Err(reply::reply_error(404, "文件未找到", "not_found")),
    }
}

/// What is known of the file that a link names; `None` where it could not be looked up.
pub open spec fn lookup_view(file: Result<Option<FileMetadata>, String>) -> Option<Option<FileView>> {
    match file {
        Ok(Some(f)) => Some(Some(f@)),
        Ok(None) => Some(None),
        Err(_) => None,
    }
}

/// What a download comes to by a link that names a file and the name to give it. A stored file may be
/// named by its short identifier or by its own, and takes its share password; any other identifier is
/// that of a file of the channel.
pub open spec fn named_download(
    file: Option<Option<FileView>>,
    cookie_header: Option<Seq<char>>,
    file_id: Seq<char>,
    filename: Seq<char>,
    download: Option<Seq<char>>,
    range: Option<Seq<char>>,
    is_head: bool,
) -> Result<ServeView, ReplyView> {
    let served = ServeView {
        file_id,
        filename,
        range,
        force_download: forces_download(download),
        is_head,
    };
    match file {
        Some(Some(f)) => if is_locked(f, cookie_header) {
            Err(reply::error_reply(401, "需要分享密码"@, "share_locked"@))
        } else {
            Ok(ServeView { file_id: f.file_id, ..served })
        },
        Some(None) => Ok(served),
        None => Err(reply::error_reply(404, "文件未找到"@, "not_found"@)),
    }
}

/// A download by a link that names a file and the name to give it.
pub fn download_file_legacy(
    file: Result<Option<FileMetadata>, String>,
    cookie_header: Option<&str>,
    file_id: String,
    filename: String,
    query: &DownloadQuery,
    range: Option<String>,
    is_head: bool,
) -> (r: Result<ServeRequest, Reply>)
    ensures
        served_view(r) == named_download(
            lookup_view(file),
            text::opt_str_view(cookie_header),
            file_id@,
            filename@,
            text::opt_view(query.download),
            text::opt_view(range),
            is_head,
        ),
{
    let force_download = is_forced(query);
    match file {
        Ok(Some(f)) => {
            if locked(&f, cookie_header) {
                return Err(reply::reply_error(401, "需要分享密码", "share_locked"));
            }
            Ok(ServeRequest { file_id: f.file_id, filename, range, force_download, is_head })
        },
        Ok(None) => Ok(ServeRequest { file_id, filename, range, force_download, is_head }),
        Err(_) => Err(reply::reply_error(404, "文件未找到", "not_found")),
    }
}

// ---------------------------------------------------------------------------------------------
// The list of files
// ---------------------------------------------------------------------------------------------

/// A file in the list.
pub open spec fn listed(f: FileView) -> JsonView {
    JsonView::Obj(
        json::empty_fields().push(("filename"@, JsonView::Str(f.filename))).push(
            ("file_id"@, JsonView::Str(f.file_id)),
        ).push(("filesize"@, json::int_view(f.filesize))).push(
            ("upload_date"@, JsonView::Str(f.upload_date)),
        ).push(("short_id"@, json::opt_text_view(f.short_id))).push(
            ("has_password"@, JsonView::Bool(f.share_password is Some)),
        ),
    )
}

fn list_entry(f: &FileMetadata) -> (r: Json)
    ensures
        r@ == listed(f@),
{
    let mut fields = json::no_fields();
    json::put(&mut fields, "filename", json::text_value(f.filename.as_str()));
    json::put(&mut fields, "file_id", json::text_value(f.file_id.as_str()));
    json::put(&mut fields, "filesize", json::int_value(f.filesize));
    json::put(&mut fields, "upload_date", json::text_value(f.upload_date.as_str()));
    json::put(&mut fields, "short_id", json::opt_text_value(config::borrow_text(&f.short_id)));
    json::put(&mut fields, "has_password", Json::Bool(f.share_password.is_some()));
    Json::Obj(fields)
}

/// The files that were found; none where they could not be read.
pub open spec fn files_or_none(files: Result<Vec<FileMetadata>, String>) -> Seq<FileView> {
    match files {
        Ok(v) => database::files_view(v@),
        Err(_) => Seq::empty(),
    }
}

/// The list of files.
pub open spec fn files_answer(files: Seq<FileView>) -> ReplyView {
    reply::json_reply(200, JsonView::Arr(files.map_values(|f: FileView| listed(f))))
}

/// The list of files. Of a share password it says no more than whether there is one.
pub fn get_files_list(files: Result<Vec<FileMetadata>, String>) -> (r: Reply)
    ensures
        r@ == files_answer(files_or_none(files)),
{
    let ghost all = files_or_none(files);
    let mut items: Vec<Json> = Vec::new();
    let list = match files {
        Ok(v) => v,
        Err(_) => {
            let none: Vec<FileMetadata> = Vec::new();
            assert(database::files_view(none@) =~= Seq::<FileView>::empty());
            none
        },
    };
    let mut i: usize = 0;
    assert(json::items_view(items@) =~= all.take(0).map_values(|f: FileView| listed(f)));
    while i < list.len()
        invariant
            all == database::files_view(list@),
            i <= list@.len(),
            json::items_view(items@) == all.take(i as int).map_values(|f: FileView| listed(f)),
        decreases list@.len() - i,
    {
        let ghost before = json::items_view(items@);
        json::push_item(&mut items, list_entry(&list[i]));
        proof {
            assert(all[i as int] == list@[i as int]@);
            assert(json::items_view(items@) =~= all.take(i + 1).map_values(|f: FileView| listed(f)));
        }
        i = i + 1;
    }
    assert(all.take(all.len() as int) =~= all);
    reply::reply_json(200, Json::Arr(items))
}

// ---------------------------------------------------------------------------------------------
// Deleting files
// ---------------------------------------------------------------------------------------------

/// A deletion result as a value.
pub open spec fn deletion_value(d: DeleteResultView) -> JsonView {
    JsonView::Obj(
        json::empty_fields().push(("status"@, JsonView::Str(d.status))).push(
            ("main_file_id"@, JsonView::Str(d.main_file_id)),
        ).push(("deleted_chunks"@, json::texts_view(d.deleted_chunks))).push(
            ("failed_chunks"@, json::texts_view(d.failed_chunks)),
        ).push(("main_message_deleted"@, JsonView::Bool(d.main_message_deleted))).push(
            ("main_delete_reason"@, JsonView::Str(d.main_delete_reason)),
        ).push(("is_manifest"@, JsonView::Bool(d.is_manifest))).push(
            ("reason"@, JsonView::Str(d.reason)),
        ),
    )
}

fn deletion_json(d: &DeleteResult) -> (r: Json)
    ensures
        r@ == deletion_value(d@),
{
    let mut fields = json::no_fields();
    json::put(&mut fields, "status", json::text_value(d.status.as_str()));
    json::put(&mut fields, "main_file_id", json::text_value(d.main_file_id.as_str()));
    json::put(&mut fields, "deleted_chunks", json::texts_value(&d.deleted_chunks));
    json::put(&mut fields, "failed_chunks", json::texts_value(&d.failed_chunks));
    json::put(&mut fields, "main_message_deleted", Json::Bool(d.main_message_deleted));
    json::put(&mut fields, "main_delete_reason", json::text_value(d.main_delete_reason.as_str()));
    json::put(&mut fields, "is_manifest", Json::Bool(d.is_manifest));
    json::put(&mut fields, "reason", json::text_value(d.reason.as_str()));
    Json::Obj(fields)
}

/// The answer to a deletion that went well.
pub open spec fn deletion_ok(message: Seq<char>, details: JsonView) -> ReplyView {
    reply::json_reply(
        200,
        JsonView::Obj(
            json::empty_fields().push(("status"@, JsonView::Str("ok"@))).push(
                ("message"@, JsonView::Str(message)),
            ).push(("details"@, details)),
        ),
    )
}

/// The answer to a deletion that did not go well.
pub open spec fn deletion_error(
    status: u16,
    code: Seq<char>,
    message: Seq<char>,
    details: JsonView,
) -> ReplyView {
    reply::json_reply(
        status,
        JsonView::Obj(
            json::empty_fields().push(("status"@, JsonView::Str("error"@))).push(
                ("code"@, JsonView::Str(code)),
            ).push(("message"@, JsonView::Str(message))).push(("details"@, details)),
        ),
    )
}

/// What a deletion says of the record and of the messages.
pub open spec fn deletion_details(record: bool, tg: JsonView) -> JsonView {
    JsonView::Obj(
        json::empty_fields().push(
            ("db"@, JsonView::Str(if record {
                "deleted"@
            } else {
                "not_found_in_db"@
            })),
        ).push(("tg"@, tg)),
    )
}

/// A record is gone; an error counts as one that is not.
pub open spec fn record_gone(record: Result<bool, String>) -> bool {
    record matches Ok(b) && b
}

/// The answer to the deletion of a file.
pub open spec fn deletion_answer(file_id: Seq<char>, d: DeleteResultView, record: bool) -> ReplyView {
    if d.main_message_deleted {
        if d.failed_chunks.len() == 0 {
            deletion_ok(
                "文件 "@ + file_id + " 已删除。"@,
                deletion_details(record, deletion_value(d)),
            )
        } else {
            deletion_error(500, "partial_failure"@, "部分分块删除失败"@, deletion_value(d))
        }
    } else if record {
        deletion_ok(
            "文件 "@ + file_id + " 已从数据库删除（Telegram 删除失败）。"@,
            deletion_value(d),
        )
    } else {
        deletion_error(400, "delete_failed"@, "删除失败"@, deletion_value(d))
    }
}

fn deletion_ok_reply(message: &str, details: Json) -> (r: Reply)
    ensures
        r@ == deletion_ok(message@, details@),
{
    let mut fields = json::no_fields();
    json::put(&mut fields, "status", json::text_value("ok"));
    json::put(&mut fields, "message", json::text_value(message));
    json::put(&mut fields, "details", details);
    reply::reply_json(200, Json::Obj(fields))
}

fn deletion_error_reply(status: u16, code: &str, message: &str, details: Json) -> (r: Reply)
    ensures
        r@ == deletion_error(status, code@, message@, details@),
{
    let mut fields = json::no_fields();
    json::put(&mut fields, "status", json::text_value("error"));
    json::put(&mut fields, "code", json::text_value(code));
    json::put(&mut fields, "message", json::text_value(message));
    json::put(&mut fields, "details", details);
    reply::reply_json(status, Json::Obj(fields))
}

/// The answer to the deletion of a file, by what became of its messages and of its record.
pub fn delete_file(file_id: &str, result: &DeleteResult, record: Result<bool, String>) -> (r: Reply)
    ensures
        r@ == deletion_answer(file_id@, result@, record_gone(record)),
{
    let gone = match record {
        Ok(b) => b,
        Err(_) => false,
    };
    let details = deletion_json(result);
    let mut message = String::from_str("文件 ");
    message.append(file_id);
    if result.main_message_deleted {
        assert(result@.failed_chunks.len() == result.failed_chunks@.len());
        if result.failed_chunks.len() == 0 {
            message.append(" 已删除。");
            let mut fields = json::no_fields();
            if gone {
                json::put(&mut fields, "db", json::text_value("deleted"));
            } else {
                json::put(&mut fields, "db", json::text_value("not_found_in_db"));
            }
            json::put(&mut fields, "tg", details);
            deletion_ok_reply(message.as_str(), Json::Obj(fields))
        } else {
            deletion_error_reply(500, "partial_failure", "部分分块删除失败", details)
        }
    } else if gone {
        message.append(" 已从数据库删除（Telegram 删除失败）。");
        deletion_ok_reply(message.as_str(), details)
    } else {
        deletion_error_reply(400, "delete_failed", "删除失败", details)
    }
}

/// How the deletion of so many files begins: there may not be more than the limit, and a bot must be
/// configured.
pub open spec fn batch_begins(
    count: nat,
    settings: AppSettingsView,
    r: Result<TelegramService, Reply>,
) -> bool {
    if count > constants::BATCH_DELETE_MAX {
        r matches Err(e) && e@ == reply::error_reply(400, "批量删除数量超过上限"@, "too_many_items"@)
    } else {
        is_access(settings, "Bot 未配置"@, "bot_not_configured"@, r)
    }
}

/// The deletion of many files begins: there may not be more than the limit, and a bot must be
/// configured.
pub fn begin_batch_delete(request: &BatchDeleteRequest, settings: &AppSettingsMap) -> (r: Result<
    TelegramService,
    Reply,
>)
    ensures
        batch_begins(request.file_ids@.len(), settings@, r),
{
    if request.file_ids.len() > constants::BATCH_DELETE_MAX {
        return Err(reply::reply_error(400, "批量删除数量超过上限", "too_many_items"));
    }
    get_telegram_service(settings)
}

/// What became of a file of a batch: whether its message is gone, and its record.
#[derive(Debug, PartialEq)]
pub struct BatchOutcome {
    pub file_id: String,
    pub message_deleted: bool,
    pub record: Result<bool, String>,
}

/// A file of a batch counts as deleted where its message is gone or its record is.
pub open spec fn counts_as_deleted(o: BatchOutcome) -> bool {
    o.message_deleted || record_gone(o.record)
}

/// The files of a batch that count as deleted, or those that do not.
pub open spec fn batch_part(outcomes: Seq<BatchOutcome>, deleted: bool) -> Seq<Seq<char>>
    decreases outcomes.len(),
{
    if outcomes.len() == 0 {
        Seq::empty()
    } else if counts_as_deleted(outcomes.last()) == deleted {
        batch_part(outcomes.drop_last(), deleted).push(outcomes.last().file_id@)
    } else {
        batch_part(outcomes.drop_last(), deleted)
    }
}

/// The answer to the deletion of many files.
pub open spec fn batch_answer(outcomes: Seq<BatchOutcome>) -> ReplyView {
    reply::json_reply(
        200,
        JsonView::Obj(
            json::empty_fields().push(("status"@, JsonView::Str("completed"@))).push(
                ("deleted"@, json::texts_view(batch_part(outcomes, true))),
            ).push(("failed"@, json::texts_view(batch_part(outcomes, false)))),
        ),
    )
}

/// The answer to the deletion of many files.
pub fn batch_delete_files(outcomes: &Vec<BatchOutcome>) -> (r: Reply)
    ensures
        r@ == batch_answer(outcomes@),
{
    let mut deleted: Vec<String> = Vec::new();
    let mut failed: Vec<String> = Vec::new();
    let mut i: usize = 0;
    proof {
        assert(outcomes@.take(0) =~= Seq::<BatchOutcome>::empty());
        assert(text::strings_view(deleted@) =~= batch_part(outcomes@.take(0), true));
        assert(text::strings_view(failed@) =~= batch_part(outcomes@.take(0), false));
    }
    while i < outcomes.len()
        invariant
            i <= outcomes@.len(),
            text::strings_view(deleted@) == batch_part(outcomes@.take(i as int), true),
            text::strings_view(failed@) == batch_part(outcomes@.take(i as int), false),
        decreases outcomes@.len() - i,
    {
        let ghost d = text::strings_view(deleted@);
        let ghost f = text::strings_view(failed@);
        proof {
            let t = outcomes@.take(i + 1);
            assert(t.drop_last() =~= outcomes@.take(i as int));
            assert(t.last() == outcomes@[i as int]);
        }
        let o = &outcomes[i];
        let gone = match &o.record {
            Ok(b) => *b,
            Err(_) => false,
        };
        if o.message_deleted || gone {
            deleted.push(o.file_id.clone());
            assert(text::strings_view(deleted@) =~= d.push(o.file_id@));
        } else {
            failed.push(o.file_id.clone());
            assert(text::strings_view(failed@) =~= f.push(o.file_id@));
        }
        i = i + 1;
    }
    assert(outcomes@.take(outcomes@.len() as int) =~= outcomes@);
    let mut fields = json::no_fields();
    json::put(&mut fields, "status", json::text_value("completed"));
    json::put(&mut fields, "deleted", json::texts_value(&deleted));
    json::put(&mut fields, "failed", json::texts_value(&failed));
    reply::reply_json(200, Json::Obj(fields))
}

// ---------------------------------------------------------------------------------------------
// Share passwords
// ---------------------------------------------------------------------------------------------

/// What is stored as the share password of a file, from what came of hashing it; an answer where it
/// could not be hashed.
pub fn hashed_or_refusal(hashed: Result<String, String>) -> (r: Result<String, Reply>)
    ensures
        match hashed {
            Ok(h) => r matches Ok(s) && s@ == h@,
            Err(_) => r matches Err(e) && e@ == reply::error_reply(500, "密码哈希失败"@, "hash_error"@),
        },
{
    match hashed {
        Ok(h) => Ok(h),
        Err(_) => Err(reply::reply_error(500, "密码哈希失败", "hash_error")),
    }
}

/// What is stored as the share password of a file, from the password without the white space round it.
pub open spec fn is_share_password(password: Seq<char>, r: Result<Option<String>, Reply>) -> bool {
    match r {
        Ok(None) => password.len() == 0,
        Ok(Some(h)) => password.len() > 0 && auth::can_be_hashed(password) && outside::is_default_phc(h@)
            && auth::phc_accepts(password, h@),
        Err(e) => !auth::can_be_hashed(password) && e@ == reply::error_reply(
            500,
            "密码哈希失败"@,
            "hash_error"@,
        ),
    }
}

/// What is stored as the share password of a file: nothing for a blank password, else a hash that
/// accepts the password without the white space round it. A password that is too long for that is
/// refused.
pub fn set_share_password(request: &SharePasswordRequest) -> (r: Result<Option<String>, Reply>)
    ensures
        is_share_password(text::trimmed(request.password@), r),
{
    let password = text::trim(request.password.as_str());
    if password.unicode_len() == 0 {
        return Ok(None);
    }
    match hashed_or_refusal(auth::hash_password(password)) {
        Ok(h) => Ok(Some(h)),
        Err(e) => Err(e),
    }
}

/// The answer where a share password was set or cleared.
pub open spec fn share_password_answer(has_password: bool) -> ReplyView {
    reply::json_reply(
        200,
        JsonView::Obj(
            json::empty_fields().push(("status"@, JsonView::Str("ok"@))).push(
                ("has_password"@, JsonView::Bool(has_password)),
            ),
        ),
    )
}

/// The answer where a share password was written, or there was no such file, or it could not be
/// written.
pub open spec fn written_answer(has_password: bool, written: Result<bool, String>) -> ReplyView {
    match written {
        Ok(true) => share_password_answer(has_password),
        Ok(false) => reply::error_reply(404, "文件未找到"@, "not_found"@),
        Err(_) => reply::error_reply(500, "操作失败"@, "db_error"@),
    }
}

/// A share password was written, or there was no such file, or it could not be written.
pub fn share_password_written(has_password: bool, written: Result<bool, String>) -> (r: Reply)
    ensures
        r@ == written_answer(has_password, written),
{
    match written {
        Ok(true) => {
            let mut fields = json::no_fields();
            json::put(&mut fields, "status", json::text_value("ok"));
            json::put(&mut fields, "has_password", Json::Bool(has_password));
            reply::reply_json(200, Json::Obj(fields))
        },
        Ok(false) => reply::reply_error(404, "文件未找到", "not_found"),
        Err(_) => reply::reply_error(500, "操作失败", "db_error"),
    }
}

/// The program runs.
pub fn health_check() -> (r: Reply)
    ensures
        r@ == reply::json_reply(200, reply::status_ok()),
{
    reply::reply_json(200, reply::status_ok_value())
}

// ---------------------------------------------------------------------------------------------
// Laws
// ---------------------------------------------------------------------------------------------

/// An extension of content that browsers would run.
pub open spec fn is_active(ext: Seq<char>) -> bool {
    ext == "html"@ || ext == "htm"@ || ext == "svg"@ || ext == "xml"@ || ext == "js"@ || ext == "css"@
}

/// Content that browsers would run is always served to be saved, and so is a download that asks for
/// it.
pub proof fn law_active_content_is_saved(filename: Seq<char>, force_download: bool)
    requires
        is_active(outside::lower_text(extension(filename))) || force_download,
    ensures
        disposition(filename, force_download) == "attachment; filename*=UTF-8''"@
            + outside::percent_encoded(encode_utf8(filename)),
{
    if !force_download {
        let ext = outside::lower_text(extension(filename));
        reveal_strlit("html");
        reveal_strlit("htm");
        reveal_strlit("svg");
        reveal_strlit("xml");
        reveal_strlit("js");
        reveal_strlit("css");
        reveal_strlit("jpg");
        reveal_strlit("jpeg");
        reveal_strlit("png");
        reveal_strlit("gif");
        reveal_strlit("webp");
        reveal_strlit("bmp");
        reveal_strlit("ico");
        reveal_strlit("tiff");
        reveal_strlit("mp4");
        reveal_strlit("webm");
        reveal_strlit("ogg");
        reveal_strlit("mp3");
        reveal_strlit("wav");
        reveal_strlit("flac");
        reveal_strlit("pdf");
        reveal_strlit("txt");
        reveal_strlit("json");
        reveal_strlit("csv");
        reveal_strlit("md");
        reveal_strlit("log");
        let list = preview_extensions();
        assert forall|i: int| 0 <= i < list.len() implies list[i] != ext by {
            assert(list[i].len() != ext.len() || list[i][0] != ext[0] || list[i][1] != ext[1]
                || list[i][2] != ext[2]);
        }
    }
}

/// A letter, a digit or a percent sign.
pub open spec fn is_encoded_char(c: char) -> bool {
    let n = c as u32;
    c == '%' || 0x30 <= n <= 0x39 || 0x41 <= n <= 0x5a || 0x61 <= n <= 0x7a
}

proof fn lemma_encoded_chars(bytes: Seq<u8>)
    ensures
        forall|i: int|
            0 <= i < outside::percent_encoded(bytes).len() ==> is_encoded_char(
                #[trigger] outside::percent_encoded(bytes)[i],
            ),
    decreases bytes.len(),
{
    if bytes.len() > 0 {
        let b = bytes[0];
        let rest = outside::percent_encoded(bytes.drop_first());
        let head = if outside::is_alnum_byte(b) {
            seq![b as char]
        } else {
            seq![
                '%',
                outside::hex_digit_upper(b as int / 16),
                outside::hex_digit_upper(b as int % 16),
            ]
        };
        lemma_encoded_chars(bytes.drop_first());
        let all = outside::percent_encoded(bytes);
        assert(all == head + rest);
        assert forall|i: int| 0 <= i < all.len() implies is_encoded_char(#[trigger] all[i]) by {
            if i < head.len() {
                assert(all[i] == head[i]);
                assert(is_encoded_char(outside::hex_digit_upper(b as int / 16)));
                assert(is_encoded_char(outside::hex_digit_upper(b as int % 16)));
            } else {
                assert(all[i] == rest[i - head.len()]);
            }
        }
    }
}

/// Whatever a file is called, its `Content-Disposition` is printable ASCII: no name can end the header
/// or add to it.
pub proof fn law_disposition_is_plain(filename: Seq<char>, force_download: bool)
    ensures
        forall|i: int|
            0 <= i < disposition(filename, force_download).len() ==> 0x20 <= (
            #[trigger] disposition(filename, force_download)[i]) as u32 && (disposition(
                filename,
                force_download,
            )[i] as u32) < 0x7f,
        forall|i: int|
            "attachment; filename*=UTF-8''"@.len() <= i < disposition(filename, force_download).len()
                ==> is_encoded_char(#[trigger] disposition(filename, force_download)[i]),
{
    reveal_strlit("inline; filename*=UTF-8''");
    reveal_strlit("attachment; filename*=UTF-8''");
    let name = outside::percent_encoded(encode_utf8(filename));
    lemma_encoded_chars(encode_utf8(filename));
    let d = disposition(filename, force_download);
    let n = d.len() - name.len();
    assert(n == 25 || n == 29);
    assert forall|i: int| n <= i < d.len() implies is_encoded_char(#[trigger] d[i]) by {
        assert(d[i] == name[i - n]);
    }
}

/// The body of an answer holds a file, or would if it were not asked for the headers alone.
pub open spec fn holds_file(body: BodyView) -> bool {
    body is Empty || body is Upstream || body is Chunks
}

/// Whatever is served of a file, browsers are told to take its type as it is given, and to show it or
/// save it by its name.
pub proof fn law_served_files_are_not_sniffed(req: ServeView, event: ServeEvent)
    requires
        serve_step(req, event) is Answer,
        holds_file(serve_step(req, event)->Answer_0.body),
    ensures
        ({
            let headers = serve_step(req, event)->Answer_0.headers;
            &&& headers.contains(("X-Content-Type-Options"@, "nosniff"@))
            &&& exists|name: Seq<char>|
                headers.contains(("Content-Type"@, #[trigger] content_type(name))) && headers.contains(
                    ("Content-Disposition"@, disposition(name, req.force_download)),
                )
        }),
{
    let headers = serve_step(req, event)->Answer_0.headers;
    let name = match event {
        ServeEvent::ManifestRead(bytes) => manifest::manifest_lines(bytes@)[1],
        _ => req.filename,
    };
    assert(headers[0] == ("Content-Type"@, content_type(name)));
    assert(headers[1] == ("Content-Disposition"@, disposition(name, req.force_download)));
    assert(headers[3] == ("X-Content-Type-Options"@, "nosniff"@));
}

/// The file of an identifier made of a message and a file is that file.
pub proof fn law_real_file_of_composite(message_id: i64, file_id: Seq<char>)
    ensures
        real_file(api_upload::composite(message_id, file_id)) == file_id,
{
    text::lemma_decimal_round_trip(message_id as int);
    text::lemma_split_once_join(text::decimal_signed(message_id as int), ':', file_id);
}

proof fn lemma_chunks_in_order(
    data: Seq<u8>,
    size: int,
    done: Seq<(usize, Seq<char>)>,
    sorted: Seq<(usize, Seq<char>)>,
    contents: spec_fn(Seq<char>) -> Seq<u8>,
)
    requires
        forall|i: int| 0 <= i < done.len() ==> (#[trigger] done[i]).0 < done.len(),
        forall|i: int, j: int| 0 <= i < j < done.len() ==> (#[trigger] done[i]).0 != (#[trigger] done[j]).0,
        forall|i: int|
            #![trigger done[i]]
            0 <= i < done.len() ==> manifest::is_one_line(done[i].1) && contents(real_file(done[i].1))
                == api_upload::chunk_data(data, size, done[i].0 as int),
        api_upload::is_sorted_of(sorted, done),
    ensures
        api_upload::ids_of(sorted).len() == done.len(),
        forall|k: int|
            0 <= k < done.len() ==> manifest::is_one_line(#[trigger] api_upload::ids_of(sorted)[k]),
        api_upload::ids_of(sorted).map_values(|id: Seq<char>| contents(real_file(id)))
            == api_upload::chunks_of(data, size, done.len()),
{
    let ids = api_upload::ids_of(sorted);
    let parts = ids.map_values(|id: Seq<char>| contents(real_file(id)));
    assert forall|k: int| 0 <= k < done.len() implies manifest::is_one_line(#[trigger] ids[k]) && parts[k]
        == api_upload::chunk_data(data, size, k) by {
        let i = api_upload::law_order_fills_the_places(done, sorted, k);
        assert(ids[k] == done[i].1);
    }
    assert(parts =~= api_upload::chunks_of(data, size, done.len()));
}

/// A download gives back the upload. A file was cut into chunks, the chunks were uploaded in whatever
/// order, and a manifest was written. Then the beginning of the manifest is taken for one, the answer
/// carries the name of the file, and the chunks that it names make up the file when they are fetched
/// one after the other.
pub proof fn law_download_gives_back_the_upload(
    data: Seq<u8>,
    size: int,
    raw_name: Seq<char>,
    done: Seq<(usize, Seq<char>)>,
    sorted: Seq<(usize, Seq<char>)>,
    contents: spec_fn(Seq<char>) -> Seq<u8>,
    req: ServeView,
    peek: Vec<u8>,
    whole: Vec<u8>,
)
    requires
        size > 0,
        (done.len() - 1) * size < data.len() <= done.len() * size,
        done.len() > 0,
        forall|i: int| 0 <= i < done.len() ==> (#[trigger] done[i]).0 < done.len(),
        forall|i: int, j: int| 0 <= i < j < done.len() ==> (#[trigger] done[i]).0 != (#[trigger] done[j]).0,
        forall|i: int|
            #![trigger done[i]]
            0 <= i < done.len() ==> manifest::is_one_line(done[i].1) && contents(real_file(done[i].1))
                == api_upload::chunk_data(data, size, done[i].0 as int),
        api_upload::is_sorted_of(sorted, done),
        whole@ == encode_utf8(
            manifest::manifest_text(api_upload::sanitized(raw_name), api_upload::ids_of(sorted)),
        ),
        peek@ == whole@.take(if whole@.len() <= 128 {
            whole@.len() as int
        } else {
            128
        }),
        !req.is_head,
    ensures
        ({
            let ids = api_upload::ids_of(sorted);
            &&& serve_step(req, ServeEvent::Peeked(peek)) is FetchManifest
            &&& serve_step(req, ServeEvent::ManifestRead(whole)) == ServeStepView::Answer(
                ReplyView {
                    status: 200,
                    headers: file_headers(api_upload::sanitized(raw_name), req.force_download),
                    body: BodyView::Chunks(ids),
                },
            )
            &&& api_upload::concatenated(ids.map_values(|id: Seq<char>| contents(real_file(id)))) == data
        }),
{
    let ids = api_upload::ids_of(sorted);
    let name = api_upload::sanitized(raw_name);
    let n = done.len();
    api_upload::law_sanitized_name(raw_name);
    lemma_chunks_in_order(data, size, done, sorted, contents);
    manifest::law_manifest_round_trip(name, ids);
    api_upload::law_chunks_make_up_the_upload(data, size, n);
    manifest::lemma_beginning_has_magic(whole@, 128);
}

/// A file that does not begin as a manifest does is passed on as it is: the range that was asked for,
/// or all of it.
pub proof fn law_plain_files_are_passed_on(
    req: ServeView,
    data: Seq<u8>,
    peek: Vec<u8>,
    content_length: Option<String>,
)
    requires
        !manifest::has_magic(data),
        peek@ == data.take(if data.len() <= 128 {
            data.len() as int
        } else {
            128
        }),
        !req.is_head,
    ensures
        serve_step(req, ServeEvent::Peeked(peek)) == match req.range {
            Some(range) => ServeStepView::FetchRange(range),
            None => ServeStepView::FetchFile,
        },
        serve_step(req, ServeEvent::FileOpened { content_length })->Answer_0.body is Upstream,
{
    if manifest::has_magic(peek@) {
        let m = manifest::magic_bytes();
        assert(peek@.subrange(0, m.len() as int) =~= data.subrange(0, m.len() as int));
    }
}

/// Of a file with a share password, the list says that it has one, and it says the same whatever the
/// password is.
pub proof fn law_list_hides_share_passwords(f: FileView, hash: Seq<char>, other: Seq<char>)
    ensures
        listed(FileView { share_password: Some(hash), ..f }) == listed(
            FileView { share_password: Some(other), ..f },
        ),
{
}

/// Every file of a batch is in one of the two lists of the answer, and in no other than its own.
pub proof fn law_batch_leaves_none_out(outcomes: Seq<BatchOutcome>)
    ensures
        batch_part(outcomes, true).to_multiset().add(batch_part(outcomes, false).to_multiset())
            == outcomes.map_values(|o: BatchOutcome| o.file_id@).to_multiset(),
        batch_part(outcomes, true).len() + batch_part(outcomes, false).len() == outcomes.len(),
    decreases outcomes.len(),
{
    broadcast use vstd::seq_lib::group_to_multiset_ensures;

    let ids = outcomes.map_values(|o: BatchOutcome| o.file_id@);
    if outcomes.len() > 0 {
        let less = outcomes.drop_last();
        law_batch_leaves_none_out(less);
        assert(ids =~= less.map_values(|o: BatchOutcome| o.file_id@).push(outcomes.last().file_id@));
    }
    assert(batch_part(outcomes, true).to_multiset().add(batch_part(outcomes, false).to_multiset())
        =~= ids.to_multiset());
}

/// A file with a share password is served to no one who did not unlock it, neither by its short link
/// nor by one that names it: a request whose cookies do not hold what unlocks the file is refused, and
/// so is one without cookies.
pub proof fn law_locked_files_are_not_served(
    f: FileView,
    hash: Seq<char>,
    cookie_header: Option<Seq<char>>,
    file_id: Seq<char>,
    filename: Seq<char>,
    download: Option<Seq<char>>,
    range: Option<Seq<char>>,
    is_head: bool,
)
    requires
        f.share_password == Some(hash),
        auth::cookie_in_opt(cookie_header, auth::share_name(pages::display_of(f))) != Some(
            auth::share_credential(hash),
        ),
    ensures
        ({
            let refused = Err::<ServeView, _>(
                reply::error_reply(401, "需要分享密码"@, "share_locked"@),
            );
            &&& short_download(Some(f), cookie_header, download, range, is_head) == refused
            &&& named_download(
                Some(Some(f)),
                cookie_header,
                file_id,
                filename,
                download,
                range,
                is_head,
            ) == refused
        }),
{
}

/// The channel is reached with the token and the channel of the settings, where neither is empty, and
/// nowhere else: without a bot the answer is that it is not configured.
pub proof fn law_access_takes_token_and_channel(
    settings: AppSettingsView,
    message: Seq<char>,
    code: Seq<char>,
    r: Result<TelegramService, Reply>,
)
    requires
        is_access(settings, message, code, r),
    ensures
        r is Ok <==> settings.bot_token is Some && settings.bot_token->Some_0.len() > 0
            && settings.channel_name is Some && settings.channel_name->Some_0.len() > 0,
        r matches Ok(s) ==> settings.bot_token == Some(s.bot_token@) && settings.channel_name == Some(
            s.channel_name@,
        ),
        r matches Err(e) ==> reply::refuses(e@, 503, code, message),
{
    reply::law_errors_tell_code_and_message(503, message, code);
}

/// A download begins where the identifier has between one and 128 bytes and no control character, and
/// a bot is configured; an identifier of another form is refused before that.
pub proof fn law_downloads_begin_with_an_identifier(
    identifier: Seq<char>,
    settings: AppSettingsView,
    r: Result<TelegramService, Reply>,
)
    requires
        download_begins(identifier, settings, r),
    ensures
        ({
            let good = 0 < encode_utf8(identifier).len() <= 128 && forall|i: int|
                0 <= i < identifier.len() ==> !text::is_control(#[trigger] identifier[i]);
            &&& !good <==> (r matches Err(e) && reply::refuses(e@, 400, "invalid_id"@, "无效的文件标识"@))
            &&& good ==> is_access(settings, "Bot 未配置"@, "bot_not_configured"@, r)
        }),
{
    text::lemma_byte_len(identifier);
    if identifier.len() > 0 {
        assert(text::char_width(identifier.last()) >= 1);
    }
    reply::law_errors_tell_code_and_message(400, "无效的文件标识"@, "invalid_id"@);
    lemma_error_statuses_differ();
    if !bad_identifier(identifier) {
        law_access_takes_token_and_channel(settings, "Bot 未配置"@, "bot_not_configured"@, r);
    }
}

proof fn lemma_error_statuses_differ()
    ensures
        !reply::refuses(
            reply::error_reply(503, "Bot 未配置"@, "bot_not_configured"@),
            400,
            "invalid_id"@,
            "无效的文件标识"@,
        ),
{
}

/// As many files as the limit can be deleted at a time, and not one more.
pub proof fn law_batches_are_limited(count: nat, settings: AppSettingsView, r: Result<TelegramService, Reply>)
    requires
        batch_begins(count, settings, r),
    ensures
        count > constants::BATCH_DELETE_MAX <==> (r matches Err(e) && reply::refuses(
            e@,
            400,
            "too_many_items"@,
            "批量删除数量超过上限"@,
        )),
        count <= constants::BATCH_DELETE_MAX ==> is_access(
            settings,
            "Bot 未配置"@,
            "bot_not_configured"@,
            r,
        ),
{
    reply::law_errors_tell_code_and_message(400, "批量删除数量超过上限"@, "too_many_items"@);
}

/// Text says how it is encoded: it does already, or it says UTF-8. What is no text stays as it is.
pub proof fn law_text_names_its_encoding(mime: Seq<char>)
    ensures
        with_charset(mime) == mime || with_charset(mime) == mime + "; charset=utf-8"@,
        "text/"@.is_prefix_of(mime) ==> text::has_substring(with_charset(mime), "charset"@),
        !"text/"@.is_prefix_of(mime) ==> with_charset(mime) == mime,
        text::has_substring(mime, "charset"@) ==> with_charset(mime) == mime,
{
    reveal_strlit("; charset=utf-8");
    reveal_strlit("charset");
    let s = mime + "; charset=utf-8"@;
    let at = mime.len() as int + 2;
    assert(s.subrange(at, at + 7) =~= "charset"@);
    assert(text::occurs_at(s, "charset"@, at));
}

/// The extension is what stands behind the last dot; a name without a dot is all extension.
pub proof fn law_extension_is_behind_the_last_dot(head: Seq<char>, ext: Seq<char>)
    requires
        !ext.contains('.'),
    ensures
        extension(head + seq!['.'] + ext) == ext,
        extension(ext) == ext,
{
    text::lemma_split_on_join(head, '.', ext);
    text::law_split_where_the_separator_is(ext, '.');
}

/// Pictures, sounds, films and plain documents are shown in place, unless they are to be saved. The
/// name of the file follows in either case, byte by byte.
pub proof fn law_previews_are_shown(filename: Seq<char>, ext: Seq<char>)
    requires
        ext == "jpg"@ || ext == "jpeg"@ || ext == "png"@ || ext == "gif"@ || ext == "webp"@ || ext == "bmp"@
            || ext == "ico"@ || ext == "tiff"@ || ext == "mp4"@ || ext == "webm"@ || ext == "ogg"@ || ext
            == "mp3"@ || ext == "wav"@ || ext == "flac"@ || ext == "pdf"@ || ext == "txt"@ || ext == "json"@
            || ext == "csv"@ || ext == "md"@ || ext == "log"@,
    ensures
        disposition_with(filename, ext, false) == "inline; filename*=UTF-8''"@ + outside::percent_encoded(
            encode_utf8(filename),
        ),
        disposition_with(filename, ext, true) == "attachment; filename*=UTF-8''"@
            + outside::percent_encoded(encode_utf8(filename)),
{
    let p = preview_extensions();
    assert(p[0] == "jpg"@ && p[1] == "jpeg"@ && p[2] == "png"@ && p[3] == "gif"@ && p[4] == "webp"@ && p[5]
        == "bmp"@ && p[6] == "ico"@ && p[7] == "tiff"@ && p[8] == "mp4"@ && p[9] == "webm"@ && p[10]
        == "ogg"@ && p[11] == "mp3"@ && p[12] == "wav"@ && p[13] == "flac"@ && p[14] == "pdf"@ && p[15]
        == "txt"@ && p[16] == "json"@ && p[17] == "csv"@ && p[18] == "md"@ && p[19] == "log"@);
    assert(p.contains(ext));
}

/// What is shown in place is of one of those twenty kinds; everything else is saved.
pub proof fn law_everything_else_is_saved(filename: Seq<char>, ext: Seq<char>)
    requires
        ext != "jpg"@ && ext != "jpeg"@ && ext != "png"@ && ext != "gif"@ && ext != "webp"@ && ext != "bmp"@
            && ext != "ico"@ && ext != "tiff"@ && ext != "mp4"@ && ext != "webm"@ && ext != "ogg"@ && ext
            != "mp3"@ && ext != "wav"@ && ext != "flac"@ && ext != "pdf"@ && ext != "txt"@ && ext != "json"@
            && ext != "csv"@ && ext != "md"@ && ext != "log"@,
    ensures
        disposition_with(filename, ext, false) == "attachment; filename*=UTF-8''"@
            + outside::percent_encoded(encode_utf8(filename)),
{
    let p = preview_extensions();
    assert(!p.contains(ext));
}

/// No header of a list has this name.
pub open spec fn lacks_header(headers: Seq<(Seq<char>, Seq<char>)>, name: Seq<char>) -> bool {
    forall|i: int| 0 <= i < headers.len() ==> (#[trigger] headers[i]).0 != name
}

/// A header has this value where there is one, and is missing where there is none.
pub open spec fn passes_on(
    headers: Seq<(Seq<char>, Seq<char>)>,
    name: Seq<char>,
    value: Option<String>,
) -> bool {
    match value {
        Some(v) => headers.contains((name, v@)),
        None => lacks_header(headers, name),
    }
}

/// An answer says what the file is called, of what type it is, and that ranges of it can be had.
pub open spec fn describes(headers: Seq<(Seq<char>, Seq<char>)>, filename: Seq<char>, force_download: bool) -> bool {
    &&& headers.contains(("Content-Type"@, content_type(filename)))
    &&& headers.contains(("Content-Disposition"@, disposition(filename, force_download)))
    &&& headers.contains(("Accept-Ranges"@, "bytes"@))
    &&& headers.contains(("X-Content-Type-Options"@, "nosniff"@))
}

/// The answer to a range carries the status, the `Content-Range` and the `Content-Length` of the
/// upstream answer, and its body; beside them it describes the file.
pub proof fn law_ranges_are_passed_on(
    req: ServeView,
    status: u16,
    content_range: Option<String>,
    content_length: Option<String>,
)
    ensures
        serve_step(req, ServeEvent::RangeOpened { status, content_range, content_length }) matches
            ServeStepView::Answer(r) && r.status == status && r.body is Upstream && passes_on(
            r.headers,
            "Content-Range"@,
            content_range,
        ) && passes_on(r.headers, "Content-Length"@, content_length) && describes(
            r.headers,
            req.filename,
            req.force_download,
        ),
{
    reveal_strlit("Content-Type");
    reveal_strlit("Content-Disposition");
    reveal_strlit("Accept-Ranges");
    reveal_strlit("X-Content-Type-Options");
    reveal_strlit("Content-Range");
    reveal_strlit("Content-Length");
    assert("Content-Type"@.len() == 12);
    assert("Content-Disposition"@.len() == 19);
    assert("Accept-Ranges"@.len() == 13);
    assert("X-Content-Type-Options"@.len() == 22);
    assert("Content-Range"@.len() == 13);
    assert("Content-Length"@.len() == 14);
    assert("Accept-Ranges"@[0] != "Content-Range"@[0]);
    let event = ServeEvent::RangeOpened { status, content_range, content_length };
    let h = serve_step(req, event)->Answer_0.headers;
    assert(h[0] == ("Content-Type"@, content_type(req.filename)));
    assert(h[1] == ("Content-Disposition"@, disposition(req.filename, req.force_download)));
    assert(h[2] == ("Accept-Ranges"@, "bytes"@));
    assert(h[3] == ("X-Content-Type-Options"@, "nosniff"@));
    if let Some(v) = content_range {
        assert(h[4] == ("Content-Range"@, v@));
    }
    if let Some(v) = content_length {
        assert(h[h.len() - 1] == ("Content-Length"@, v@));
    }
}

/// The answer with a whole file is a success and carries the `Content-Length` of the upstream answer,
/// and its body, unless the headers alone are asked for; beside that it describes the file.
pub proof fn law_whole_files_are_passed_on(req: ServeView, content_length: Option<String>)
    ensures
        serve_step(req, ServeEvent::FileOpened { content_length }) matches ServeStepView::Answer(r)
            && r.status == 200 && (req.is_head ==> r.body is Empty) && (!req.is_head ==> r.body is Upstream)
            && passes_on(r.headers, "Content-Length"@, content_length) && lacks_header(
            r.headers,
            "Content-Range"@,
        ) && describes(r.headers, req.filename, req.force_download),
{
    reveal_strlit("Content-Type");
    reveal_strlit("Content-Disposition");
    reveal_strlit("Accept-Ranges");
    reveal_strlit("X-Content-Type-Options");
    reveal_strlit("Content-Range");
    reveal_strlit("Content-Length");
    assert("Content-Type"@.len() == 12);
    assert("Content-Disposition"@.len() == 19);
    assert("Accept-Ranges"@.len() == 13);
    assert("X-Content-Type-Options"@.len() == 22);
    assert("Content-Range"@.len() == 13);
    assert("Content-Length"@.len() == 14);
    assert("Accept-Ranges"@[0] != "Content-Range"@[0]);
    let h = serve_step(req, ServeEvent::FileOpened { content_length })->Answer_0.headers;
    assert(h[0] == ("Content-Type"@, content_type(req.filename)));
    assert(h[1] == ("Content-Disposition"@, disposition(req.filename, req.force_download)));
    assert(h[2] == ("Accept-Ranges"@, "bytes"@));
    assert(h[3] == ("X-Content-Type-Options"@, "nosniff"@));
    if let Some(v) = content_length {
        assert(h[4] == ("Content-Length"@, v@));
    }
}

/// The answer that a manifest makes is a success that describes the file by the name in the second
/// line, and its body are the chunks of the lines from the third on, in order, unless the headers alone
/// are asked for. A manifest without chunks is an error.
pub proof fn law_manifests_are_served_in_order(req: ServeView, bytes: Vec<u8>)
    ensures
        ({
            let lines = manifest::manifest_lines(bytes@);
            serve_step(req, ServeEvent::ManifestRead(bytes)) matches ServeStepView::Answer(r) && if lines.len()
                >= 3 {
                &&& r.status == 200
                &&& describes(r.headers, lines[1], req.force_download)
                &&& req.is_head ==> r.body is Empty
                &&& !req.is_head ==> (r.body matches BodyView::Chunks(ids) && ids.len() == lines.len() - 2
                    && forall|i: int| 0 <= i < ids.len() ==> #[trigger] ids[i] == lines[i + 2])
            } else {
                reply::refuses(r, 500, "manifest_error"@, "清单文件格式错误"@)
            }
        }),
{
    let lines = manifest::manifest_lines(bytes@);
    let h = serve_step(req, ServeEvent::ManifestRead(bytes))->Answer_0.headers;
    if lines.len() >= 3 {
        assert(h[0] == ("Content-Type"@, content_type(lines[1])));
        assert(h[1] == ("Content-Disposition"@, disposition(lines[1], req.force_download)));
        assert(h[2] == ("Accept-Ranges"@, "bytes"@));
        assert(h[3] == ("X-Content-Type-Options"@, "nosniff"@));
    }
    reply::law_errors_tell_code_and_message(500, "清单文件格式错误"@, "manifest_error"@);
}

/// To serve a file, the file of its identifier is located, and then as much of it is fetched as tells a
/// manifest. What begins as a manifest does is fetched as one, and of anything else the range that was
/// asked for, or all of it.
pub proof fn law_files_are_looked_into(
    req: ServeView,
    message_id: i64,
    file: Seq<char>,
    url: String,
    bytes: Vec<u8>,
)
    ensures
        req.file_id == api_upload::composite(message_id, file) ==> serve_step(req, ServeEvent::Begun)
            == ServeStepView::Locate(file),
        !req.file_id.contains(':') ==> serve_step(req, ServeEvent::Begun) == ServeStepView::Locate(
            req.file_id,
        ),
        serve_step(req, ServeEvent::Located(Ok(Some(url)))) == (ServeStepView::Peek {
            url: url@,
            range: "bytes=0-127"@,
        }),
        encode_utf8("tgstate-blob\n"@).is_prefix_of(bytes@) <==> serve_step(req, ServeEvent::Peeked(bytes))
            is FetchManifest,
        !encode_utf8("tgstate-blob\n"@).is_prefix_of(bytes@) ==> match req.range {
            Some(range) => serve_step(req, ServeEvent::Peeked(bytes)) == ServeStepView::FetchRange(range),
            None => serve_step(req, ServeEvent::Peeked(bytes)) is FetchFile,
        },
{
    law_real_file_of_composite(message_id, file);
    text::law_split_where_the_separator_is(req.file_id, ':');
}

/// Whatever cannot be had is answered with an error that says so: a file without an address is not
/// found, Telegram that cannot be reached is not available, and what Telegram does not hand out is a bad
/// gateway.
pub proof fn law_failures_are_answered(req: ServeView, why: String)
    ensures
        serve_step(req, ServeEvent::Located(Ok(None))) matches ServeStepView::Answer(r) && reply::refuses(
            r,
            404,
            "not_found"@,
            "文件未找到或链接已过期"@,
        ),
        serve_step(req, ServeEvent::Located(Err(why))) matches ServeStepView::Answer(r) && reply::refuses(
            r,
            503,
            "tg_error"@,
            "无法连接到 Telegram"@,
        ),
        serve_step(req, ServeEvent::PeekRefused) matches ServeStepView::Answer(r) && reply::refuses(
            r,
            502,
            "download_error"@,
            "无法下载文件"@,
        ),
        serve_step(req, ServeEvent::PeekBroken) matches ServeStepView::Answer(r) && reply::refuses(
            r,
            502,
            "read_error"@,
            "读取文件失败"@,
        ),
        serve_step(req, ServeEvent::ManifestRefused) matches ServeStepView::Answer(r) && reply::refuses(
            r,
            502,
            "download_error"@,
            "下载文件失败"@,
        ),
        serve_step(req, ServeEvent::ManifestBroken) matches ServeStepView::Answer(r) && reply::refuses(
            r,
            502,
            "read_error"@,
            "读取文件失败"@,
        ),
        serve_step(req, ServeEvent::RangeRefused) matches ServeStepView::Answer(r) && reply::refuses(
            r,
            502,
            "download_error"@,
            "无法下载文件"@,
        ),
        serve_step(req, ServeEvent::FileRefused) matches ServeStepView::Answer(r) && reply::refuses(
            r,
            502,
            "download_error"@,
            "无法下载文件"@,
        ),
{
    reply::law_errors_tell_code_and_message(404, "文件未找到或链接已过期"@, "not_found"@);
    reply::law_errors_tell_code_and_message(503, "无法连接到 Telegram"@, "tg_error"@);
    reply::law_errors_tell_code_and_message(502, "无法下载文件"@, "download_error"@);
    reply::law_errors_tell_code_and_message(502, "下载文件失败"@, "download_error"@);
    reply::law_errors_tell_code_and_message(502, "读取文件失败"@, "read_error"@);
}

/// A chunk is passed on where it could be opened, tried once more where the first try failed, and ends
/// the answer where the second did.
pub proof fn law_chunks_get_two_tries(attempt: u32, opened: bool, step: ChunkStep)
    requires
        follows_try(attempt, opened, step),
    ensures
        step is PassOn <==> opened,
        step is RetryAfter <==> !opened && attempt == 0,
        step is BreakOff <==> !opened && attempt > 0,
        step matches ChunkStep::RetryAfter(secs) ==> secs == 1,
        step matches ChunkStep::BreakOff(e) ==> e@ == "chunk download failed"@,
{
}

/// A stored file that has no share password, or that the request has unlocked, is served by its short
/// link under its own name, with the range that was asked for. It is saved where `download` is `1` or
/// `true`, and nowhere else.
pub proof fn law_open_files_are_served(
    f: FileView,
    cookie_header: Option<Seq<char>>,
    file_id: Seq<char>,
    filename: Seq<char>,
    download: Option<Seq<char>>,
    range: Option<Seq<char>>,
    is_head: bool,
)
    requires
        match f.share_password {
            Some(hash) => auth::cookie_in_opt(cookie_header, auth::share_name(pages::display_of(f))) == Some(
                auth::share_credential(hash),
            ),
            None => true,
        },
    ensures
        short_download(Some(f), cookie_header, download, range, is_head) matches Ok(s) && s.file_id
            == f.file_id && s.filename == f.filename && s.range == range && s.is_head == is_head
            && s.force_download == (download == Some("1"@) || download == Some("true"@)),
        named_download(Some(Some(f)), cookie_header, file_id, filename, download, range, is_head) matches
            Ok(s) && s.file_id == f.file_id && s.filename == filename && s.range == range && s.is_head
            == is_head && s.force_download == (download == Some("1"@) || download == Some("true"@)),
{
}

/// What is not stored is not found by a short link; by a link that gives the name too it is a file of
/// the channel, and is served under the name that was given.
pub proof fn law_unknown_files(
    cookie_header: Option<Seq<char>>,
    file_id: Seq<char>,
    filename: Seq<char>,
    download: Option<Seq<char>>,
    range: Option<Seq<char>>,
    is_head: bool,
)
    ensures
        short_download(None, cookie_header, download, range, is_head) matches Err(e) && reply::refuses(
            e,
            404,
            "not_found"@,
            "文件未找到"@,
        ),
        named_download(None, cookie_header, file_id, filename, download, range, is_head) matches Err(e)
            && reply::refuses(e, 404, "not_found"@, "文件未找到"@),
        named_download(Some(None), cookie_header, file_id, filename, download, range, is_head) matches Ok(s)
            && s.file_id == file_id && s.filename == filename && s.range == range && s.is_head == is_head
            && s.force_download == (download == Some("1"@) || download == Some("true"@)),
{
    reply::law_errors_tell_code_and_message(404, "文件未找到"@, "not_found"@);
}

/// The refusal of a locked file says that it is locked.
pub proof fn law_locked_files_say_so(
    f: FileView,
    cookie_header: Option<Seq<char>>,
    file_id: Seq<char>,
    filename: Seq<char>,
    download: Option<Seq<char>>,
    range: Option<Seq<char>>,
    is_head: bool,
)
    requires
        f.share_password is Some,
        auth::cookie_in_opt(cookie_header, auth::share_name(pages::display_of(f))) != Some(
            auth::share_credential(f.share_password->Some_0),
        ),
    ensures
        short_download(Some(f), cookie_header, download, range, is_head) matches Err(e) && reply::refuses(
            e,
            401,
            "share_locked"@,
            "需要分享密码"@,
        ),
        named_download(Some(Some(f)), cookie_header, file_id, filename, download, range, is_head) matches
            Err(e) && reply::refuses(e, 401, "share_locked"@, "需要分享密码"@),
{
    reply::law_errors_tell_code_and_message(401, "需要分享密码"@, "share_locked"@);
}

/// Each entry of the list tells the columns of its own file, and whether it has a share password.
pub proof fn law_list_tells_of_each_file(f: FileView)
    ensures
        json::field(listed(f), "filename"@) == Some(JsonView::Str(f.filename)),
        json::field(listed(f), "file_id"@) == Some(JsonView::Str(f.file_id)),
        json::i64_of(json::field(listed(f), "filesize"@)) == Some(f.filesize),
        json::field(listed(f), "upload_date"@) == Some(JsonView::Str(f.upload_date)),
        match f.short_id {
            Some(id) => json::field(listed(f), "short_id"@) == Some(JsonView::Str(id)),
            None => json::field(listed(f), "short_id"@) == Some(JsonView::Null),
        },
        json::field(listed(f), "has_password"@) == Some(JsonView::Bool(f.share_password is Some)),
{
    broadcast use json::lemma_lookup_push;

    reveal_strlit("filename");
    reveal_strlit("file_id");
    reveal_strlit("filesize");
    reveal_strlit("upload_date");
    reveal_strlit("short_id");
    reveal_strlit("has_password");
    assert("filename"@.len() == 8);
    assert("file_id"@.len() == 7);
    assert("filesize"@.len() == 8);
    assert("upload_date"@.len() == 11);
    assert("short_id"@.len() == 8);
    assert("has_password"@.len() == 12);
    assert("filename"@[4] != "filesize"@[4]);
    assert("filename"@[0] != "short_id"@[0]);
    assert("filesize"@[0] != "short_id"@[0]);
}

/// The list has an entry for every file, in their order, and is a success.
pub proof fn law_every_file_is_listed(files: Seq<FileView>)
    ensures
        files_answer(files).status == 200,
        files_answer(files).body matches reply::BodyView::Json(JsonView::Arr(items)) && items.len()
            == files.len() && forall|i: int|
            0 <= i < files.len() ==> json::field(#[trigger] items[i], "file_id"@) == Some(
                JsonView::Str(files[i].file_id),
            ) && items[i] == listed(files[i]),
{
    let items = files.map_values(|f: FileView| listed(f));
    assert forall|i: int| 0 <= i < files.len() implies json::field(#[trigger] items[i], "file_id"@) == Some(
        JsonView::Str(files[i].file_id),
    ) by {
        law_list_tells_of_each_file(files[i]);
    }
}

/// A deletion result as a value tells all that the result holds.
pub proof fn law_deletion_values_tell_everything(d: DeleteResultView)
    ensures
        json::field(deletion_value(d), "status"@) == Some(JsonView::Str(d.status)),
        json::field(deletion_value(d), "main_file_id"@) == Some(JsonView::Str(d.main_file_id)),
        json::field(deletion_value(d), "deleted_chunks"@) == Some(json::texts_view(d.deleted_chunks)),
        json::field(deletion_value(d), "failed_chunks"@) == Some(json::texts_view(d.failed_chunks)),
        json::field(deletion_value(d), "main_message_deleted"@) == Some(
            JsonView::Bool(d.main_message_deleted),
        ),
        json::field(deletion_value(d), "main_delete_reason"@) == Some(JsonView::Str(d.main_delete_reason)),
        json::field(deletion_value(d), "is_manifest"@) == Some(JsonView::Bool(d.is_manifest)),
        json::field(deletion_value(d), "reason"@) == Some(JsonView::Str(d.reason)),
{
    broadcast use json::lemma_lookup_push;

    reveal_strlit("status");
    reveal_strlit("main_file_id");
    reveal_strlit("deleted_chunks");
    reveal_strlit("failed_chunks");
    reveal_strlit("main_message_deleted");
    reveal_strlit("main_delete_reason");
    reveal_strlit("is_manifest");
    reveal_strlit("reason");
    assert("status"@.len() == 6);
    assert("main_file_id"@.len() == 12);
    assert("deleted_chunks"@.len() == 14);
    assert("failed_chunks"@.len() == 13);
    assert("main_message_deleted"@.len() == 20);
    assert("main_delete_reason"@.len() == 18);
    assert("is_manifest"@.len() == 11);
    assert("reason"@.len() == 6);
    assert("status"@[0] != "reason"@[0]);
}

/// The deletion of a file is a success where its message is gone and no chunk is left, or where its
/// message is not gone but its record is. Chunks that are left are an error of their own, and a file of
/// which neither is gone was not deleted. Each answer holds what became of the messages.
pub proof fn law_deletions_are_answered(file_id: Seq<char>, d: DeleteResultView, record: bool)
    ensures
        ({
            let r = deletion_answer(file_id, d, record);
            let tg = deletion_value(d);
            if d.main_message_deleted && d.failed_chunks.len() == 0 {
                &&& r.status == 200
                &&& reply::tells(r, "status"@, JsonView::Str("ok"@))
                &&& reply::tells(r, "message"@, JsonView::Str("文件 "@ + file_id + " 已删除。"@))
                &&& r.body matches reply::BodyView::Json(j) && json::field(j, "details"@) matches Some(x)
                    && json::field(x, "tg"@) == Some(tg) && json::field(x, "db"@) == Some(
                    JsonView::Str(if record {
                        "deleted"@
                    } else {
                        "not_found_in_db"@
                    }),
                )
            } else if d.main_message_deleted {
                &&& r.status == 500
                &&& reply::tells(r, "status"@, JsonView::Str("error"@))
                &&& reply::tells(r, "code"@, JsonView::Str("partial_failure"@))
                &&& reply::tells(r, "message"@, JsonView::Str("部分分块删除失败"@))
                &&& reply::tells(r, "details"@, tg)
            } else if record {
                &&& r.status == 200
                &&& reply::tells(r, "status"@, JsonView::Str("ok"@))
                &&& reply::tells(
                    r,
                    "message"@,
                    JsonView::Str("文件 "@ + file_id + " 已从数据库删除（Telegram 删除失败）。"@),
                )
                &&& reply::tells(r, "details"@, tg)
            } else {
                &&& r.status == 400
                &&& reply::tells(r, "status"@, JsonView::Str("error"@))
                &&& reply::tells(r, "code"@, JsonView::Str("delete_failed"@))
                &&& reply::tells(r, "message"@, JsonView::Str("删除失败"@))
                &&& reply::tells(r, "details"@, tg)
            }
        }),
{
    broadcast use json::lemma_lookup_push;

    reveal_strlit("status");
    reveal_strlit("message");
    reveal_strlit("details");
    reveal_strlit("code");
    reveal_strlit("db");
    reveal_strlit("tg");
    assert("status"@.len() == 6);
    assert("message"@.len() == 7);
    assert("details"@.len() == 7);
    assert("code"@.len() == 4);
    assert("db"@.len() == 2);
    assert("tg"@.len() == 2);
    assert("message"@[0] != "details"@[0]);
    assert("db"@[0] != "tg"@[0]);
    let x = deletion_details(record, deletion_value(d));
    assert(json::field(x, "tg"@) == Some(deletion_value(d)));
    assert(json::field(x, "db"@) is Some);
}

/// A record is gone exactly where the database says that it deleted one.
pub proof fn law_records_are_gone_when_deleted(record: Result<bool, String>)
    ensures
        record_gone(record) <==> record == Ok::<bool, String>(true),
{
}

/// A file of a batch is listed as deleted exactly where its message is gone or its record is, and as
/// failed elsewhere.
pub proof fn law_batch_lists_what_is_gone(outcomes: Seq<BatchOutcome>, deleted: bool, id: Seq<char>)
    ensures
        batch_part(outcomes, deleted).contains(id) <==> exists|i: int|
            0 <= i < outcomes.len() && (#[trigger] outcomes[i]).file_id@ == id && (
            outcomes[i].message_deleted || outcomes[i].record == Ok::<bool, String>(true)) == deleted,
    decreases outcomes.len(),
{
    let all = batch_part(outcomes, deleted);
    if outcomes.len() > 0 {
        let less = outcomes.drop_last();
        let n = outcomes.len() - 1;
        let before = batch_part(less, deleted);
        law_batch_lists_what_is_gone(less, deleted, id);
        if all.contains(id) {
            let k = choose|k: int| 0 <= k < all.len() && all[k] == id;
            if k < before.len() {
                assert(before[k] == id);
                let i = choose|i: int|
                    0 <= i < less.len() && (#[trigger] less[i]).file_id@ == id && (less[i].message_deleted
                        || less[i].record == Ok::<bool, String>(true)) == deleted;
                assert(outcomes[i] == less[i]);
            } else {
                assert(outcomes[n].file_id@ == id);
            }
        }
        if exists|i: int|
            0 <= i < outcomes.len() && (#[trigger] outcomes[i]).file_id@ == id && (
            outcomes[i].message_deleted || outcomes[i].record == Ok::<bool, String>(true)) == deleted {
            let i = choose|i: int|
                0 <= i < outcomes.len() && (#[trigger] outcomes[i]).file_id@ == id && (
                outcomes[i].message_deleted || outcomes[i].record == Ok::<bool, String>(true)) == deleted;
            if i < n {
                assert(less[i] == outcomes[i]);
                let k = choose|k: int| 0 <= k < before.len() && before[k] == id;
                assert(all[k] == id);
            } else {
                assert(all.last() == id);
            }
        }
    }
}

/// The answer to a batch is a success that holds both lists.
pub proof fn law_batches_are_answered(outcomes: Seq<BatchOutcome>)
    ensures
        batch_answer(outcomes).status == 200,
        reply::tells(batch_answer(outcomes), "status"@, JsonView::Str("completed"@)),
        reply::tells(batch_answer(outcomes), "deleted"@, json::texts_view(batch_part(outcomes, true))),
        reply::tells(batch_answer(outcomes), "failed"@, json::texts_view(batch_part(outcomes, false))),
{
    broadcast use json::lemma_lookup_push;

    reveal_strlit("status");
    reveal_strlit("deleted");
    reveal_strlit("failed");
    assert("status"@.len() == 6);
    assert("deleted"@.len() == 7);
    assert("failed"@.len() == 6);
    assert("status"@[0] != "failed"@[0]);
}

/// A blank share password clears it; any other is stored as a hash that accepts it, and never as it is.
pub proof fn law_share_passwords_are_hashed(password: Seq<char>, r: Result<Option<String>, Reply>)
    requires
        is_share_password(password, r),
    ensures
        r matches Ok(None) <==> r is Ok && password.len() == 0,
        r matches Ok(Some(h)) ==> auth::is_phc(h@) && auth::phc_accepts(password, h@) && h@.len() == 97,
        r matches Err(e) ==> reply::refuses(
            e@,
            500,
            "hash_error"@,
            "密码哈希失败"@,
        ) && encode_utf8(password).len() > u32::MAX,
        0 < encode_utf8(password).len() <= u32::MAX ==> r matches Ok(Some(_)),
{
    text::lemma_byte_len(password);
    reply::law_errors_tell_code_and_message(500, "密码哈希失败"@, "hash_error"@);
    if let Ok(Some(h)) = r {
        auth::law_hashed_password_is_accepted(password, h@);
    }
    if password.len() == 0 {
        assert(encode_utf8(password).len() == 0);
    }
}

/// The answer to a share password says whether the file has one now, where it was written; a file that
/// is not there is not found, and what could not be written is an error.
pub proof fn law_written_share_passwords_are_answered(has_password: bool, written: Result<bool, String>)
    ensures
        match written {
            Ok(true) => written_answer(has_password, written).status == 200 && reply::tells(
                written_answer(has_password, written),
                "status"@,
                JsonView::Str("ok"@),
            ) && reply::tells(
                written_answer(has_password, written),
                "has_password"@,
                JsonView::Bool(has_password),
            ),
            Ok(false) => reply::refuses(written_answer(has_password, written), 404, "not_found"@, "文件未找到"@),
            Err(_) => reply::refuses(written_answer(has_password, written), 500, "db_error"@, "操作失败"@),
        },
{
    broadcast use json::lemma_lookup_push;

    reveal_strlit("status");
    reveal_strlit("has_password");
    assert("status"@.len() == 6);
    assert("has_password"@.len() == 12);
    reply::law_errors_tell_code_and_message(404, "文件未找到"@, "not_found"@);
    reply::law_errors_tell_code_and_message(500, "操作失败"@, "db_error"@);
}

/// What is served is what was asked for, and what is done next is what was decided.
pub proof fn law_serving_holds_what_it_is_made_of(req: ServeRequest, step: ServeStep)
    ensures
        req@.file_id == req.file_id@,
        req@.filename == req.filename@,
        req@.range == text::opt_view(req.range),
        req@.force_download == req.force_download,
        req@.is_head == req.is_head,
        match step {
            ServeStep::Locate(f) => step@ == ServeStepView::Locate(f@),
            ServeStep::Peek { url, range } => step@ == (ServeStepView::Peek { url: url@, range: range@ }),
            ServeStep::FetchManifest => step@ is FetchManifest,
            ServeStep::FetchRange(r) => step@ == ServeStepView::FetchRange(r@),
            ServeStep::FetchFile => step@ is FetchFile,
            ServeStep::Answer(r) => step@ == ServeStepView::Answer(r@),
        },
{
}

/// An answer that breaks off in the middle of a chunk says why. A chunk that cannot be had at all is a bad
/// gateway.
pub proof fn law_broken_chunks_say_why(error: Seq<char>)
    ensures
        stream_error(error) == "chunk stream error: "@ + error,
        chunk_failure().status == 502,
        reply::refuses(chunk_failure(), 502, "chunk_download_failed"@, "文件下载失败"@),
{
    reply::law_errors_tell_code_and_message(502, "文件下载失败"@, "chunk_download_failed"@);
}

/// A file that was looked up is the one that was found; what could not be looked up is not found by a
/// short link, and is known not to be by one that gives the name.
pub proof fn law_lookups_give_what_was_found(file: Result<Option<FileMetadata>, String>)
    ensures
        file matches Ok(Some(f)) ==> found_view(file) == Some(f@) && lookup_view(file) == Some(Some(f@)),
        file matches Ok(None) ==> found_view(file) is None && lookup_view(file) == Some(None::<FileView>),
        file is Err ==> found_view(file) is None && lookup_view(file) is None,
{
}

} // verus!
