//! The pages.

use vstd::prelude::*;
use vstd::utf8::*;

use crate::auth;
use crate::config;
use crate::config::{AppSettingsMap, AppSettingsView};
use crate::database;
use crate::database::{FileMetadata, FileView};
use crate::json;
use crate::json::{Json, JsonView};
use crate::middleware;
use crate::outside;
use crate::reply;
use crate::reply::{Reply, ReplyView};
use crate::routes::api_files;
use crate::telegram::service;
use crate::text;

verus! {

// ---------------------------------------------------------------------------------------------
// What pages are told
// ---------------------------------------------------------------------------------------------

/// The settings that a bot lacks.
pub open spec fn missing_settings(s: AppSettingsView) -> Seq<Seq<char>> {
    let token = if text::trimmed(text::text_or_empty(s.bot_token)).len() == 0 {
        Seq::empty().push("BOT_TOKEN"@)
    } else {
        Seq::empty()
    };
    if text::trimmed(text::text_or_empty(s.channel_name)).len() == 0 {
        token.push("CHANNEL_NAME"@)
    } else {
        token
    }
}

/// What pages are told about the bot.
pub open spec fn bot_cfg(s: AppSettingsView, bot_running: bool) -> JsonView {
    JsonView::Obj(
        json::empty_fields().push(("bot_ready"@, JsonView::Bool(config::bot_ready(s)))).push(
            ("bot_running"@, JsonView::Bool(bot_running)),
        ).push(("missing"@, json::texts_view(missing_settings(s)))),
    )
}

/// What pages are told about the bot.
pub fn page_cfg(settings: &AppSettingsMap, bot_running: bool) -> (r: Json)
    ensures
        r@ == bot_cfg(settings@, bot_running),
{
    let bot_token = text::trim(config::borrow_or_empty(&settings.bot_token));
    let channel = text::trim(config::borrow_or_empty(&settings.channel_name));
    let mut missing: Vec<String> = Vec::new();
    if bot_token.unicode_len() == 0 {
        missing.push(String::from_str("BOT_TOKEN"));
    }
    if channel.unicode_len() == 0 {
        missing.push(String::from_str("CHANNEL_NAME"));
    }
    assert(text::strings_view(missing@) =~= missing_settings(settings@));
    let mut fields = json::no_fields();
    json::put(&mut fields, "bot_ready", Json::Bool(config::is_bot_ready(settings)));
    json::put(&mut fields, "bot_running", Json::Bool(bot_running));
    json::put(&mut fields, "missing", json::texts_value(&missing));
    Json::Obj(fields)
}

/// The identifier under which a file is shown: its short one, where it has one.
pub open spec fn display_of(f: FileView) -> Seq<char> {
    match f.short_id {
        Some(s) => if s.len() > 0 {
            s
        } else {
            f.file_id
        },
        None => f.file_id,
    }
}

/// The identifier under which a file is shown.
pub fn display_id<'a>(f: &'a FileMetadata) -> (r: &'a str)
    ensures
        r@ == display_of(f@),
{
    match &f.short_id {
        Some(s) => if s.as_str().unicode_len() > 0 {
            s.as_str()
        } else {
            f.file_id.as_str()
        },
        None => f.file_id.as_str(),
    }
}

/// A date without the time: what stands before the first space.
pub open spec fn date_only(upload_date: Seq<char>) -> Seq<char> {
    upload_date.take(text::position(upload_date, ' ') as int)
}

fn short_date<'a>(upload_date: &'a str) -> (r: &'a str)
    ensures
        r@ == date_only(upload_date@),
{
    let x = text::to_chars(upload_date);
    assert(x@.skip(0) =~= x@);
    let p: usize = text::find_from(&x, 0, ' ');
    proof {
        text::lemma_position_found(upload_date@, ' ');
        assert(upload_date@.subrange(0, p as int) =~= upload_date@.take(p as int));
    }
    upload_date.substring_char(0, p)
}

/// A file with its size in mebibytes, written out.
#[derive(Debug, PartialEq)]
pub struct SizedFile {
    pub file: FileMetadata,
    pub filesize_mb: String,
}

/// What pages are told about a file.
pub open spec fn enriched(f: SizedFile) -> JsonView {
    JsonView::Obj(
        json::empty_fields().push(("file_id"@, JsonView::Str(f.file@.file_id))).push(
            ("short_id"@, JsonView::Str(text::text_or_empty(f.file@.short_id))),
        ).push(("filename"@, JsonView::Str(f.file@.filename))).push(
            ("filesize"@, json::int_view(f.file@.filesize)),
        ).push(("filesize_mb"@, JsonView::Str(f.filesize_mb@))).push(
            ("upload_date"@, JsonView::Str(f.file@.upload_date)),
        ).push(("upload_date_short"@, JsonView::Str(date_only(f.file@.upload_date)))).push(
            ("display_id"@, JsonView::Str(display_of(f.file@))),
        ).push(("has_password"@, JsonView::Bool(f.file@.share_password is Some))),
    )
}

/// What pages are told about files.
pub open spec fn enriched_all(files: Seq<SizedFile>) -> JsonView {
    JsonView::Arr(files.map_values(|f: SizedFile| enriched(f)))
}

fn enrich(f: &SizedFile) -> (r: Json)
    ensures
        r@ == enriched(*f),
{
    let mut fields = json::no_fields();
    json::put(&mut fields, "file_id", json::text_value(f.file.file_id.as_str()));
    json::put(&mut fields, "short_id", json::text_value(config::borrow_or_empty(&f.file.short_id)));
    json::put(&mut fields, "filename", json::text_value(f.file.filename.as_str()));
    json::put(&mut fields, "filesize", json::int_value(f.file.filesize));
    json::put(&mut fields, "filesize_mb", json::text_value(f.filesize_mb.as_str()));
    json::put(&mut fields, "upload_date", json::text_value(f.file.upload_date.as_str()));
    json::put(
        &mut fields,
        "upload_date_short",
        json::text_value(short_date(f.file.upload_date.as_str())),
    );
    json::put(&mut fields, "display_id", json::text_value(display_id(&f.file)));
    json::put(&mut fields, "has_password", Json::Bool(f.file.share_password.is_some()));
    Json::Obj(fields)
}

/// What pages are told about files.
pub fn enrich_files(files: &Vec<SizedFile>) -> (r: Json)
    ensures
        r@ == enriched_all(files@),
{
    let mut items: Vec<Json> = Vec::new();
    let mut i: usize = 0;
    assert(json::items_view(items@) =~= files@.take(0).map_values(|f: SizedFile| enriched(f)));
    while i < files.len()
        invariant
            i <= files@.len(),
            json::items_view(items@) == files@.take(i as int).map_values(|f: SizedFile| enriched(f)),
        decreases files@.len() - i,
    {
        json::push_item(&mut items, enrich(&files[i]));
        assert(json::items_view(items@) =~= files@.take(i + 1).map_values(
            |f: SizedFile| enriched(f),
        ));
        i = i + 1;
    }
    assert(files@.take(files@.len() as int) =~= files@);
    Json::Arr(items)
}

// ---------------------------------------------------------------------------------------------
// Pages of the owner
// ---------------------------------------------------------------------------------------------

/// What a page gets that shows a path alone.
pub open spec fn path_context(path: Seq<char>) -> Seq<(Seq<char>, JsonView)> {
    json::empty_fields().push(("request_path"@, JsonView::Str(path)))
}

/// What a page gets that shows files.
pub open spec fn files_context(
    s: AppSettingsView,
    bot_running: bool,
    files: Seq<SizedFile>,
    path: Seq<char>,
) -> Seq<(Seq<char>, JsonView)> {
    json::empty_fields().push(("cfg"@, bot_cfg(s, bot_running))).push(
        ("files"@, enriched_all(files)),
    ).push(("request_path"@, JsonView::Str(path)))
}

fn files_page(
    template: &str,
    settings: &AppSettingsMap,
    bot_running: bool,
    files: &Vec<SizedFile>,
    path: &str,
) -> (r: Reply)
    ensures
        r@ == reply::page_reply(template@, files_context(settings@, bot_running, files@, path@)),
{
    let mut context = json::no_fields();
    json::put(&mut context, "cfg", page_cfg(settings, bot_running));
    json::put(&mut context, "files", enrich_files(files));
    json::put(&mut context, "request_path", json::text_value(path));
    reply::reply_page(template, context)
}

/// The page of the first steps.
pub open spec fn welcome_page() -> ReplyView {
    reply::page_reply("welcome.html"@, json::empty_fields())
}

/// The page of the first steps.
pub fn welcome() -> (r: Reply)
    ensures
        r@ == welcome_page(),
{
    reply::reply_page("welcome.html", json::no_fields())
}

/// The page of all files.
pub open spec fn index_page(s: AppSettingsView, bot_running: bool, files: Seq<SizedFile>) -> ReplyView {
    reply::page_reply("index.html"@, files_context(s, bot_running, files, "/"@))
}

/// The page of all files.
pub fn index(settings: &AppSettingsMap, bot_running: bool, files: &Vec<SizedFile>) -> (r: Reply)
    ensures
        r@ == index_page(settings@, bot_running, files@),
{
    files_page("index.html", settings, bot_running, files, "/")
}

/// The page for logging in.
pub open spec fn login_page() -> ReplyView {
    reply::page_reply("pwd.html"@, path_context("/login"@))
}

/// The page for logging in.
pub fn login() -> (r: Reply)
    ensures
        r@ == login_page(),
{
    let mut context = json::no_fields();
    json::put(&mut context, "request_path", json::text_value("/login"));
    reply::reply_page("pwd.html", context)
}

/// The page of the settings.
pub open spec fn page_of_settings(s: AppSettingsView, bot_running: bool) -> ReplyView {
    reply::page_reply(
        "settings.html"@,
        json::empty_fields().push(("cfg"@, bot_cfg(s, bot_running))).push(
            ("request_path"@, JsonView::Str("/settings"@)),
        ),
    )
}

/// The page of the settings.
pub fn settings_page(settings: &AppSettingsMap, bot_running: bool) -> (r: Reply)
    ensures
        r@ == page_of_settings(settings@, bot_running),
{
    let mut context = json::no_fields();
    json::put(&mut context, "cfg", page_cfg(settings, bot_running));
    json::put(&mut context, "request_path", json::text_value("/settings"));
    reply::reply_page("settings.html", context)
}

/// The ends of the names of images.
pub open spec fn image_ends() -> Seq<Seq<char>> {
    seq![
        ".jpg"@,
        ".jpeg"@,
        ".png"@,
        ".gif"@,
        ".webp"@,
        ".svg"@,
        ".bmp"@,
        ".ico"@,
        ".tiff"@,
    ]
}

/// A name in lower case is that of an image.
pub open spec fn is_image_name(lower: Seq<char>) -> bool {
    exists|i: int| 0 <= i < image_ends().len() && (#[trigger] image_ends()[i]).is_suffix_of(lower)
}

/// Tells whether a name in lower case is that of an image.
pub fn names_image(lower: &str) -> (r: bool)
    ensures
        r == is_image_name(lower@),
{
    let ends: [&str; 9] = [
        ".jpg",
        ".jpeg",
        ".png",
        ".gif",
        ".webp",
        ".svg",
        ".bmp",
        ".ico",
        ".tiff",
    ];
    let ghost want = image_ends();
    assert(text::strs_view(ends@) =~= want);
    let mut i: usize = 0;
    while i < 9
        invariant
            want == image_ends(),
            text::strs_view(ends@) == want,
            want.len() == 9,
            i <= 9,
            forall|j: int| 0 <= j < i ==> !(#[trigger] want[j]).is_suffix_of(lower@),
        decreases 9 - i,
    {
        assert(want[i as int] == ends@[i as int]@);
        if text::ends_with(lower, ends[i]) {
            return true;
        }
        i = i + 1;
    }
    false
}

/// The files that are images, in their order.
pub open spec fn images_of(files: Seq<FileMetadata>) -> Seq<FileMetadata>
    decreases files.len(),
{
    if files.len() == 0 {
        Seq::empty()
    } else if is_image_name(outside::lower_text(files.last().filename@)) {
        images_of(files.drop_last()).push(files.last())
    } else {
        images_of(files.drop_last())
    }
}

/// The files that are images, in their order.
pub fn only_images(files: Vec<FileMetadata>) -> (r: Vec<FileMetadata>)
    ensures
        r@ == images_of(files@),
{
    let mut rest = files;
    let ghost all = files@;
    let mut back: Vec<FileMetadata> = Vec::new();
    assert(images_of(all) + back@.reverse() =~= images_of(all));
    while rest.len() > 0
        invariant
            images_of(rest@) + back@.reverse() == images_of(all),
        decreases rest@.len(),
    {
        let ghost before = rest@;
        let ghost before_back = back@;
        if let Some(f) = rest.pop() {
            assert(before.drop_last() =~= rest@);
            let lower = outside::to_lowercase(f.filename.as_str());
            if names_image(lower.as_str()) {
                back.push(f);
                assert(images_of(rest@) + back@.reverse() =~= images_of(before)
                    + before_back.reverse());
            }
        }
    }
    assert(images_of(rest@) + back@.reverse() =~= back@.reverse());
    database::turned(back)
}

/// The page of the images.
pub open spec fn page_of_images(s: AppSettingsView, bot_running: bool, images: Seq<SizedFile>) -> ReplyView {
    reply::page_reply("image_hosting.html"@, files_context(s, bot_running, images, "/image_hosting"@))
}

/// The page of the images.
pub fn image_hosting(settings: &AppSettingsMap, bot_running: bool, images: &Vec<SizedFile>) -> (r: Reply)
    ensures
        r@ == page_of_images(settings@, bot_running, images@),
{
    files_page("image_hosting.html", settings, bot_running, images, "/image_hosting")
}

// ---------------------------------------------------------------------------------------------
// Pages of visitors
// ---------------------------------------------------------------------------------------------

/// The path of the page of a shared file.
pub open spec fn share_path(file_id: Seq<char>) -> JsonView {
    JsonView::Str("/share/"@ + file_id)
}

/// The address of a shared file.
pub open spec fn share_url(base_url: Seq<char>, f: FileView) -> Seq<char> {
    middleware::auth::without_slashes(base_url) + ("/d/"@ + display_of(f) + "/"@
        + outside::percent_encoded(encode_utf8(f.filename)))
}

/// What the page of a shared file is told.
pub open spec fn shared_file(f: FileView, filesize_mb: Seq<char>, url: Seq<char>) -> JsonView {
    JsonView::Obj(
        json::empty_fields().push(("filename"@, JsonView::Str(f.filename))).push(
            ("filesize"@, json::int_view(f.filesize)),
        ).push(("filesize_mb"@, JsonView::Str(filesize_mb))).push(
            ("upload_date"@, JsonView::Str(f.upload_date)),
        ).push(("upload_date_short"@, JsonView::Str(date_only(f.upload_date)))).push(
            ("file_url"@, JsonView::Str(url)),
        ).push(
            (
                "html_code"@,
                JsonView::Str("<a href=\""@ + url + "\">"@ + f.filename + "</a>"@),
            ),
        ).push(
            ("markdown_code"@, JsonView::Str("["@ + f.filename + "]("@ + url + ")"@)),
        ),
    )
}

/// The page of a shared file, under the identifier that was asked for.
pub open spec fn share_answer(
    file: Option<FileView>,
    file_id: Seq<char>,
    base_url: Seq<char>,
    cookie_header: Option<Seq<char>>,
    filesize_mb: Seq<char>,
) -> ReplyView {
    match file {
        Some(f) => if api_files::is_locked(f, cookie_header) {
            reply::page_reply(
                "share_unlock.html"@,
                json::empty_fields().push(("file_id"@, JsonView::Str(file_id))).push(
                    ("filename"@, JsonView::Str(f.filename)),
                ).push(("request_path"@, share_path(file_id))),
            )
        } else {
            reply::page_reply(
                "download.html"@,
                json::empty_fields().push(
                    ("file"@, shared_file(f, filesize_mb, share_url(base_url, f))),
                ).push(("request_path"@, share_path(file_id))),
            )
        },
        None => reply::text_reply(404, "File not found"@),
    }
}

fn share_url_of(base_url: &str, f: &FileMetadata) -> (r: String)
    ensures
        r@ == share_url(base_url@, f@),
{
    let mut relative = String::from_str("/d/");
    relative.append(display_id(f));
    relative.append("/");
    let name = outside::percent_encode(f.filename.as_str());
    relative.append(name.as_str());
    service::joined(middleware::auth::trim_slashes(base_url), relative.as_str())
}

fn shared_file_value(f: &FileMetadata, filesize_mb: &str, url: &str) -> (r: Json)
    ensures
        r@ == shared_file(f@, filesize_mb@, url@),
{
    let name = f.filename.as_str();
    let mut html_code = String::from_str("<a href=\"");
    html_code.append(url);
    html_code.append("\">");
    html_code.append(name);
    html_code.append("</a>");
    let mut markdown_code = String::from_str("[");
    markdown_code.append(name);
    markdown_code.append("](");
    markdown_code.append(url);
    markdown_code.append(")");
    let mut fields = json::no_fields();
    json::put(&mut fields, "filename", json::text_value(name));
    json::put(&mut fields, "filesize", json::int_value(f.filesize));
    json::put(&mut fields, "filesize_mb", json::text_value(filesize_mb));
    json::put(&mut fields, "upload_date", json::text_value(f.upload_date.as_str()));
    json::put(
        &mut fields,
        "upload_date_short",
        json::text_value(short_date(f.upload_date.as_str())),
    );
    json::put(&mut fields, "file_url", json::text_value(url));
    json::put(&mut fields, "html_code", json::text_value(html_code.as_str()));
    json::put(&mut fields, "markdown_code", json::text_value(markdown_code.as_str()));
    Json::Obj(fields)
}

/// The page of a shared file: that of the file itself, or where it is locked, the one that asks for
/// its password.
pub fn share_page(
    file: &Result<Option<FileMetadata>, String>,
    file_id: &str,
    settings: &AppSettingsMap,
    cookie_header: Option<&str>,
    filesize_mb: &str,
) -> (r: Reply)
    ensures
        r@ == share_answer(
            api_files::found_view(*file),
            file_id@,
            text::text_or_empty(settings@.base_url),
            text::opt_str_view(cookie_header),
            filesize_mb@,
        ),
{
    match file {
        Ok(Some(f)) => {
            let path = service::joined("/share/", file_id);
            if api_files::locked(f, cookie_header) {
                let mut context = json::no_fields();
                json::put(&mut context, "file_id", json::text_value(file_id));
                json::put(&mut context, "filename", json::text_value(f.filename.as_str()));
                json::put(&mut context, "request_path", json::text_value(path.as_str()));
                return reply::reply_page("share_unlock.html", context);
            }
            let url = share_url_of(config::borrow_or_empty(&settings.base_url), f);
            let mut context = json::no_fields();
            json::put(&mut context, "file", shared_file_value(f, filesize_mb, url.as_str()));
            json::put(&mut context, "request_path", json::text_value(path.as_str()));
            reply::reply_page("download.html", context)
        },
        _ => reply::reply_text(404, "File not found"),
    }
}

/// The password of a shared file.
#[derive(Debug, PartialEq)]
pub struct UnlockRequest {
    pub password: String,
}

/// The answer to the password of a shared file: the cookie that unlocks it, where the password is
/// right.
pub open spec fn unlock_answer(file: Option<FileView>, password: Seq<char>, secure: bool) -> ReplyView {
    match file {
        Some(f) => match f.share_password {
            Some(hash) => if auth::phc_accepts(password, hash) {
                reply::cookie_reply(
                    200,
                    auth::share_cookie(display_of(f), hash, secure),
                    reply::status_ok(),
                )
            } else {
                reply::error_reply(401, "密码错误"@, "wrong_password"@)
            },
            None => reply::json_reply(200, reply::status_ok()),
        },
        None => reply::error_reply(404, "文件未找到"@, "not_found"@),
    }
}

/// The answer to the password of a shared file that has one, by whether it is right.
pub open spec fn unlock_verdict(f: FileView, hash: Seq<char>, right: bool, secure: bool) -> ReplyView {
    if right {
        reply::cookie_reply(200, auth::share_cookie(display_of(f), hash, secure), reply::status_ok())
    } else {
        reply::error_reply(401, "密码错误"@, "wrong_password"@)
    }
}

/// The answer to the password of a shared file that has one, by whether it is right.
pub fn unlock_checked(f: &FileMetadata, hash: &str, right: bool, forwarded_proto: Option<&str>) -> (r: Reply)
    ensures
        r@ == unlock_verdict(
            f@,
            hash@,
            right,
            text::opt_str_view(forwarded_proto) == Some("https"@),
        ),
{
    if !right {
        return reply::reply_error(401, "密码错误", "wrong_password");
    }
    let secure = middleware::auth::is_https(forwarded_proto);
    let cookie = auth::build_share_cookie(display_id(f), hash, secure);
    reply::reply_cookie(200, cookie.as_str(), reply::status_ok_value())
}

/// The answer to the password of a shared file. A file without one counts as unlocked.
pub fn share_unlock(
    file: &Result<Option<FileMetadata>, String>,
    request: &UnlockRequest,
    forwarded_proto: Option<&str>,
) -> (r: Reply)
    ensures
        r@ == unlock_answer(
            api_files::found_view(*file),
            request.password@,
            text::opt_str_view(forwarded_proto) == Some("https"@),
        ),
{
    match file {
        Ok(Some(f)) => match &f.share_password {
            Some(hash) => {
                let right = auth::verify_password(request.password.as_str(), hash.as_str());
                unlock_checked(f, hash.as_str(), right, forwarded_proto)
            },
            None => reply::reply_json(200, reply::status_ok_value()),
        },
        _ => reply::reply_error(404, "文件未找到", "not_found"),
    }
}

/// The address of a static file.
pub open spec fn static_address(path: Option<Seq<char>>) -> Seq<char> {
    "/static"@ + text::text_or_empty(path)
}

/// The address of a static file.
pub fn static_url(path: Option<&str>) -> (r: String)
    ensures
        r@ == static_address(text::opt_str_view(path)),
{
    match path {
        Some(p) => service::joined("/static", p),
        None => {
            let r = String::from_str("/static");
            assert(r@ + Seq::<char>::empty() =~= r@);
            r
        },
    }
}

// ---------------------------------------------------------------------------------------------
// Laws
// ---------------------------------------------------------------------------------------------

/// Whoever gives the share password of a file gets a cookie that opens its page, its short link and
/// the link that its page gives.
pub proof fn law_unlocking_opens_page_and_download(
    f: FileView,
    hash: Seq<char>,
    password: Seq<char>,
    secure: bool,
    asked_id: Seq<char>,
    base_url: Seq<char>,
    filesize_mb: Seq<char>,
    download: Option<Seq<char>>,
    range: Option<Seq<char>>,
    is_head: bool,
)
    requires
        f.share_password == Some(hash),
        auth::phc_accepts(password, hash),
        !display_of(f).contains(';'),
        !display_of(f).contains('='),
    ensures
        ({
            let set_cookie = unlock_answer(Some(f), password, secure).headers[0].1;
            let pair = Some(text::split_on(set_cookie, ';')[0]);
            let served = api_files::ServeView {
                file_id: f.file_id,
                filename: f.filename,
                range,
                force_download: api_files::forces_download(download),
                is_head,
            };
            &&& !api_files::is_locked(f, pair)
            &&& share_answer(Some(f), asked_id, base_url, pair, filesize_mb) == reply::page_reply(
                "download.html"@,
                json::empty_fields().push(
                    ("file"@, shared_file(f, filesize_mb, share_url(base_url, f))),
                ).push(("request_path"@, share_path(asked_id))),
            )
            &&& api_files::short_download(Some(f), pair, download, range, is_head) == Ok::<
                _,
                ReplyView,
            >(served)
            &&& api_files::named_download(
                Some(Some(f)),
                pair,
                display_of(f),
                f.filename,
                download,
                range,
                is_head,
            ) == Ok::<_, ReplyView>(served)
        }),
{
    assert(auth::cookie_in(Seq::<char>::empty(), auth::share_name(display_of(f))) is None) by {
        let e = Seq::<char>::empty();
        let name = auth::share_name(display_of(f));
        text::lemma_position_found(e, ';');
        text::lemma_position_found(e, '=');
        assert(text::split_on(e, ';') =~= seq![e]);
        assert(text::trimmed(e) =~= e);
        assert(seq![e].drop_first() =~= Seq::<Seq<char>>::empty());
        assert(auth::cookie_among(Seq::<Seq<char>>::empty(), name) is None);
    }
    auth::law_share_cookie_unlocks(
        display_of(f),
        hash,
        secure,
        Seq::empty(),
        Seq::empty(),
    );
}

/// A wrong password gets no cookie, and nothing about the file but that the password is wrong.
pub proof fn law_wrong_share_password_gets_nothing(f: FileView, hash: Seq<char>, password: Seq<char>, secure: bool)
    requires
        f.share_password == Some(hash),
        !auth::phc_accepts(password, hash),
    ensures
        unlock_answer(Some(f), password, secure) == reply::error_reply(
            401,
            "密码错误"@,
            "wrong_password"@,
        ),
{
}

/// The page that asks for the share password tells a visitor the name of the file and no more of it.
pub proof fn law_locked_page_shows_the_name_only(
    f: FileView,
    other: FileView,
    file_id: Seq<char>,
    base_url: Seq<char>,
    cookie_header: Option<Seq<char>>,
    filesize_mb: Seq<char>,
    other_mb: Seq<char>,
)
    requires
        f.filename == other.filename,
        api_files::is_locked(f, cookie_header),
        api_files::is_locked(other, cookie_header),
    ensures
        share_answer(Some(f), file_id, base_url, cookie_header, filesize_mb) == share_answer(
            Some(other),
            file_id,
            base_url,
            cookie_header,
            other_mb,
        ),
{
}

/// An answer is this page, and its context holds this value under this name.
pub open spec fn shows(r: ReplyView, template: Seq<char>, key: Seq<char>, value: JsonView) -> bool {
    &&& r.status == 200
    &&& r.body matches reply::BodyView::Page { template: t, context } && t == template && json::lookup(
        context,
        key,
    ) == Some(value)
}

/// Pages are told whether the bot can run, whether it runs, and which settings it lacks: the token where
/// that is blank, and the channel where that is.
pub proof fn law_pages_are_told_about_the_bot(s: AppSettingsView, bot_running: bool)
    ensures
        json::field(bot_cfg(s, bot_running), "bot_ready"@) == Some(JsonView::Bool(config::bot_ready(s))),
        json::field(bot_cfg(s, bot_running), "bot_running"@) == Some(JsonView::Bool(bot_running)),
        json::field(bot_cfg(s, bot_running), "missing"@) == Some(json::texts_view(missing_settings(s))),
        missing_settings(s).contains("BOT_TOKEN"@) <==> text::trimmed(text::text_or_empty(s.bot_token)).len()
            == 0,
        missing_settings(s).contains("CHANNEL_NAME"@) <==> text::trimmed(
            text::text_or_empty(s.channel_name),
        ).len() == 0,
        missing_settings(s).len() == 0 <==> config::bot_ready(s),
        missing_settings(s).len() <= 2,
{
    broadcast use json::lemma_lookup_push;

    reveal_strlit("bot_ready");
    reveal_strlit("bot_running");
    reveal_strlit("missing");
    reveal_strlit("BOT_TOKEN");
    reveal_strlit("CHANNEL_NAME");
    assert("bot_ready"@.len() == 9);
    assert("bot_running"@.len() == 11);
    assert("missing"@.len() == 7);
    assert("BOT_TOKEN"@.len() == 9);
    assert("CHANNEL_NAME"@.len() == 12);
    assert("bot_ready"@[0] != "BOT_TOKEN"@[0]);
    let m = missing_settings(s);
    if text::trimmed(text::text_or_empty(s.bot_token)).len() == 0 {
        assert(m[0] == "BOT_TOKEN"@);
    }
    if text::trimmed(text::text_or_empty(s.channel_name)).len() == 0 {
        assert(m.last() == "CHANNEL_NAME"@);
    }
}

/// A file is shown under its short identifier, and under its own where it has none or an empty one.
pub proof fn law_files_are_shown_under_their_short_ids(f: FileView)
    ensures
        f.short_id is Some && f.short_id->Some_0.len() > 0 ==> display_of(f) == f.short_id->Some_0,
        f.short_id is None || f.short_id->Some_0.len() == 0 ==> display_of(f) == f.file_id,
{
}

/// Of a date with a time the date is what stands before the first blank; a date without a time is all
/// date.
pub proof fn law_dates_are_cut_at_the_blank(date: Seq<char>, time: Seq<char>)
    requires
        !date.contains(' '),
    ensures
        date_only(date + seq![' '] + time) == date,
        date_only(date) == date,
{
    let s = date + seq![' '] + time;
    text::lemma_split_once_join(date, ' ', time);
    text::lemma_position_found(s, ' ');
    text::lemma_position_found(date, ' ');
    assert(s[date.len() as int] == ' ');
    assert(date.take(date.len() as int) =~= date);
}

/// Pages are told of each file what is stored of it, its size as it is written out, and whether it has a
/// share password.
pub proof fn law_pages_are_told_of_each_file(f: SizedFile)
    ensures
        json::field(enriched(f), "file_id"@) == Some(JsonView::Str(f.file.file_id@)),
        json::field(enriched(f), "filename"@) == Some(JsonView::Str(f.file.filename@)),
        json::i64_of(json::field(enriched(f), "filesize"@)) == Some(f.file.filesize),
        json::field(enriched(f), "filesize_mb"@) == Some(JsonView::Str(f.filesize_mb@)),
        json::field(enriched(f), "upload_date"@) == Some(JsonView::Str(f.file.upload_date@)),
        json::field(enriched(f), "upload_date_short"@) == Some(
            JsonView::Str(date_only(f.file.upload_date@)),
        ),
        f.file.short_id matches Some(s) ==> json::field(enriched(f), "short_id"@) == Some(
            JsonView::Str(s@),
        ),
        json::field(enriched(f), "display_id"@) == Some(JsonView::Str(display_of(f.file@))),
        json::field(enriched(f), "has_password"@) == Some(JsonView::Bool(f.file.share_password is Some)),
{
    broadcast use json::lemma_lookup_push;

    reveal_strlit("file_id");
    reveal_strlit("short_id");
    reveal_strlit("filename");
    reveal_strlit("filesize");
    reveal_strlit("filesize_mb");
    reveal_strlit("upload_date");
    reveal_strlit("upload_date_short");
    reveal_strlit("display_id");
    reveal_strlit("has_password");
    assert("file_id"@.len() == 7);
    assert("short_id"@.len() == 8);
    assert("filename"@.len() == 8);
    assert("filesize"@.len() == 8);
    assert("filesize_mb"@.len() == 11);
    assert("upload_date"@.len() == 11);
    assert("upload_date_short"@.len() == 17);
    assert("display_id"@.len() == 10);
    assert("has_password"@.len() == 12);
    assert("short_id"@[0] != "filename"@[0]);
    assert("short_id"@[0] != "filesize"@[0]);
    assert("filename"@[4] != "filesize"@[4]);
    assert("filesize_mb"@[0] != "upload_date"@[0]);
}

/// Pages are told of every file, in their order.
pub proof fn law_pages_are_told_of_every_file(files: Seq<SizedFile>, i: int)
    requires
        0 <= i < files.len(),
    ensures
        enriched_all(files) matches JsonView::Arr(items) && items.len() == files.len() && items[i] == enriched(
            files[i],
        ) && json::field(items[i], "file_id"@) == Some(JsonView::Str(files[i].file.file_id@)),
{
    law_pages_are_told_of_each_file(files[i]);
}

/// The pages of the owner are the ones that they should be, and show the files that they are given, how
/// the bot is, and where they are.
pub proof fn law_pages_of_the_owner(s: AppSettingsView, bot_running: bool, files: Seq<SizedFile>)
    ensures
        shows(index_page(s, bot_running, files), "index.html"@, "files"@, enriched_all(files)),
        shows(index_page(s, bot_running, files), "index.html"@, "cfg"@, bot_cfg(s, bot_running)),
        shows(index_page(s, bot_running, files), "index.html"@, "request_path"@, JsonView::Str("/"@)),
        shows(page_of_images(s, bot_running, files), "image_hosting.html"@, "files"@, enriched_all(files)),
        shows(page_of_images(s, bot_running, files), "image_hosting.html"@, "cfg"@, bot_cfg(s, bot_running)),
        shows(
            page_of_images(s, bot_running, files),
            "image_hosting.html"@,
            "request_path"@,
            JsonView::Str("/image_hosting"@),
        ),
        shows(page_of_settings(s, bot_running), "settings.html"@, "cfg"@, bot_cfg(s, bot_running)),
        shows(
            page_of_settings(s, bot_running),
            "settings.html"@,
            "request_path"@,
            JsonView::Str("/settings"@),
        ),
        shows(login_page(), "pwd.html"@, "request_path"@, JsonView::Str("/login"@)),
        welcome_page().status == 200,
        welcome_page().body matches reply::BodyView::Page { template, context } && template
            == "welcome.html"@ && context.len() == 0,
{
    broadcast use json::lemma_lookup_push;

    reveal_strlit("cfg");
    reveal_strlit("files");
    reveal_strlit("request_path");
    assert("cfg"@.len() == 3);
    assert("files"@.len() == 5);
    assert("request_path"@.len() == 12);
}

/// A name is that of an image exactly where it ends so in lower case.
pub proof fn law_images_are_told_by_their_names(lower: Seq<char>)
    ensures
        is_image_name(lower) <==> ".jpg"@.is_suffix_of(lower) || ".jpeg"@.is_suffix_of(lower)
            || ".png"@.is_suffix_of(lower) || ".gif"@.is_suffix_of(lower) || ".webp"@.is_suffix_of(lower)
            || ".svg"@.is_suffix_of(lower) || ".bmp"@.is_suffix_of(lower) || ".ico"@.is_suffix_of(lower)
            || ".tiff"@.is_suffix_of(lower),
{
    let e = image_ends();
    assert(e[0] == ".jpg"@ && e[1] == ".jpeg"@ && e[2] == ".png"@ && e[3] == ".gif"@ && e[4] == ".webp"@
        && e[5] == ".svg"@ && e[6] == ".bmp"@ && e[7] == ".ico"@ && e[8] == ".tiff"@);
}

/// The images among files are all those whose names say so, and no others, in their order.
pub proof fn law_images_are_picked_out(files: Seq<FileMetadata>, f: FileMetadata)
    ensures
        images_of(files).contains(f) <==> files.contains(f) && is_image_name(
            outside::lower_text(f.filename@),
        ),
        images_of(files.push(f)) == if is_image_name(outside::lower_text(f.filename@)) {
            images_of(files).push(f)
        } else {
            images_of(files)
        },
        images_of(Seq::empty()).len() == 0,
    decreases files.len(),
{
    assert(files.push(f).drop_last() =~= files);
    let all = images_of(files);
    if files.len() > 0 {
        let less = files.drop_last();
        let before = images_of(less);
        law_images_are_picked_out(less, f);
        if all.contains(f) {
            let k = choose|k: int| 0 <= k < all.len() && all[k] == f;
            if k < before.len() {
                assert(before[k] == f);
                let i = choose|i: int| 0 <= i < less.len() && less[i] == f;
                assert(files[i] == f);
            } else {
                assert(files[files.len() - 1] == f);
            }
        }
        if files.contains(f) && is_image_name(outside::lower_text(f.filename@)) {
            let i = choose|i: int| 0 <= i < files.len() && files[i] == f;
            if i < less.len() {
                assert(less[i] == f);
                let k = choose|k: int| 0 <= k < before.len() && before[k] == f;
                assert(all[k] == f);
            } else {
                assert(all.last() == f);
            }
        }
    }
}

/// The link to a shared file stands under the base address, with or without a slash at its end, and bears
/// the identifier and the name of the file.
pub proof fn law_shared_links(base: Seq<char>, f: FileView)
    requires
        base.len() > 0 ==> base.last() != '/',
    ensures
        share_url(base, f) == base + "/d/"@ + display_of(f) + "/"@ + outside::percent_encoded(
            encode_utf8(f.filename),
        ),
        share_url(base.push('/'), f) == share_url(base, f),
{
    assert(base.push('/').drop_last() =~= base);
    assert(share_url(base, f) =~= base + "/d/"@ + display_of(f) + "/"@ + outside::percent_encoded(
        encode_utf8(f.filename),
    ));
}

/// The page of a shared file tells its name, its size and its date, and the link to it, plain and ready
/// to be put into pages.
pub proof fn law_shared_files_are_described(f: FileView, filesize_mb: Seq<char>, url: Seq<char>)
    ensures
        json::field(shared_file(f, filesize_mb, url), "filename"@) == Some(JsonView::Str(f.filename)),
        json::i64_of(json::field(shared_file(f, filesize_mb, url), "filesize"@)) == Some(f.filesize),
        json::field(shared_file(f, filesize_mb, url), "filesize_mb"@) == Some(JsonView::Str(filesize_mb)),
        json::field(shared_file(f, filesize_mb, url), "upload_date"@) == Some(JsonView::Str(f.upload_date)),
        json::field(shared_file(f, filesize_mb, url), "upload_date_short"@) == Some(
            JsonView::Str(date_only(f.upload_date)),
        ),
        json::field(shared_file(f, filesize_mb, url), "file_url"@) == Some(JsonView::Str(url)),
        json::field(shared_file(f, filesize_mb, url), "html_code"@) == Some(
            JsonView::Str("<a href=\""@ + url + "\">"@ + f.filename + "</a>"@),
        ),
        json::field(shared_file(f, filesize_mb, url), "markdown_code"@) == Some(
            JsonView::Str("["@ + f.filename + "]("@ + url + ")"@),
        ),
{
    broadcast use json::lemma_lookup_push;

    reveal_strlit("filename");
    reveal_strlit("filesize");
    reveal_strlit("filesize_mb");
    reveal_strlit("upload_date");
    reveal_strlit("upload_date_short");
    reveal_strlit("file_url");
    reveal_strlit("html_code");
    reveal_strlit("markdown_code");
    assert("filename"@.len() == 8);
    assert("filesize"@.len() == 8);
    assert("filesize_mb"@.len() == 11);
    assert("upload_date"@.len() == 11);
    assert("upload_date_short"@.len() == 17);
    assert("file_url"@.len() == 8);
    assert("html_code"@.len() == 9);
    assert("markdown_code"@.len() == 13);
    assert("filename"@[4] != "filesize"@[4]);
    assert("filename"@[4] != "file_url"@[4]);
    assert("filesize"@[4] != "file_url"@[4]);
    assert("filesize_mb"@[0] != "upload_date"@[0]);
}

/// The page of a shared file is the one that asks for its password where it is locked, which says the
/// name and no more, and the one of the file itself elsewhere. What is not stored is not found.
pub proof fn law_shared_pages(
    f: FileView,
    file_id: Seq<char>,
    base_url: Seq<char>,
    cookie_header: Option<Seq<char>>,
    filesize_mb: Seq<char>,
)
    ensures
        ({
            let r = share_answer(Some(f), file_id, base_url, cookie_header, filesize_mb);
            let open = f.share_password is None || auth::cookie_in_opt(
                cookie_header,
                auth::share_name(display_of(f)),
            ) == Some(auth::share_credential(f.share_password->Some_0));
            let path = JsonView::Str("/share/"@ + file_id);
            &&& open ==> shows(
                r,
                "download.html"@,
                "file"@,
                shared_file(f, filesize_mb, share_url(base_url, f)),
            ) && shows(r, "download.html"@, "request_path"@, path)
            &&& !open ==> shows(r, "share_unlock.html"@, "filename"@, JsonView::Str(f.filename)) && shows(
                r,
                "share_unlock.html"@,
                "file_id"@,
                JsonView::Str(file_id),
            ) && shows(r, "share_unlock.html"@, "request_path"@, path) && r.body->context.len() == 3
        }),
        share_answer(None, file_id, base_url, cookie_header, filesize_mb).status == 404,
        share_answer(None, file_id, base_url, cookie_header, filesize_mb).body == reply::BodyView::Text(
            "File not found"@,
        ),
{
    broadcast use json::lemma_lookup_push;

    reveal_strlit("file");
    reveal_strlit("filename");
    reveal_strlit("file_id");
    reveal_strlit("request_path");
    assert("file"@.len() == 4);
    assert("filename"@.len() == 8);
    assert("file_id"@.len() == 7);
    assert("request_path"@.len() == 12);
}

/// The right share password gets the cookie that unlocks the file, and a wrong one an error and no
/// cookie. A file without a password needs none, and what is not stored is not found.
pub proof fn law_share_passwords_are_answered(f: FileView, password: Seq<char>, secure: bool)
    ensures
        ({
            let r = unlock_answer(Some(f), password, secure);
            match f.share_password {
                Some(hash) => if auth::phc_accepts(password, hash) {
                    &&& r.status == 200
                    &&& r.headers.len() == 1
                    &&& r.headers[0] == ("Set-Cookie"@, auth::share_cookie(display_of(f), hash, secure))
                    &&& reply::tells(r, "status"@, JsonView::Str("ok"@))
                } else {
                    reply::refuses(r, 401, "wrong_password"@, "密码错误"@)
                },
                None => r.status == 200 && r.headers.len() == 0 && reply::tells(
                    r,
                    "status"@,
                    JsonView::Str("ok"@),
                ),
            }
        }),
        reply::refuses(unlock_answer(None, password, secure), 404, "not_found"@, "文件未找到"@),
{
    reply::law_status_and_message_are_told("ok"@, ""@);
    reply::law_errors_tell_code_and_message(401, "密码错误"@, "wrong_password"@);
    reply::law_errors_tell_code_and_message(404, "文件未找到"@, "not_found"@);
}

/// Once it is known whether the share password is right, the answer is the cookie or the error.
pub proof fn law_right_share_passwords_get_the_cookie(f: FileView, hash: Seq<char>, right: bool, secure: bool)
    ensures
        right ==> unlock_verdict(f, hash, right, secure).status == 200 && unlock_verdict(
            f,
            hash,
            right,
            secure,
        ).headers.len() == 1 && unlock_verdict(f, hash, right, secure).headers[0] == (
            "Set-Cookie"@,
            auth::share_cookie(display_of(f), hash, secure),
        ),
        !right ==> reply::refuses(unlock_verdict(f, hash, right, secure), 401, "wrong_password"@, "密码错误"@),
{
    reply::law_errors_tell_code_and_message(401, "密码错误"@, "wrong_password"@);
}

/// Static files stand under their own path.
pub proof fn law_static_addresses(path: Seq<char>)
    ensures
        static_address(Some(path)) == "/static"@ + path,
        static_address(None) == "/static"@,
{
    assert(static_address(None) =~= "/static"@);
}

} // verus!
