//! Reading and changing the settings, and trying out a bot and a channel.

use vstd::prelude::*;

use crate::auth;
use crate::auth::CookiePolicy;
use crate::config;
use crate::config::{AppSettingsMap, AppSettingsView};
use crate::database;
use crate::json;
use crate::json::{Json, JsonView};
use crate::middleware;
use crate::outside;
use crate::reply;
use crate::reply::{Reply, ReplyView};
use crate::routes::api_auth;
use crate::routes::api_files;
use crate::telegram::service;
use crate::telegram::service::ApiCall;
use crate::text;

verus! {

/// The password that is to be in force.
#[derive(Debug, PartialEq)]
pub struct PasswordRequest {
    pub password: String,
}

/// The settings that are to be changed. One that is `None` stays as it is.
#[derive(Debug, PartialEq)]
pub struct AppConfigRequest {
    pub bot_token: Option<String>,
    pub channel_name: Option<String>,
    pub pass_word: Option<String>,
    pub base_url: Option<String>,
}

/// The bot and the channel that are to be tried out. Those in force are where there is `None`.
#[derive(Debug, PartialEq)]
pub struct VerifyRequest {
    pub bot_token: Option<String>,
    pub channel_name: Option<String>,
}

/// How the bot is.
#[derive(Debug, PartialEq)]
pub struct BotStatus {
    pub ready: bool,
    pub running: bool,
    pub error: Option<String>,
}

// ---------------------------------------------------------------------------------------------
// Checking settings
// ---------------------------------------------------------------------------------------------

/// A fault of the settings: the status, the message and the code of the answer.
pub open spec fn fault_view(f: (u16, &'static str, &'static str)) -> (u16, Seq<char>, Seq<char>) {
    (f.0, f.1@, f.2@)
}

/// A token has the wrong form: it is not blank, and has no colon or less than 20 bytes.
pub open spec fn bad_token(t: Seq<char>) -> bool {
    t.len() > 0 && (!t.contains(':') || text::byte_len(t) < 20)
}

/// A channel has the wrong form: it is not blank, and begins neither with `@` nor with `-100`.
pub open spec fn bad_channel(c: Seq<char>) -> bool {
    c.len() > 0 && c[0] != '@' && !"-100"@.is_prefix_of(c)
}

/// An address has the wrong form: it is not blank, and begins with no scheme of the web.
pub open spec fn bad_base_url(u: Seq<char>) -> bool {
    u.len() > 0 && !"http://"@.is_prefix_of(u) && !"https://"@.is_prefix_of(u)
}

/// The setting without the white space round it; the empty text where there is none.
pub open spec fn plain(v: Option<Seq<char>>) -> Seq<char> {
    match v {
        Some(s) => text::trimmed(s),
        None => Seq::empty(),
    }
}

/// The first fault of settings.
pub open spec fn config_fault(s: AppSettingsView) -> Option<(u16, Seq<char>, Seq<char>)> {
    if bad_token(plain(s.bot_token)) {
        Some((400, "BOT_TOKEN 格式不正确"@, "invalid_bot_token"@))
    } else if bad_channel(plain(s.channel_name)) {
        Some((400, "CHANNEL_NAME 格式不正确（@username 或 -100...）"@, "invalid_channel"@))
    } else if bad_base_url(plain(s.base_url)) {
        Some((400, "BASE_URL 必须以 http:// 或 https:// 开头"@, "invalid_base_url"@))
    } else {
        None
    }
}

fn token_is_bad(t: &str) -> (r: bool)
    ensures
        r == bad_token(t@),
{
    proof {
        text::lemma_byte_len(t@);
        text::lemma_position_found(t@, ':');
    }
    let x = text::to_chars(t);
    x.len() > 0 && (text::find_from(&x, 0, ':') == x.len() || t.as_bytes().len() < 20)
}

fn channel_is_bad(c: &str) -> (r: bool)
    ensures
        r == bad_channel(c@),
{
    c.unicode_len() > 0 && c.get_char(0) != '@' && !text::starts_with(c, "-100")
}

fn base_url_is_bad(u: &str) -> (r: bool)
    ensures
        r == bad_base_url(u@),
{
    u.unicode_len() > 0 && !text::starts_with(u, "http://") && !text::starts_with(u, "https://")
}

fn plain_text<'a>(v: &'a Option<String>) -> (r: &'a str)
    ensures
        r@ == plain(text::opt_view(*v)),
{
    match v {
        Some(s) => text::trim(s.as_str()),
        None => {
            proof {
                reveal_strlit("");
                assert(""@ =~= Seq::<char>::empty());
            }
            ""
        },
    }
}

/// Checks the forms of settings.
pub fn validate_config(cfg: &AppSettingsMap) -> (r: Result<(), (u16, &'static str, &'static str)>)
    ensures
        match config_fault(cfg@) {
            None => r is Ok,
            Some(f) => r matches Err(g) && fault_view(g) == f,
        },
{
    if token_is_bad(plain_text(&cfg.bot_token)) {
        return Err((400, "BOT_TOKEN 格式不正确", "invalid_bot_token"));
    }
    if channel_is_bad(plain_text(&cfg.channel_name)) {
        return Err((400, "CHANNEL_NAME 格式不正确（@username 或 -100...）", "invalid_channel"));
    }
    if base_url_is_bad(plain_text(&cfg.base_url)) {
        return Err((400, "BASE_URL 必须以 http:// 或 https:// 开头", "invalid_base_url"));
    }
    Ok(())
}

// ---------------------------------------------------------------------------------------------
// Merging settings
// ---------------------------------------------------------------------------------------------

/// What becomes of the password.
#[derive(Debug, PartialEq)]
pub enum PasswordChange {
    /// It stays.
    Keep,
    /// It goes, and the session with it.
    Clear,
    /// It is this one, as it was hashed, and sessions have this token from now on.
    Renew { hashed: Result<String, String>, token: String },
}

/// A setting after a change of it.
pub open spec fn changed(existing: Option<Seq<char>>, incoming: Option<Seq<char>>) -> Option<Seq<char>> {
    match incoming {
        Some(_) => database::normed(incoming),
        None => existing,
    }
}

/// The fault of settings whose password could not be hashed.
pub open spec fn hash_fault() -> (u16, Seq<char>, Seq<char>) {
    (500, "密码哈希失败"@, "hash_error"@)
}

/// Settings after a change of them, where the password and the session token come to be these.
pub open spec fn changed_settings(
    existing: AppSettingsView,
    incoming: AppConfigRequest,
    pass_word: Option<Seq<char>>,
    session_token: Option<Seq<char>>,
) -> AppSettingsView {
    AppSettingsView {
        bot_token: changed(existing.bot_token, text::opt_view(incoming.bot_token)),
        channel_name: changed(existing.channel_name, text::opt_view(incoming.channel_name)),
        pass_word,
        picgo_api_key: existing.picgo_api_key,
        base_url: changed(existing.base_url, text::opt_view(incoming.base_url)),
        session_token,
    }
}

/// What settings come to be when they are changed, with what becomes of the password.
pub open spec fn is_changed(
    existing: AppSettingsView,
    incoming: AppConfigRequest,
    password: PasswordChange,
    r: Result<AppSettingsView, (u16, Seq<char>, Seq<char>)>,
) -> bool {
    match password {
        PasswordChange::Keep => r == Ok::<_, (u16, Seq<char>, Seq<char>)>(
            changed_settings(existing, incoming, existing.pass_word, existing.session_token),
        ),
        PasswordChange::Clear => r == Ok::<_, (u16, Seq<char>, Seq<char>)>(
            changed_settings(existing, incoming, None, None),
        ),
        PasswordChange::Renew { hashed: Ok(h), token } => r == Ok::<_, (u16, Seq<char>, Seq<char>)>(
            changed_settings(existing, incoming, Some(h@), Some(token@)),
        ),
        PasswordChange::Renew { hashed: Err(_), token: _ } => r == Err::<AppSettingsView, _>(hash_fault()),
    }
}

fn change(existing: &Option<String>, incoming: &Option<String>) -> (r: Option<String>)
    ensures
        text::opt_view(r) == changed(text::opt_view(*existing), text::opt_view(*incoming)),
{
    match incoming {
        Some(s) => database::norm(Some(s.as_str())),
        None => config::copy_text(existing),
    }
}

/// Settings after a change of them, with what becomes of the password.
pub fn merge_config_with(
    existing: &AppSettingsMap,
    incoming: &AppConfigRequest,
    password: PasswordChange,
) -> (r: Result<AppSettingsMap, (u16, &'static str, &'static str)>)
    ensures
        is_changed(existing@, *incoming, password, merged_view(r)),
{
    let (pass_word, session_token) = match password {
        PasswordChange::Keep => (
            config::copy_text(&existing.pass_word),
            config::copy_text(&existing.session_token),
        ),
        PasswordChange::Clear => (None, None),
        PasswordChange::Renew { hashed, token } => match hashed {
            Ok(h) => (Some(h), Some(token)),
            Err(_) => {
                return Err((500, "密码哈希失败", "hash_error"));
            },
        },
    };
    Ok(
        AppSettingsMap {
            bot_token: change(&existing.bot_token, &incoming.bot_token),
            channel_name: change(&existing.channel_name, &incoming.channel_name),
            pass_word,
            picgo_api_key: config::copy_text(&existing.picgo_api_key),
            base_url: change(&existing.base_url, &incoming.base_url),
            session_token,
        },
    )
}

/// What settings come to be when they are changed. A password that is not given stays; a blank one
/// goes, with its session; any other is stored as a hash that accepts it, and gets a fresh session
/// token. One that is too long to be hashed is refused, and nothing is changed.
pub open spec fn is_merged(
    existing: AppSettingsView,
    incoming: AppConfigRequest,
    r: Result<AppSettingsView, (u16, Seq<char>, Seq<char>)>,
) -> bool {
    match text::opt_view(incoming.pass_word) {
        None => r == Ok::<_, (u16, Seq<char>, Seq<char>)>(
            changed_settings(existing, incoming, existing.pass_word, existing.session_token),
        ),
        Some(p) => if text::trimmed(p).len() == 0 {
            r == Ok::<_, (u16, Seq<char>, Seq<char>)>(changed_settings(existing, incoming, None, None))
        } else {
            match r {
                Ok(s) => {
                    &&& auth::can_be_hashed(text::trimmed(p))
                    &&& s.pass_word is Some && s.session_token is Some
                    &&& outside::is_default_phc(s.pass_word->Some_0)
                    &&& auth::phc_accepts(text::trimmed(p), s.pass_word->Some_0)
                    &&& auth::is_session_token(s.session_token->Some_0)
                    &&& s == changed_settings(existing, incoming, s.pass_word, s.session_token)
                },
                Err(f) => !auth::can_be_hashed(text::trimmed(p)) && f == hash_fault(),
            }
        },
    }
}

/// What came of merging settings.
pub open spec fn merged_view(r: Result<AppSettingsMap, (u16, &'static str, &'static str)>) -> Result<
    AppSettingsView,
    (u16, Seq<char>, Seq<char>),
> {
    match r {
        Ok(s) => Ok(s@),
        Err(f) => Err(fault_view(f)),
    }
}

/// Settings after a change of them.
pub fn merge_config(existing: &AppSettingsMap, incoming: &AppConfigRequest) -> (r: Result<
    AppSettingsMap,
    (u16, &'static str, &'static str),
>)
    ensures
        is_merged(existing@, *incoming, merged_view(r)),
{
    let password = match &incoming.pass_word {
        None => PasswordChange::Keep,
        Some(p) => {
            let p = text::trim(p.as_str());
            if p.unicode_len() == 0 {
                PasswordChange::Clear
            } else {
                PasswordChange::Renew {
                    hashed: auth::hash_password(p),
                    token: auth::generate_session_token(),
                }
            }
        },
    };
    merge_config_with(existing, incoming, password)
}

/// The answer to a fault.
pub open spec fn fault_reply(f: (u16, Seq<char>, Seq<char>)) -> ReplyView {
    reply::error_reply(f.0, f.1, f.2)
}

/// The settings to save, where merging them went well and they have the right forms; else the answer.
pub open spec fn is_checked(
    merged: Result<AppSettingsView, (u16, Seq<char>, Seq<char>)>,
    r: Result<AppSettingsMap, Reply>,
) -> bool {
    match merged {
        Ok(s) => match config_fault(s) {
            None => r matches Ok(t) && t@ == s,
            Some(f) => r matches Err(e) && e@ == fault_reply(f),
        },
        Err(f) => r matches Err(e) && e@ == fault_reply(f),
    }
}

/// The settings to save, where merging them went well and they have the right forms; else the answer.
pub fn checked_config(merged: Result<AppSettingsMap, (u16, &'static str, &'static str)>) -> (r: Result<
    AppSettingsMap,
    Reply,
>)
    ensures
        is_checked(merged_view(merged), r),
{
    match merged {
        Ok(s) => match validate_config(&s) {
            Ok(_) => Ok(s),
            Err(f) => Err(reply::reply_error(f.0, f.1, f.2)),
        },
        Err(f) => Err(reply::reply_error(f.0, f.1, f.2)),
    }
}

/// The settings to save when they are changed; the answer where they cannot be.
pub open spec fn saves(
    existing: AppSettingsView,
    incoming: AppConfigRequest,
    r: Result<AppSettingsMap, Reply>,
) -> bool {
    match r {
        Ok(s) => {
            &&& config_fault(s@) is None
            &&& is_merged(existing, incoming, Ok(s@))
        },
        Err(e) => exists|m: Result<AppSettingsView, (u16, Seq<char>, Seq<char>)>|
            {
                &&& #[trigger] is_merged(existing, incoming, m)
                &&& match m {
                    Ok(s) => config_fault(s) matches Some(f) && e@ == fault_reply(f),
                    Err(f) => e@ == fault_reply(f),
                }
            },
    }
}

/// The settings to save when they are changed; the answer where they cannot be.
pub fn config_to_save(existing: Result<AppSettingsMap, String>, incoming: &AppConfigRequest) -> (r: Result<
    AppSettingsMap,
    Reply,
>)
    ensures
        saves(api_auth::settings_or_none(existing), *incoming, r),
{
    let current = api_auth::settings_or_empty(existing);
    let merged = merge_config(&current, incoming);
    assert(is_merged(current@, *incoming, merged_view(merged)));
    checked_config(merged)
}

/// The answer where the work behind a request broke down.
pub open spec fn breakdown() -> ReplyView {
    reply::error_reply(500, "内部错误"@, "internal_error"@)
}

/// The answer where the work behind a request broke down.
pub fn internal_error() -> (r: Reply)
    ensures
        r@ == breakdown(),
{
    reply::reply_error(500, "内部错误", "internal_error")
}

/// The answer to settings that were saved and not applied, or could not be saved.
pub open spec fn saved_answer(saved: Result<(), String>) -> ReplyView {
    match saved {
        Ok(_) => reply::json_reply(200, reply::status_message("ok"@, "已保存（未应用）"@)),
        Err(_) => reply::error_reply(500, "保存配置失败"@, "save_error"@),
    }
}

/// The answer to settings that were saved and not applied.
pub fn save_config_only(saved: Result<(), String>) -> (r: Reply)
    ensures
        r@ == saved_answer(saved),
{
    match saved {
        Ok(_) => reply::reply_json(200, reply::status_message_value("ok", "已保存（未应用）")),
        Err(_) => save_failed(),
    }
}

/// The cookie that goes with settings: that of the session, where there is a password and a session
/// token; else the one that clears it.
pub open spec fn settings_cookie(s: AppSettingsView, secure: bool, max_age: nat) -> Seq<char> {
    if text::text_or_empty(s.pass_word).len() > 0 && text::text_or_empty(s.session_token).len() > 0 {
        auth::session_cookie(text::text_or_empty(s.session_token), secure, max_age)
    } else {
        auth::clear_cookie()
    }
}

/// The body of the answer to settings that were saved and applied.
pub open spec fn applied_body(bot: BotStatus) -> JsonView {
    JsonView::Obj(
        json::empty_fields().push(("status"@, JsonView::Str("ok"@))).push(
            ("message"@, JsonView::Str("已保存并应用"@)),
        ).push(
            (
                "bot"@,
                JsonView::Obj(
                    json::empty_fields().push(("ready"@, JsonView::Bool(bot.ready))).push(
                        ("running"@, JsonView::Bool(bot.running)),
                    ),
                ),
            ),
        ),
    )
}

/// The answer to settings that were saved and applied.
pub open spec fn applied_answer(
    s: AppSettingsView,
    bot: BotStatus,
    forwarded_proto: Option<Seq<char>>,
    policy: CookiePolicy,
) -> ReplyView {
    reply::cookie_reply(
        200,
        settings_cookie(
            s,
            forwarded_proto == Some("https"@) || policy.secure_override,
            policy.max_age_secs as nat,
        ),
        applied_body(bot),
    )
}

/// The answer to settings that could not be saved.
pub open spec fn saving_failure() -> ReplyView {
    reply::error_reply(500, "保存配置失败"@, "save_error"@)
}

/// The answer to settings that could not be saved.
pub fn save_failed() -> (r: Reply)
    ensures
        r@ == saving_failure(),
{
    reply::reply_error(500, "保存配置失败", "save_error")
}

/// The answer to settings that were saved and applied, with the bot as it is then.
pub fn save_and_apply(
    merged: &AppSettingsMap,
    bot: &BotStatus,
    forwarded_proto: Option<&str>,
    policy: &CookiePolicy,
) -> (r: Reply)
    ensures
        r@ == applied_answer(merged@, *bot, text::opt_str_view(forwarded_proto), *policy),
{
    let session_token = config::borrow_or_empty(&merged.session_token);
    let pwd = config::borrow_or_empty(&merged.pass_word);
    let secure = middleware::auth::is_https(forwarded_proto);
    let cookie = if pwd.unicode_len() > 0 && session_token.unicode_len() > 0 {
        auth::build_cookie(session_token, secure, policy)
    } else {
        auth::build_clear_cookie()
    };
    let mut state = json::no_fields();
    json::put(&mut state, "ready", Json::Bool(bot.ready));
    json::put(&mut state, "running", Json::Bool(bot.running));
    let mut fields = json::no_fields();
    json::put(&mut fields, "status", json::text_value("ok"));
    json::put(&mut fields, "message", json::text_value("已保存并应用"));
    json::put(&mut fields, "bot", Json::Obj(state));
    reply::reply_cookie(200, cookie.as_str(), Json::Obj(fields))
}

/// The answer to a reset of the settings.
pub open spec fn reset_answer() -> ReplyView {
    reply::cookie_reply(200, auth::clear_cookie(), reply::status_message("ok"@, "配置已重置"@))
}

/// The answer to a reset of the settings.
pub fn reset_config() -> (r: Reply)
    ensures
        r@ == reset_answer(),
{
    let cookie = auth::build_clear_cookie();
    reply::reply_cookie(200, cookie.as_str(), reply::status_message_value("ok", "配置已重置"))
}

// ---------------------------------------------------------------------------------------------
// The password alone
// ---------------------------------------------------------------------------------------------

/// Settings with another password, as it was hashed, and another session token; the answer where it
/// could not be hashed.
pub open spec fn has_password(
    current: AppSettingsView,
    hashed: Result<String, String>,
    token: Seq<char>,
    r: Result<AppSettingsMap, Reply>,
) -> bool {
    match hashed {
        Ok(h) => r matches Ok(s) && s@ == (AppSettingsView {
            pass_word: Some(h@),
            session_token: Some(token),
            ..current
        }),
        Err(_) => r matches Err(e) && e@ == fault_reply(hash_fault()),
    }
}

/// The settings with another password, as it was hashed, and another session token; the answer where
/// it could not be hashed.
pub fn with_password(current: Result<AppSettingsMap, String>, hashed: Result<String, String>, token: String) -> (r: Result<
    AppSettingsMap,
    Reply,
>)
    ensures
        has_password(api_auth::settings_or_none(current), hashed, token@, r),
{
    match api_files::hashed_or_refusal(hashed) {
        Ok(h) => {
            let mut s = api_auth::settings_or_empty(current);
            s.pass_word = Some(h);
            s.session_token = Some(token);
            Ok(s)
        },
        Err(e) => Err(e),
    }
}

/// The settings to save when the password is set.
pub open spec fn sets_password(
    password: Seq<char>,
    current: AppSettingsView,
    r: Result<AppSettingsMap, Reply>,
) -> bool {
    match r {
        Ok(s) => {
            &&& auth::can_be_hashed(text::trimmed(password))
            &&& s@.pass_word is Some && s@.session_token is Some
            &&& outside::is_default_phc(s@.pass_word->Some_0)
            &&& auth::phc_accepts(text::trimmed(password), s@.pass_word->Some_0)
            &&& auth::is_session_token(s@.session_token->Some_0)
            &&& s@ == (AppSettingsView {
                pass_word: s@.pass_word,
                session_token: s@.session_token,
                ..current
            })
        },
        Err(e) => !auth::can_be_hashed(text::trimmed(password)) && e@ == fault_reply(hash_fault()),
    }
}

/// The settings to save when the password is set: it is stored as a hash that accepts it without the
/// white space round it, and gets a fresh session token. One that is too long to be hashed is refused.
pub fn set_password(request: &PasswordRequest, current: Result<AppSettingsMap, String>) -> (r: Result<
    AppSettingsMap,
    Reply,
>)
    ensures
        sets_password(request.password@, api_auth::settings_or_none(current), r),
{
    let hashed = auth::hash_password(text::trim(request.password.as_str()));
    with_password(current, hashed, auth::generate_session_token())
}

/// The answer to a password that was saved, or could not be.
pub open spec fn password_answer(saved: Result<(), String>) -> ReplyView {
    match saved {
        Ok(_) => reply::json_reply(200, reply::status_message("ok"@, "密码已成功设置。"@)),
        Err(_) => reply::error_reply(500, "无法写入密码。"@, "write_password_failed"@),
    }
}

/// The answer to a password that was saved, or could not be.
pub fn password_saved(saved: Result<(), String>) -> (r: Reply)
    ensures
        r@ == password_answer(saved),
{
    match saved {
        Ok(_) => reply::reply_json(200, reply::status_message_value("ok", "密码已成功设置。")),
        Err(_) => reply::reply_error(500, "无法写入密码。", "write_password_failed"),
    }
}

// ---------------------------------------------------------------------------------------------
// Showing the settings
// ---------------------------------------------------------------------------------------------

/// What is shown of settings. Of secrets it is whether they are set.
pub open spec fn shown_settings(s: AppSettingsView) -> JsonView {
    JsonView::Obj(
        json::empty_fields().push(
            ("BOT_TOKEN_SET"@, JsonView::Bool(text::text_or_empty(s.bot_token).len() > 0)),
        ).push(("CHANNEL_NAME"@, JsonView::Str(text::text_or_empty(s.channel_name)))).push(
            ("PASS_WORD_SET"@, JsonView::Bool(text::text_or_empty(s.pass_word).len() > 0)),
        ).push(("BASE_URL"@, JsonView::Str(text::text_or_empty(s.base_url)))),
    )
}

/// What is shown of the bot.
pub open spec fn shown_bot(bot: BotStatus) -> JsonView {
    JsonView::Obj(
        json::empty_fields().push(("ready"@, JsonView::Bool(bot.ready))).push(
            ("running"@, JsonView::Bool(bot.running)),
        ).push(("error"@, json::opt_text_view(text::opt_view(bot.error)))),
    )
}

/// The settings and the bot, as they are shown.
pub open spec fn config_answer(s: AppSettingsView, bot: BotStatus) -> ReplyView {
    reply::json_reply(
        200,
        JsonView::Obj(
            json::empty_fields().push(("status"@, JsonView::Str("ok"@))).push(
                ("cfg"@, shown_settings(s)),
            ).push(("bot"@, shown_bot(bot))),
        ),
    )
}

/// The settings and the bot, as they are shown.
pub fn get_app_config(settings: &AppSettingsMap, bot: &BotStatus) -> (r: Reply)
    ensures
        r@ == config_answer(settings@, *bot),
{
    let mut cfg = json::no_fields();
    let token_set = config::borrow_or_empty(&settings.bot_token).unicode_len() > 0;
    let password_set = config::borrow_or_empty(&settings.pass_word).unicode_len() > 0;
    json::put(&mut cfg, "BOT_TOKEN_SET", Json::Bool(token_set));
    json::put(
        &mut cfg,
        "CHANNEL_NAME",
        json::text_value(config::borrow_or_empty(&settings.channel_name)),
    );
    json::put(&mut cfg, "PASS_WORD_SET", Json::Bool(password_set));
    json::put(&mut cfg, "BASE_URL", json::text_value(config::borrow_or_empty(&settings.base_url)));
    let mut state = json::no_fields();
    json::put(&mut state, "ready", Json::Bool(bot.ready));
    json::put(&mut state, "running", Json::Bool(bot.running));
    json::put(&mut state, "error", json::opt_text_value(config::borrow_text(&bot.error)));
    let mut fields = json::no_fields();
    json::put(&mut fields, "status", json::text_value("ok"));
    json::put(&mut fields, "cfg", Json::Obj(cfg));
    json::put(&mut fields, "bot", Json::Obj(state));
    reply::reply_json(200, Json::Obj(fields))
}

// ---------------------------------------------------------------------------------------------
// Trying out a bot and a channel
// ---------------------------------------------------------------------------------------------

/// What became of a call that tries something out.
#[derive(Debug, PartialEq)]
pub enum TryOutcome {
    /// The call was not answered.
    Unreachable,
    /// The answer could not be read.
    Unreadable,
    /// The answer.
    Answered(Json),
}

/// A value that was given, or the one in force, or the empty text.
pub open spec fn given_or(given: Option<Seq<char>>, in_force: Option<Seq<char>>) -> Seq<char> {
    match given {
        Some(s) => s,
        None => text::text_or_empty(in_force),
    }
}

fn take_given(given: &Option<String>, in_force: &Option<String>) -> (r: String)
    ensures
        r@ == given_or(text::opt_view(*given), text::opt_view(*in_force)),
{
    match given {
        Some(s) => s.clone(),
        None => String::from_str(config::borrow_or_empty(in_force)),
    }
}

/// The answer where a bot is not available.
pub open spec fn bot_unavailable(message: Seq<char>) -> ReplyView {
    reply::json_reply(
        200,
        JsonView::Obj(
            json::empty_fields().push(("status"@, JsonView::Str("ok"@))).push(
                ("ok"@, JsonView::Bool(false)),
            ).push(("available"@, JsonView::Bool(false))).push(("message"@, JsonView::Str(message))),
        ),
    )
}

/// The answer where a bot is available.
pub open spec fn bot_available(username: Seq<char>) -> ReplyView {
    reply::json_reply(
        200,
        JsonView::Obj(
            json::empty_fields().push(("status"@, JsonView::Str("ok"@))).push(
                ("ok"@, JsonView::Bool(true)),
            ).push(("available"@, JsonView::Bool(true))).push(
                (
                    "result"@,
                    JsonView::Obj(json::empty_fields().push(("username"@, JsonView::Str(username)))),
                ),
            ),
        ),
    )
}

fn bot_unavailable_reply(message: &str) -> (r: Reply)
    ensures
        r@ == bot_unavailable(message@),
{
    let mut fields = json::no_fields();
    json::put(&mut fields, "status", json::text_value("ok"));
    json::put(&mut fields, "ok", Json::Bool(false));
    json::put(&mut fields, "available", Json::Bool(false));
    json::put(&mut fields, "message", json::text_value(message));
    reply::reply_json(200, Json::Obj(fields))
}

fn bot_available_reply(username: &str) -> (r: Reply)
    ensures
        r@ == bot_available(username@),
{
    let mut result = json::no_fields();
    json::put(&mut result, "username", json::text_value(username));
    let mut fields = json::no_fields();
    json::put(&mut fields, "status", json::text_value("ok"));
    json::put(&mut fields, "ok", Json::Bool(true));
    json::put(&mut fields, "available", Json::Bool(true));
    json::put(&mut fields, "result", Json::Obj(result));
    reply::reply_json(200, Json::Obj(fields))
}

/// A field of a field of a value, as a text.
pub open spec fn inner_text(j: JsonView, outer: Seq<char>, inner: Seq<char>) -> Option<Seq<char>> {
    match json::field(j, outer) {
        Some(o) => json::text_of(json::field(o, inner)),
        None => None,
    }
}

/// What an answer says went wrong.
pub open spec fn description(j: JsonView) -> Seq<char> {
    match json::text_of(json::field(j, "description"@)) {
        Some(d) => d,
        None => "Unknown error"@,
    }
}

fn description_of<'a>(j: &'a Json) -> (r: &'a str)
    ensures
        r@ == description(j@),
{
    match j.get_text("description") {
        Some(d) => d,
        None => "Unknown error",
    }
}

/// A bot with this token is tried out: its address is asked, or there is no token to ask with.
pub open spec fn asks_about_bot(token: Seq<char>, r: Result<String, Reply>) -> bool {
    if token.len() == 0 {
        r matches Err(e) && e@ == bot_unavailable("未提供 BOT_TOKEN"@)
    } else {
        r matches Ok(url) && url@ == service::api_address(token, "getMe"@)
    }
}

/// To try out a bot, ask this address about it; without a token there is nothing to ask.
pub fn begin_verify_bot(request: &VerifyRequest, settings: &AppSettingsMap) -> (r: Result<String, Reply>)
    ensures
        asks_about_bot(given_or(text::opt_view(request.bot_token), settings@.bot_token), r),
{
    let token = take_given(&request.bot_token, &settings.bot_token);
    if token.as_str().unicode_len() == 0 {
        return Err(bot_unavailable_reply("未提供 BOT_TOKEN"));
    }
    Ok(service::bot_api_url(token.as_str(), "getMe"))
}

/// The answer to trying out a bot.
pub open spec fn bot_verdict(outcome: TryOutcome) -> ReplyView {
    match outcome {
        TryOutcome::Unreachable => bot_unavailable("连接失败"@),
        TryOutcome::Unreadable => bot_unavailable("解析响应失败"@),
        TryOutcome::Answered(j) => if json::is_true(json::field(j@, "ok"@)) {
            bot_available(
                match inner_text(j@, "result"@, "username"@) {
                    Some(u) => u,
                    None => "unknown"@,
                },
            )
        } else {
            bot_unavailable(description(j@))
        },
    }
}

/// The answer to trying out a bot.
pub fn verify_bot(outcome: &TryOutcome) -> (r: Reply)
    ensures
        r@ == bot_verdict(*outcome),
{
    match outcome {
        TryOutcome::Unreachable => bot_unavailable_reply("连接失败"),
        TryOutcome::Unreadable => bot_unavailable_reply("解析响应失败"),
        TryOutcome::Answered(j) => {
            if j.field_is_true("ok") {
                let username = match j.get("result") {
                    Some(result) => match result.get_text("username") {
                        Some(u) => u,
                        None => "unknown",
                    },
                    None => "unknown",
                };
                bot_available_reply(username)
            } else {
                bot_unavailable_reply(description_of(j))
            }
        },
    }
}

/// The answer where a channel is not available.
pub open spec fn channel_unavailable(message: Seq<char>) -> ReplyView {
    reply::json_reply(
        200,
        JsonView::Obj(
            json::empty_fields().push(("status"@, JsonView::Str("ok"@))).push(
                ("available"@, JsonView::Bool(false)),
            ).push(("message"@, JsonView::Str(message))),
        ),
    )
}

/// The answer where a channel is available.
pub open spec fn channel_available() -> ReplyView {
    reply::json_reply(
        200,
        JsonView::Obj(
            json::empty_fields().push(("status"@, JsonView::Str("ok"@))).push(
                ("available"@, JsonView::Bool(true)),
            ),
        ),
    )
}

fn channel_unavailable_reply(message: &str) -> (r: Reply)
    ensures
        r@ == channel_unavailable(message@),
{
    let mut fields = json::no_fields();
    json::put(&mut fields, "status", json::text_value("ok"));
    json::put(&mut fields, "available", Json::Bool(false));
    json::put(&mut fields, "message", json::text_value(message));
    reply::reply_json(200, Json::Obj(fields))
}

/// The bot and the channel that are tried out.
#[derive(Debug, PartialEq)]
pub struct ChannelTry {
    pub bot_token: String,
    pub channel_name: String,
}

/// A channel is tried out with a bot: a message is sent to it, or there is nothing to send it with.
pub open spec fn tries_channel(
    token: Seq<char>,
    channel: Seq<char>,
    r: Result<(ChannelTry, ApiCall), Reply>,
) -> bool {
    if token.len() == 0 || channel.len() == 0 {
        r matches Err(e) && e@ == channel_unavailable("缺少 BOT_TOKEN 或 CHANNEL_NAME"@)
    } else {
        &&& r is Ok
        &&& r->Ok_0.0.bot_token@ == token
        &&& r->Ok_0.0.channel_name@ == channel
        &&& r->Ok_0.1.url@ == service::api_address(token, "sendMessage"@)
        &&& r->Ok_0.1.body@ == JsonView::Obj(
            json::empty_fields().push(("chat_id"@, JsonView::Str(channel))).push(
                ("text"@, JsonView::Str("tgState channel check"@)),
            ),
        )
    }
}

/// To try out a channel, send a message to it; without a token or a channel there is nothing to send.
pub fn begin_verify_channel(request: &VerifyRequest, settings: &AppSettingsMap) -> (r: Result<
    (ChannelTry, ApiCall),
    Reply,
>)
    ensures
        tries_channel(
            given_or(text::opt_view(request.bot_token), settings@.bot_token),
            given_or(text::opt_view(request.channel_name), settings@.channel_name),
            r,
        ),
{
    let bot_token = take_given(&request.bot_token, &settings.bot_token);
    let channel_name = take_given(&request.channel_name, &settings.channel_name);
    if bot_token.as_str().unicode_len() == 0 || channel_name.as_str().unicode_len() == 0 {
        return Err(channel_unavailable_reply("缺少 BOT_TOKEN 或 CHANNEL_NAME"));
    }
    let mut fields = json::no_fields();
    json::put(&mut fields, "chat_id", json::text_value(channel_name.as_str()));
    json::put(&mut fields, "text", json::text_value("tgState channel check"));
    let call = ApiCall {
        url: service::bot_api_url(bot_token.as_str(), "sendMessage"),
        body: Json::Obj(fields),
    };
    Ok((ChannelTry { bot_token, channel_name }, call))
}

/// The message that a channel was tried out with, where it was sent.
pub open spec fn trial_message(outcome: TryOutcome) -> Option<i64> {
    match outcome {
        TryOutcome::Answered(j) => if json::is_true(json::field(j@, "ok"@)) {
            match json::field(j@, "result"@) {
                Some(o) => json::i64_of(json::field(o, "message_id"@)),
                None => None,
            }
        } else {
            None
        },
        _ => None,
    }
}

/// The message that a channel was tried out with is taken back, where there is one.
pub open spec fn takes_back(tried: ChannelTry, outcome: TryOutcome, r: Option<ApiCall>) -> bool {
    match trial_message(outcome) {
        Some(m) => r matches Some(call) && call.url@ == service::api_address(
            tried.bot_token@,
            "deleteMessage"@,
        ) && call.body@ == service::deletion_request(tried.channel_name@, m),
        None => r is None,
    }
}

/// The call that takes back the message that a channel was tried out with, where there is one.
pub fn trial_cleanup(tried: &ChannelTry, outcome: &TryOutcome) -> (r: Option<ApiCall>)
    ensures
        takes_back(*tried, *outcome, r),
{
    let message = match outcome {
        TryOutcome::Answered(j) => {
            if j.field_is_true("ok") {
                match j.get("result") {
                    Some(result) => result.get_i64("message_id"),
                    None => None,
                }
            } else {
                None
            }
        },
        _ => None,
    };
    match message {
        Some(m) => {
            let mut fields = json::no_fields();
            json::put(&mut fields, "chat_id", json::text_value(tried.channel_name.as_str()));
            json::put(&mut fields, "message_id", json::int_value(m));
            Some(
                ApiCall {
                    url: service::bot_api_url(tried.bot_token.as_str(), "deleteMessage"),
                    body: Json::Obj(fields),
                },
            )
        },
        None => None,
    }
}

/// The answer to trying out a channel.
pub open spec fn channel_verdict(outcome: TryOutcome) -> ReplyView {
    match outcome {
        TryOutcome::Unreachable => channel_unavailable("连接失败"@),
        TryOutcome::Unreadable => channel_unavailable("解析响应失败"@),
        TryOutcome::Answered(j) => if json::is_true(json::field(j@, "ok"@)) {
            channel_available()
        } else {
            channel_unavailable(description(j@))
        },
    }
}

/// The answer to trying out a channel.
pub fn verify_channel(outcome: &TryOutcome) -> (r: Reply)
    ensures
        r@ == channel_verdict(*outcome),
{
    match outcome {
        TryOutcome::Unreachable => channel_unavailable_reply("连接失败"),
        TryOutcome::Unreadable => channel_unavailable_reply("解析响应失败"),
        TryOutcome::Answered(j) => {
            if j.field_is_true("ok") {
                let mut fields = json::no_fields();
                json::put(&mut fields, "status", json::text_value("ok"));
                json::put(&mut fields, "available", Json::Bool(true));
                reply::reply_json(200, Json::Obj(fields))
            } else {
                channel_unavailable_reply(description_of(j))
            }
        },
    }
}

// ---------------------------------------------------------------------------------------------
// Laws
// ---------------------------------------------------------------------------------------------

/// What is shown of settings holds no secret: it is the same for any two settings that have the same
/// channel and base address, and agree on whether there is a token and whether there is a password.
pub proof fn law_shown_settings_hold_no_secret(s: AppSettingsView, other: AppSettingsView, bot: BotStatus)
    requires
        text::text_or_empty(s.channel_name) == text::text_or_empty(other.channel_name),
        text::text_or_empty(s.base_url) == text::text_or_empty(other.base_url),
        (text::text_or_empty(s.bot_token).len() > 0) == (text::text_or_empty(other.bot_token).len() > 0),
        (text::text_or_empty(s.pass_word).len() > 0) == (text::text_or_empty(other.pass_word).len() > 0),
    ensures
        config_answer(s, bot) == config_answer(other, bot),
{
}

/// A request that changes nothing leaves the settings as they are.
pub proof fn law_empty_change_keeps_everything(
    existing: AppSettingsView,
    incoming: AppConfigRequest,
    r: Result<AppSettingsView, (u16, Seq<char>, Seq<char>)>,
)
    requires
        incoming.bot_token is None,
        incoming.channel_name is None,
        incoming.pass_word is None,
        incoming.base_url is None,
        is_merged(existing, incoming, r),
    ensures
        r == Ok::<_, (u16, Seq<char>, Seq<char>)>(existing),
{
}

/// No password is stored in plain text, and a change of the password ends the session: either there
/// is none any more, or the token is a fresh one.
pub proof fn law_new_passwords_are_hashed(
    existing: AppSettingsView,
    incoming: AppConfigRequest,
    s: AppSettingsView,
)
    requires
        incoming.pass_word is Some,
        is_merged(existing, incoming, Ok(s)),
    ensures
        match s.pass_word {
            Some(h) => auth::is_phc(h) && s.session_token is Some && auth::is_session_token(
                s.session_token->Some_0,
            ) && auth::stored_accepts(text::trimmed(incoming.pass_word->Some_0@), h),
            None => s.session_token is None && text::trimmed(incoming.pass_word->Some_0@).len() == 0,
        },
{
    let p = text::trimmed(incoming.pass_word->Some_0@);
    if p.len() > 0 {
        auth::law_hashed_password_is_accepted(p, s.pass_word->Some_0);
    }
}

/// A password that was set is the one to log in with: once the settings are saved, a login with it is
/// accepted, and so it is with white space round it.
pub proof fn law_new_password_logs_in(settings: config::Settings, saved: AppSettingsView, password: Seq<char>)
    requires
        saved.pass_word is Some,
        outside::is_default_phc(saved.pass_word->Some_0),
        auth::phc_accepts(text::trimmed(password), saved.pass_word->Some_0),
    ensures
        api_auth::login_accepted(
            password,
            config::active_password(settings, Some(database::normed_settings(saved))),
        ),
{
    let hash = saved.pass_word->Some_0;
    auth::law_hashed_password_is_accepted(text::trimmed(password), hash);
    reveal_strlit("$argon2id$v=19$m=19456,t=2,p=1$");
}

/// The cookie that comes with settings whose password was changed opens the new session.
pub proof fn law_applied_settings_keep_the_session(
    settings: config::Settings,
    existing: AppSettingsView,
    incoming: AppConfigRequest,
    merged: AppSettingsView,
    secure: bool,
    max_age: nat,
)
    requires
        is_merged(existing, incoming, Ok(merged)),
        incoming.pass_word is Some,
        text::trimmed(incoming.pass_word->Some_0@).len() > 0,
    ensures
        ({
            let stored = Some(database::normed_settings(merged));
            let pair = text::split_on(settings_cookie(merged, secure, max_age), ';')[0];
            middleware::auth::session_open(
                auth::cookie_in_opt(Some(pair), auth::COOKIE_NAME@),
                config::active_password(settings, stored),
                config::app_settings(settings, stored).session_token,
            )
        }),
{
    let stored = Some(database::normed_settings(merged));
    let hash = merged.pass_word->Some_0;
    let token = merged.session_token->Some_0;
    auth::law_hashed_password_is_accepted(text::trimmed(incoming.pass_word->Some_0@), hash);
    reveal_strlit("$argon2id$v=19$m=19456,t=2,p=1$");
    api_auth::lemma_token_is_stored_as_it_is(token);
    middleware::auth::law_login_cookie_opens_the_session(
        token,
        secure,
        max_age,
        config::active_password(settings, stored),
    );
}

/// Settings of the right forms keep them when they are stored.
pub proof fn law_stored_settings_stay_valid(s: AppSettingsView)
    requires
        config_fault(s) is None,
    ensures
        config_fault(database::normed_settings(s)) is None,
{
    lemma_plain_normed(s.bot_token);
    lemma_plain_normed(s.channel_name);
    lemma_plain_normed(s.base_url);
}

proof fn lemma_plain_normed(v: Option<Seq<char>>)
    ensures
        plain(database::normed(v)) == plain(v),
{
    if let Some(s) = v {
        text::lemma_trimmed_idempotent(s);
        if text::trimmed(s).len() == 0 {
            assert(text::trimmed(s) =~= Seq::<char>::empty());
        }
    }
}

/// A setting after a change: the one that was given, without the white space round it, whatever it was
/// before; none where a blank one was given; and the one that it was where none was given.
pub open spec fn takes_over(before: Option<Seq<char>>, given: Option<String>, after: Option<Seq<char>>) -> bool {
    match given {
        Some(t) => if text::trimmed(t@).len() > 0 {
            after == Some(text::trimmed(t@))
        } else {
            after is None
        },
        None => after == before,
    }
}

/// A setting that is given and not blank is the setting afterwards, whatever it was before; a blank one
/// clears it, and one that is not given stays.
pub proof fn law_given_settings_are_taken_over(
    existing: AppSettingsView,
    incoming: AppConfigRequest,
    s: AppSettingsView,
)
    requires
        is_merged(existing, incoming, Ok(s)),
    ensures
        takes_over(existing.bot_token, incoming.bot_token, s.bot_token),
        takes_over(existing.channel_name, incoming.channel_name, s.channel_name),
        takes_over(existing.base_url, incoming.base_url, s.base_url),
        s.picgo_api_key == existing.picgo_api_key,
        incoming.pass_word is None ==> s.pass_word == existing.pass_word && s.session_token
            == existing.session_token,
        incoming.pass_word is Some ==> (s.pass_word is None <==> text::trimmed(
            incoming.pass_word->Some_0@,
        ).len() == 0),
{
}

/// The same holds where it is known what becomes of the password: it stays with its session, or both
/// go, or both are the ones that were made for it. A password that could not be hashed changes nothing.
pub proof fn law_changes_are_as_asked_for(
    existing: AppSettingsView,
    incoming: AppConfigRequest,
    password: PasswordChange,
    r: Result<AppSettingsView, (u16, Seq<char>, Seq<char>)>,
)
    requires
        is_changed(existing, incoming, password, r),
    ensures
        r is Err <==> (password matches PasswordChange::Renew { hashed, token } && hashed is Err),
        r matches Err(f) ==> f.0 == 500 && f.2 == "hash_error"@,
        r matches Ok(s) ==> {
            &&& takes_over(existing.bot_token, incoming.bot_token, s.bot_token)
            &&& takes_over(existing.channel_name, incoming.channel_name, s.channel_name)
            &&& takes_over(existing.base_url, incoming.base_url, s.base_url)
            &&& s.picgo_api_key == existing.picgo_api_key
            &&& match password {
                PasswordChange::Keep => s.pass_word == existing.pass_word && s.session_token
                    == existing.session_token,
                PasswordChange::Clear => s.pass_word is None && s.session_token is None,
                PasswordChange::Renew { hashed, token } => hashed matches Ok(h) && s.pass_word == Some(h@)
                    && s.session_token == Some(token@),
            }
        },
{
}

/// Only a password that is too long to be hashed keeps settings from being changed.
pub proof fn law_changes_are_refused_for_long_passwords_only(
    existing: AppSettingsView,
    incoming: AppConfigRequest,
    f: (u16, Seq<char>, Seq<char>),
)
    requires
        is_merged(existing, incoming, Err(f)),
    ensures
        incoming.pass_word is Some,
        text::byte_len(text::trimmed(incoming.pass_word->Some_0@)) > u32::MAX,
        f.0 == 500,
        f.2 == "hash_error"@,
{
}

/// Settings are in order exactly where each has the right form or is blank: a token has a colon and 20
/// bytes or more, a channel begins with `@` or `-100`, and a base address with a scheme of the web. The
/// first that has not is named.
pub proof fn law_settings_must_have_the_right_forms(s: AppSettingsView)
    ensures
        ({
            let token = plain(s.bot_token);
            let channel = plain(s.channel_name);
            let url = plain(s.base_url);
            let token_ok = token.len() == 0 || token.contains(':') && text::byte_len(token) >= 20;
            let channel_ok = channel.len() == 0 || channel[0] == '@' || "-100"@.is_prefix_of(channel);
            let url_ok = url.len() == 0 || "http://"@.is_prefix_of(url) || "https://"@.is_prefix_of(url);
            &&& config_fault(s) is None <==> token_ok && channel_ok && url_ok
            &&& config_fault(s) matches Some(f) ==> f.0 == 400 && f.2 == if !token_ok {
                "invalid_bot_token"@
            } else if !channel_ok {
                "invalid_channel"@
            } else {
                "invalid_base_url"@
            } && f.1 == if !token_ok {
                "BOT_TOKEN 格式不正确"@
            } else if !channel_ok {
                "CHANNEL_NAME 格式不正确（@username 或 -100...）"@
            } else {
                "BASE_URL 必须以 http:// 或 https:// 开头"@
            }
        }),
        s.bot_token matches Some(t) ==> plain(s.bot_token) == text::trimmed(t),
        s.bot_token is None ==> plain(s.bot_token).len() == 0,
{
}

/// Settings are saved as they were merged, where they are in order; else the answer names the fault and
/// nothing is saved.
pub proof fn law_faulty_settings_are_not_saved(
    merged: Result<AppSettingsView, (u16, Seq<char>, Seq<char>)>,
    r: Result<AppSettingsMap, Reply>,
)
    requires
        is_checked(merged, r),
    ensures
        r is Ok <==> merged is Ok && config_fault(merged->Ok_0) is None,
        r matches Ok(t) ==> t@ == merged->Ok_0,
        r matches Err(e) ==> match merged {
            Ok(s) => config_fault(s) matches Some(f) && reply::refuses(e@, f.0, f.2, f.1),
            Err(f) => reply::refuses(e@, f.0, f.2, f.1),
        },
{
    match merged {
        Ok(s) => {
            if let Some(f) = config_fault(s) {
                reply::law_errors_tell_code_and_message(f.0, f.1, f.2);
            }
        },
        Err(f) => {
            reply::law_errors_tell_code_and_message(f.0, f.1, f.2);
        },
    }
}

/// The answers to saving say whether it went well.
pub proof fn law_saving_is_answered(saved: Result<(), String>)
    ensures
        saved is Ok ==> saved_answer(saved).status == 200 && reply::tells(
            saved_answer(saved),
            "status"@,
            JsonView::Str("ok"@),
        ) && password_answer(saved).status == 200 && reply::tells(
            password_answer(saved),
            "status"@,
            JsonView::Str("ok"@),
        ),
        saved is Ok ==> reply::tells(saved_answer(saved), "message"@, JsonView::Str("已保存（未应用）"@))
            && reply::tells(password_answer(saved), "message"@, JsonView::Str("密码已成功设置。"@)),
        saved is Err ==> reply::refuses(
            saved_answer(saved),
            500,
            "save_error"@,
            "保存配置失败"@,
        ) && reply::refuses(password_answer(saved), 500, "write_password_failed"@, "无法写入密码。"@),
{
    reply::law_status_and_message_are_told("ok"@, "已保存（未应用）"@);
    reply::law_status_and_message_are_told("ok"@, "密码已成功设置。"@);
    reply::law_errors_tell_code_and_message(500, "保存配置失败"@, "save_error"@);
    reply::law_errors_tell_code_and_message(500, "无法写入密码。"@, "write_password_failed"@);
}

/// The answer to settings that were applied is a success that says how the bot is. It sets the cookie of
/// the session where there is a password and a session token, and clears it elsewhere.
pub proof fn law_applied_settings_are_answered(
    s: AppSettingsView,
    bot: BotStatus,
    forwarded_proto: Option<Seq<char>>,
    policy: CookiePolicy,
)
    ensures
        ({
            let r = applied_answer(s, bot, forwarded_proto, policy);
            let open = s.pass_word is Some && s.pass_word->Some_0.len() > 0 && s.session_token is Some
                && s.session_token->Some_0.len() > 0;
            &&& r.status == 200
            &&& reply::tells(r, "status"@, JsonView::Str("ok"@))
            &&& reply::tells(r, "message"@, JsonView::Str("已保存并应用"@))
            &&& r.body matches reply::BodyView::Json(j) && json::field(j, "bot"@) matches Some(b)
                && json::field(b, "ready"@) == Some(JsonView::Bool(bot.ready)) && json::field(b, "running"@)
                == Some(JsonView::Bool(bot.running))
            &&& r.headers.len() == 1 && r.headers[0].0 == "Set-Cookie"@
            &&& open ==> r.headers[0].1 == auth::session_cookie(
                s.session_token->Some_0,
                forwarded_proto == Some("https"@) || policy.secure_override,
                policy.max_age_secs as nat,
            )
            &&& !open ==> r.headers[0].1 == auth::clear_cookie()
        }),
        reset_answer().status == 200,
        reset_answer().headers.len() == 1,
        reset_answer().headers[0] == ("Set-Cookie"@, auth::clear_cookie()),
        reply::tells(reset_answer(), "status"@, JsonView::Str("ok"@)),
        reply::tells(reset_answer(), "message"@, JsonView::Str("配置已重置"@)),
{
    reply::law_status_and_message_are_told("ok"@, "配置已重置"@);
    broadcast use json::lemma_lookup_push;

    reveal_strlit("status");
    reveal_strlit("message");
    reveal_strlit("bot");
    reveal_strlit("ready");
    reveal_strlit("running");
    assert("status"@.len() == 6);
    assert("message"@.len() == 7);
    assert("bot"@.len() == 3);
    assert("ready"@.len() == 5);
    assert("running"@.len() == 7);
    assert("message"@[0] != "running"@[0]);
    let r = applied_answer(s, bot, forwarded_proto, policy);
    let j = applied_body(bot);
    let b = json::field(j, "bot"@)->Some_0;
    assert(json::field(b, "ready"@) == Some(JsonView::Bool(bot.ready)));
    assert(json::field(b, "running"@) == Some(JsonView::Bool(bot.running)));
}

/// A password that is set is stored as a hash that accepts it, with a session token of its own, and
/// nothing else changes.
pub proof fn law_set_passwords_change_nothing_else(
    password: Seq<char>,
    current: AppSettingsView,
    r: Result<AppSettingsMap, Reply>,
)
    requires
        sets_password(password, current, r),
    ensures
        r is Ok <==> text::byte_len(text::trimmed(password)) <= u32::MAX,
        r matches Ok(s) ==> {
            &&& s@.bot_token == current.bot_token
            &&& s@.channel_name == current.channel_name
            &&& s@.picgo_api_key == current.picgo_api_key
            &&& s@.base_url == current.base_url
            &&& s@.pass_word is Some && auth::is_phc(s@.pass_word->Some_0) && auth::stored_accepts(
                text::trimmed(password),
                s@.pass_word->Some_0,
            )
            &&& s@.session_token is Some && auth::is_session_token(s@.session_token->Some_0)
        },
        r matches Err(e) ==> reply::refuses(e@, 500, "hash_error"@, "密码哈希失败"@),
{
    let f = hash_fault();
    reply::law_errors_tell_code_and_message(f.0, f.1, f.2);
    if let Ok(s) = r {
        auth::law_hashed_password_is_accepted(text::trimmed(password), s@.pass_word->Some_0);
    }
}

/// The password and the session token that settings get are those that were made, and nothing else
/// changes.
pub proof fn law_passwords_come_with_their_tokens(
    current: AppSettingsView,
    hashed: Result<String, String>,
    token: Seq<char>,
    r: Result<AppSettingsMap, Reply>,
)
    requires
        has_password(current, hashed, token, r),
    ensures
        match hashed {
            Ok(h) => r matches Ok(s) && s@.pass_word == Some(h@) && s@.session_token == Some(token)
                && s@.bot_token == current.bot_token && s@.channel_name == current.channel_name
                && s@.picgo_api_key == current.picgo_api_key && s@.base_url == current.base_url,
            Err(_) => r matches Err(e) && reply::refuses(e@, 500, "hash_error"@, "密码哈希失败"@),
        },
{
    let f = hash_fault();
    reply::law_errors_tell_code_and_message(f.0, f.1, f.2);
}

/// What is shown of the settings is the channel and the base address, whether there is a token and
/// whether there is a password; and of the bot whether it is ready, whether it runs, and its error.
pub proof fn law_settings_are_shown(s: AppSettingsView, bot: BotStatus)
    ensures
        config_answer(s, bot).status == 200,
        reply::tells(config_answer(s, bot), "status"@, JsonView::Str("ok"@)),
        reply::tells(config_answer(s, bot), "cfg"@, shown_settings(s)),
        reply::tells(config_answer(s, bot), "bot"@, shown_bot(bot)),
        json::field(shown_settings(s), "BOT_TOKEN_SET"@) == Some(
            JsonView::Bool(s.bot_token is Some && s.bot_token->Some_0.len() > 0),
        ),
        json::field(shown_settings(s), "PASS_WORD_SET"@) == Some(
            JsonView::Bool(s.pass_word is Some && s.pass_word->Some_0.len() > 0),
        ),
        s.channel_name matches Some(c) ==> json::field(shown_settings(s), "CHANNEL_NAME"@) == Some(
            JsonView::Str(c),
        ),
        s.base_url matches Some(u) ==> json::field(shown_settings(s), "BASE_URL"@) == Some(JsonView::Str(u)),
        json::field(shown_bot(bot), "ready"@) == Some(JsonView::Bool(bot.ready)),
        json::field(shown_bot(bot), "running"@) == Some(JsonView::Bool(bot.running)),
        match bot.error {
            Some(e) => json::field(shown_bot(bot), "error"@) == Some(JsonView::Str(e@)),
            None => json::field(shown_bot(bot), "error"@) == Some(JsonView::Null),
        },
{
    broadcast use json::lemma_lookup_push;

    reveal_strlit("status");
    reveal_strlit("cfg");
    reveal_strlit("bot");
    reveal_strlit("BOT_TOKEN_SET");
    reveal_strlit("PASS_WORD_SET");
    reveal_strlit("CHANNEL_NAME");
    reveal_strlit("BASE_URL");
    reveal_strlit("ready");
    reveal_strlit("running");
    reveal_strlit("error");
    assert("status"@.len() == 6);
    assert("cfg"@.len() == 3);
    assert("bot"@.len() == 3);
    assert("BOT_TOKEN_SET"@.len() == 13);
    assert("PASS_WORD_SET"@.len() == 13);
    assert("CHANNEL_NAME"@.len() == 12);
    assert("BASE_URL"@.len() == 8);
    assert("ready"@.len() == 5);
    assert("running"@.len() == 7);
    assert("error"@.len() == 5);
    assert("cfg"@[0] != "bot"@[0]);
    assert("BOT_TOKEN_SET"@[0] != "PASS_WORD_SET"@[0]);
    assert("ready"@[0] != "error"@[0]);
}

/// A bot and a channel are tried out with the values that are given, and with those in force where none
/// are.
pub proof fn law_given_values_are_tried_out(given: Seq<char>, in_force: Option<Seq<char>>)
    ensures
        given_or(Some(given), in_force) == given,
        in_force matches Some(s) ==> given_or(None, in_force) == s,
        in_force is None ==> given_or(None, in_force).len() == 0,
{
}

/// A bot is asked about itself at its own address. Without a token it is not available.
pub proof fn law_bots_are_asked_about_themselves(token: Seq<char>, r: Result<String, Reply>)
    requires
        asks_about_bot(token, r),
    ensures
        r is Ok <==> token.len() > 0,
        r matches Ok(url) ==> url@ == "https://api.telegram.org/bot"@ + token + "/"@ + "getMe"@,
        r matches Err(e) ==> e@.status == 200 && reply::tells(e@, "available"@, JsonView::Bool(false))
            && reply::tells(e@, "message"@, JsonView::Str("未提供 BOT_TOKEN"@)),
{
    law_bots_are_available(TryOutcome::Unreachable, "未提供 BOT_TOKEN"@);
}

/// A bot is available exactly where its answer is good; then its name is told, and else what went wrong.
pub proof fn law_bots_are_available(outcome: TryOutcome, message: Seq<char>)
    ensures
        ({
            let r = bot_verdict(outcome);
            let good = outcome matches TryOutcome::Answered(j) && json::field(j@, "ok"@) == Some(
                JsonView::Bool(true),
            );
            &&& r.status == 200
            &&& reply::tells(r, "status"@, JsonView::Str("ok"@))
            &&& reply::tells(r, "ok"@, JsonView::Bool(good))
            &&& outcome is Unreachable ==> reply::tells(r, "message"@, JsonView::Str("连接失败"@))
            &&& outcome is Unreadable ==> reply::tells(r, "message"@, JsonView::Str("解析响应失败"@))
            &&& reply::tells(r, "available"@, JsonView::Bool(good))
            &&& good ==> (r.body matches reply::BodyView::Json(k) && json::field(k, "result"@) matches Some(x)
                && json::field(x, "username"@) == Some(
                JsonView::Str(
                    match json::field(outcome->Answered_0@, "result"@) {
                        Some(y) => match json::field(y, "username"@) {
                            Some(JsonView::Str(u)) => u,
                            _ => "unknown"@,
                        },
                        None => "unknown"@,
                    },
                ),
            ))
            &&& !good && outcome is Answered ==> reply::tells(
                r,
                "message"@,
                JsonView::Str(
                    match json::field(outcome->Answered_0@, "description"@) {
                        Some(JsonView::Str(d)) => d,
                        _ => "Unknown error"@,
                    },
                ),
            )
        }),
        bot_unavailable(message).status == 200,
        reply::tells(bot_unavailable(message), "available"@, JsonView::Bool(false)),
        reply::tells(bot_unavailable(message), "ok"@, JsonView::Bool(false)),
        reply::tells(bot_unavailable(message), "message"@, JsonView::Str(message)),
{
    broadcast use json::lemma_lookup_push;

    reveal_strlit("status");
    reveal_strlit("ok");
    reveal_strlit("available");
    reveal_strlit("message");
    reveal_strlit("result");
    reveal_strlit("username");
    assert("status"@.len() == 6);
    assert("ok"@.len() == 2);
    assert("available"@.len() == 9);
    assert("message"@.len() == 7);
    assert("result"@.len() == 6);
    assert("username"@.len() == 8);
    assert("status"@[0] != "result"@[0]);
    assert(reply::tells(bot_unavailable(message), "available"@, JsonView::Bool(false)));
    if let TryOutcome::Answered(j) = outcome {
        if json::field(j@, "ok"@) == Some(JsonView::Bool(true)) {
            let r = bot_verdict(outcome);
            let k = r.body->Json_0;
            let x = json::field(k, "result"@)->Some_0;
            assert(json::field(x, "username"@) is Some);
        }
    }
}

/// A channel is tried out by a message to it, sent by the bot. Without a token or a channel it is not
/// available.
pub proof fn law_channels_are_tried_out(
    token: Seq<char>,
    channel: Seq<char>,
    r: Result<(ChannelTry, ApiCall), Reply>,
)
    requires
        tries_channel(token, channel, r),
    ensures
        r is Ok <==> token.len() > 0 && channel.len() > 0,
        r matches Ok(p) ==> p.0.bot_token@ == token && p.0.channel_name@ == channel && p.1.url@
            == "https://api.telegram.org/bot"@ + token + "/"@ + "sendMessage"@ && json::field(
            p.1.body@,
            "chat_id"@,
        ) == Some(JsonView::Str(channel)) && json::field(p.1.body@, "text"@) == Some(
            JsonView::Str("tgState channel check"@),
        ),
        r matches Err(e) ==> e@.status == 200 && reply::tells(e@, "available"@, JsonView::Bool(false))
            && reply::tells(e@, "message"@, JsonView::Str("缺少 BOT_TOKEN 或 CHANNEL_NAME"@)),
{
    broadcast use json::lemma_lookup_push;

    reveal_strlit("chat_id");
    reveal_strlit("text");
    reveal_strlit("status");
    reveal_strlit("available");
    reveal_strlit("message");
    assert("chat_id"@.len() == 7);
    assert("text"@.len() == 4);
    assert("status"@.len() == 6);
    assert("available"@.len() == 9);
    assert("message"@.len() == 7);
    assert("chat_id"@[0] != "message"@[0]);
}

/// A channel is available exactly where the message to it was sent; else the answer tells what went
/// wrong.
pub proof fn law_channels_are_available(outcome: TryOutcome)
    ensures
        ({
            let r = channel_verdict(outcome);
            let good = outcome matches TryOutcome::Answered(j) && json::field(j@, "ok"@) == Some(
                JsonView::Bool(true),
            );
            &&& r.status == 200
            &&& reply::tells(r, "status"@, JsonView::Str("ok"@))
            &&& reply::tells(r, "available"@, JsonView::Bool(good))
            &&& outcome is Unreachable ==> reply::tells(r, "message"@, JsonView::Str("连接失败"@))
            &&& outcome is Unreadable ==> reply::tells(r, "message"@, JsonView::Str("解析响应失败"@))
            &&& !good && outcome is Answered ==> reply::tells(
                r,
                "message"@,
                JsonView::Str(
                    match json::field(outcome->Answered_0@, "description"@) {
                        Some(JsonView::Str(d)) => d,
                        _ => "Unknown error"@,
                    },
                ),
            )
        }),
{
    broadcast use json::lemma_lookup_push;

    reveal_strlit("status");
    reveal_strlit("available");
    reveal_strlit("message");
    assert("status"@.len() == 6);
    assert("available"@.len() == 9);
    assert("message"@.len() == 7);
}

/// The message that a channel was tried out with does not stay: where it was sent and is known, it is
/// deleted from that channel by that bot.
pub proof fn law_trial_messages_do_not_stay(tried: ChannelTry, outcome: TryOutcome, r: Option<ApiCall>, m: i64)
    requires
        takes_back(tried, outcome, r),
    ensures
        outcome matches TryOutcome::Answered(j) ==> (json::field(j@, "result"@) matches Some(x) ==> (
        json::field(j@, "ok"@) == Some(JsonView::Bool(true)) && json::i64_of(json::field(x, "message_id"@))
            == Some(m) ==> (r matches Some(call) && call.url@ == "https://api.telegram.org/bot"@
            + tried.bot_token@ + "/"@ + "deleteMessage"@ && json::field(call.body@, "chat_id"@) == Some(
            JsonView::Str(tried.channel_name@),
        ) && json::i64_of(json::field(call.body@, "message_id"@)) == Some(m)))),
        !(outcome is Answered) ==> r is None,
        (outcome matches TryOutcome::Answered(j) && json::field(j@, "ok"@) != Some(JsonView::Bool(true)))
            ==> r is None,
{
    service::law_calls_name_what_they_are_about(Seq::empty(), tried.channel_name@, m, None);
}

/// A setting after a change of it has the form that a check asks for, or is blank.
pub open spec fn setting_after(before: Option<Seq<char>>, given: Option<String>) -> Seq<char> {
    match given {
        Some(t) => text::trimmed(t@),
        None => match before {
            Some(s) => text::trimmed(s),
            None => Seq::empty(),
        },
    }
}

/// Changed settings are saved exactly where the token, the channel and the base address have the right
/// forms after the change, and the password can be hashed. What is saved holds what was given.
pub proof fn law_changes_are_saved_where_they_are_in_order(
    existing: AppSettingsView,
    incoming: AppConfigRequest,
    r: Result<AppSettingsMap, Reply>,
)
    requires
        saves(existing, incoming, r),
    ensures
        ({
            let token = setting_after(existing.bot_token, incoming.bot_token);
            let channel = setting_after(existing.channel_name, incoming.channel_name);
            let url = setting_after(existing.base_url, incoming.base_url);
            let in_order = (token.len() == 0 || token.contains(':') && text::byte_len(token) >= 20) && (
            channel.len() == 0 || channel[0] == '@' || "-100"@.is_prefix_of(channel)) && (url.len() == 0
                || "http://"@.is_prefix_of(url) || "https://"@.is_prefix_of(url));
            let can_hash = incoming.pass_word is None || text::byte_len(
                text::trimmed(incoming.pass_word->Some_0@),
            ) <= u32::MAX;
            &&& r is Ok ==> in_order
            &&& in_order && can_hash ==> r is Ok
        }),
        r matches Ok(s) ==> takes_over(existing.bot_token, incoming.bot_token, s@.bot_token) && takes_over(
            existing.channel_name,
            incoming.channel_name,
            s@.channel_name,
        ) && takes_over(existing.base_url, incoming.base_url, s@.base_url) && s@.picgo_api_key
            == existing.picgo_api_key,
{
    if let Some(t) = incoming.bot_token {
        text::lemma_trimmed_idempotent(t@);
    }
    if let Some(t) = incoming.channel_name {
        text::lemma_trimmed_idempotent(t@);
    }
    if let Some(t) = incoming.base_url {
        text::lemma_trimmed_idempotent(t@);
    }
    match r {
        Ok(s) => {
            law_given_settings_are_taken_over(existing, incoming, s@);
            law_settings_must_have_the_right_forms(s@);
        },
        Err(e) => {
            let m = choose|m: Result<AppSettingsView, (u16, Seq<char>, Seq<char>)>|
                {
                    &&& #[trigger] is_merged(existing, incoming, m)
                    &&& match m {
                        Ok(s) => config_fault(s) matches Some(f) && e@ == fault_reply(f),
                        Err(f) => e@ == fault_reply(f),
                    }
                };
            match m {
                Ok(s) => {
                    law_given_settings_are_taken_over(existing, incoming, s);
                    law_settings_must_have_the_right_forms(s);
                },
                Err(f) => {
                    law_changes_are_refused_for_long_passwords_only(existing, incoming, f);
                },
            }
        },
    }
}

/// What went wrong on the side of the program is answered as an error of the program, and not of the
/// request.
pub proof fn law_own_errors_are_told()
    ensures
        reply::refuses(breakdown(), 500, "internal_error"@, "内部错误"@),
        reply::refuses(saving_failure(), 500, "save_error"@, "保存配置失败"@),
{
    reply::law_errors_tell_code_and_message(500, "内部错误"@, "internal_error"@);
    reply::law_errors_tell_code_and_message(500, "保存配置失败"@, "save_error"@);
}

/// What is known of a fault is its status, its message and its code, each in its place.
pub proof fn law_faults_hold_what_they_are_made_of(f: (u16, &'static str, &'static str))
    ensures
        fault_view(f).0 == f.0,
        fault_view(f).1 == f.1@,
        fault_view(f).2 == f.2@,
{
}

} // verus!
