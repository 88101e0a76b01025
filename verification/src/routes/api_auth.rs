//! Logging in and out.

use vstd::prelude::*;

use crate::auth;
use crate::auth::CookiePolicy;
use crate::config;
use crate::config::{AppSettingsMap, AppSettingsView, Settings};
use crate::database;
use crate::json::JsonView;
use crate::middleware;
use crate::middleware::auth::RequestView;
use crate::reply;
use crate::reply::{Reply, ReplyView};
use crate::text;

verus! {

/// The password that is to open a session.
#[derive(Debug, PartialEq)]
pub struct LoginRequest {
    pub password: String,
}

/// A password opens a session: there is a password in force, and it is that one, white space round
/// either aside.
pub open spec fn login_accepted(password: Seq<char>, active: Option<Seq<char>>) -> bool {
    match active {
        Some(p) => auth::stored_accepts(text::trimmed(password), text::trimmed(p)),
        None => false,
    }
}

/// The answer to a wrong password.
pub open spec fn wrong_password() -> ReplyView {
    reply::json_reply(401, reply::status_message("error"@, "密码错误"@))
}

/// The settings that were read; none where they could not be.
pub open spec fn settings_or_none(stored: Result<AppSettingsMap, String>) -> AppSettingsView {
    match stored {
        Ok(s) => s@,
        Err(_) => config::empty_settings(),
    }
}

/// The settings that were read; none where they could not be.
pub fn settings_or_empty(stored: Result<AppSettingsMap, String>) -> (r: AppSettingsMap)
    ensures
        r@ == settings_or_none(stored),
{
    match stored {
        Ok(s) => s,
        Err(_) => AppSettingsMap::empty(),
    }
}

/// What a login came to.
#[derive(Debug, PartialEq)]
pub enum LoginStep {
    /// It is refused.
    Refuse(Reply),
    /// It is accepted, and the session has this token.
    Accept(String),
}

/// What a login comes to, by whether the password was right.
pub open spec fn is_login(accepted: bool, token: Seq<char>, r: LoginStep) -> bool {
    if accepted {
        r matches LoginStep::Accept(t) && t@ == token
    } else {
        r matches LoginStep::Refuse(e) && e@ == wrong_password()
    }
}

/// A login, by whether the password was right.
pub fn login_checked(accepted: bool, token: String) -> (r: LoginStep)
    ensures
        is_login(accepted, token@, r),
{
    if accepted {
        LoginStep::Accept(token)
    } else {
        LoginStep::Refuse(reply::reply_json(401, reply::status_message_value("error", "密码错误")))
    }
}

/// What a login with a password comes to, where this one is in force.
pub open spec fn logs_in(password: Seq<char>, active: Option<Seq<char>>, r: LoginStep) -> bool {
    match r {
        LoginStep::Accept(t) => login_accepted(password, active) && auth::is_session_token(t@),
        LoginStep::Refuse(e) => !login_accepted(password, active) && e@ == wrong_password(),
    }
}

/// A login: where the password is right it gets a session with a fresh token.
pub fn login(request: &LoginRequest, active_password: Option<&str>) -> (r: LoginStep)
    ensures
        logs_in(request.password@, text::opt_str_view(active_password), r),
{
    let accepted = match active_password {
        Some(p) => auth::verify_password_auto(text::trim(request.password.as_str()), text::trim(p)),
        None => false,
    };
    login_checked(accepted, auth::generate_session_token())
}

/// Settings with another session token.
pub open spec fn with_token(s: AppSettingsView, token: Seq<char>) -> AppSettingsView {
    AppSettingsView { session_token: Some(token), ..s }
}

/// The settings with another session token.
pub fn with_session_token(stored: Result<AppSettingsMap, String>, token: String) -> (r: AppSettingsMap)
    ensures
        r@ == with_token(settings_or_none(stored), token@),
{
    let mut s = settings_or_empty(stored);
    s.session_token = Some(token);
    s
}

/// The answer to a login whose session token was saved, or could not be.
pub open spec fn login_answer(
    saved: Result<(), String>,
    token: Seq<char>,
    forwarded_proto: Option<Seq<char>>,
    policy: CookiePolicy,
) -> ReplyView {
    match saved {
        Ok(_) => reply::cookie_reply(
            200,
            auth::session_cookie(
                token,
                forwarded_proto == Some("https"@) || policy.secure_override,
                policy.max_age_secs as nat,
            ),
            reply::status_message("ok"@, "登录成功"@),
        ),
        Err(_) => reply::json_reply(500, reply::status_message("error"@, "服务器错误"@)),
    }
}

/// The answer to a login whose session token was saved, or could not be.
pub fn login_saved(
    saved: Result<(), String>,
    token: &str,
    forwarded_proto: Option<&str>,
    policy: &CookiePolicy,
) -> (r: Reply)
    ensures
        r@ == login_answer(saved, token@, text::opt_str_view(forwarded_proto), *policy),
{
    match saved {
        Ok(_) => {
            let secure = middleware::auth::is_https(forwarded_proto);
            let cookie = auth::build_cookie(token, secure, policy);
            reply::reply_cookie(200, cookie.as_str(), reply::status_message_value("ok", "登录成功"))
        },
        Err(_) => reply::reply_json(500, reply::status_message_value("error", "服务器错误")),
    }
}

/// A logout ends the session: it comes with the cookie of the session that is open.
pub open spec fn logout_ends_session(
    cookie_header: Option<Seq<char>>,
    active: Option<Seq<char>>,
    stored: AppSettingsView,
) -> bool {
    let server_token = text::text_or_empty(stored.session_token);
    &&& server_token.len() > 0
    &&& text::text_or_empty(active).len() > 0
    &&& text::text_or_empty(auth::cookie_in_opt(cookie_header, auth::COOKIE_NAME@)) == server_token
}

/// The settings to save at a logout that ends the session, with the token that sessions have from then
/// on; none at any other.
pub open spec fn is_logout(
    cookie_header: Option<Seq<char>>,
    active: Option<Seq<char>>,
    stored: AppSettingsView,
    token: Option<Seq<char>>,
    r: Option<AppSettingsMap>,
) -> bool {
    if logout_ends_session(cookie_header, active, stored) {
        r matches Some(s) && s@ == (AppSettingsView { session_token: token, ..stored })
    } else {
        r is None
    }
}

/// The answer to a logout, whether there was a session or not.
pub open spec fn logout_answer() -> ReplyView {
    reply::cookie_reply(200, auth::clear_cookie(), reply::status_message("ok"@, "已退出登录"@))
}

/// A logout with the token that sessions are to have from now on: the settings to save, where it ends
/// the session.
pub fn logout_with(
    cookie_header: Option<&str>,
    settings: &Settings,
    stored: Result<AppSettingsMap, String>,
    token: String,
) -> (r: Option<AppSettingsMap>)
    ensures
        ({
            let active = config::active_password(
                *settings,
                match stored {
                    Ok(s) => Some(s@),
                    Err(_) => None,
                },
            );
            is_logout(
                text::opt_str_view(cookie_header),
                active,
                settings_or_none(stored),
                Some(token@),
                r,
            )
        }),
{
    let active = match &stored {
        Ok(s) => config::get_active_password(settings, Some(s)),
        Err(_) => config::get_active_password(settings, None),
    };
    let mut current = settings_or_empty(stored);
    let cookie = match auth::extract_cookie_value(cookie_header, auth::COOKIE_NAME) {
        Some(c) => c,
        None => {
            proof {
                reveal_strlit("");
                assert(""@ =~= Seq::<char>::empty());
            }
            ""
        },
    };
    let ends = {
        let server_token = config::borrow_or_empty(&current.session_token);
        server_token.unicode_len() > 0 && config::borrow_or_empty(&active).unicode_len() > 0
            && auth::secure_compare(cookie, server_token)
    };
    if ends {
        current.session_token = Some(token);
        Some(current)
    } else {
        None
    }
}

/// A logout: the settings to save, where it ends the session, and the answer, which clears the cookie
/// either way. A request without the cookie of the session ends nothing.
pub fn logout(cookie_header: Option<&str>, settings: &Settings, stored: Result<AppSettingsMap, String>) -> (r: (
    Option<AppSettingsMap>,
    Reply,
))
    ensures
        ({
            let active = config::active_password(
                *settings,
                match stored {
                    Ok(s) => Some(s@),
                    Err(_) => None,
                },
            );
            &&& is_logout(
                text::opt_str_view(cookie_header),
                active,
                settings_or_none(stored),
                match r.0 {
                    Some(s) => s@.session_token,
                    None => None,
                },
                r.0,
            )
            &&& r.0 matches Some(s) ==> s@.session_token is Some && auth::is_session_token(
                s@.session_token->Some_0,
            )
        }),
        r.1@ == logout_answer(),
{
    let save = logout_with(cookie_header, settings, stored, auth::generate_session_token());
    let cookie = auth::build_clear_cookie();
    let answer = reply::reply_cookie(
        200,
        cookie.as_str(),
        reply::status_message_value("ok", "已退出登录"),
    );
    (save, answer)
}

/// Without a password no one can log in.
pub proof fn law_no_password_no_login(password: Seq<char>)
    ensures
        !login_accepted(password, None),
{
}

/// A logout without the cookie of the open session ends no session.
pub proof fn law_strangers_end_no_session(
    cookie_header: Option<Seq<char>>,
    active: Option<Seq<char>>,
    stored: AppSettingsView,
)
    requires
        auth::cookie_in_opt(cookie_header, auth::COOKIE_NAME@) != stored.session_token,
    ensures
        !logout_ends_session(cookie_header, active, stored),
{
}

/// A session token is stored as it is.
pub proof fn lemma_token_is_stored_as_it_is(token: Seq<char>)
    requires
        auth::is_session_token(token),
    ensures
        database::normed(Some(token)) == Some(token),
{
    assert(auth::is_hex_char(token[0]));
    assert(auth::is_hex_char(token[63]));
    text::lemma_trimmed_same(token);
}

/// What a browser sends back after a login: the first part of the cookie that it was given.
pub open spec fn cookie_after_login(token: Seq<char>, secure: bool, max_age: nat) -> Seq<char> {
    text::split_on(auth::session_cookie(token, secure, max_age), ';')[0]
}

/// Whoever has logged in may use everything: once the token of a login is saved, no request with its
/// cookie is refused, but for one that changes something and comes from elsewhere.
pub proof fn law_login_opens_everything(
    settings: Settings,
    saved: AppSettingsView,
    token: Seq<char>,
    secure: bool,
    max_age: nat,
    req: RequestView,
    policy: CookiePolicy,
)
    requires
        auth::is_session_token(token),
        saved.session_token == Some(token),
        text::text_or_empty(
            config::active_password(settings, Some(database::normed_settings(saved))),
        ).len() > 0,
        req.cookie == Some(cookie_after_login(token, secure, max_age)),
        !(middleware::auth::is_write(req.method) && middleware::auth::cross_origin(
            req.origin,
            req.host,
        )),
    ensures
        ({
            let stored = Some(database::normed_settings(saved));
            !(middleware::auth::decision(
                req,
                config::active_password(settings, stored),
                config::app_settings(settings, stored).session_token,
                policy,
            ) is Refuse)
        }),
{
    let stored = Some(database::normed_settings(saved));
    lemma_token_is_stored_as_it_is(token);
    middleware::auth::law_login_cookie_opens_the_session(
        token,
        secure,
        max_age,
        config::active_password(settings, stored),
    );
}

/// After a logout the old cookie is worth nothing: once another token is saved, a request with the
/// cookie of the ended session is refused wherever a session is needed.
pub proof fn law_logout_closes_everything(
    settings: Settings,
    saved: AppSettingsView,
    ended: Seq<char>,
    token: Seq<char>,
    secure: bool,
    max_age: nat,
    req: RequestView,
    policy: CookiePolicy,
)
    requires
        auth::is_session_token(ended),
        auth::is_session_token(token),
        ended != token,
        saved.session_token == Some(token),
        text::text_or_empty(
            config::active_password(settings, Some(database::normed_settings(saved))),
        ).len() > 0,
        req.cookie == Some(cookie_after_login(ended, secure, max_age)),
        !middleware::auth::always_public(req.path),
        !middleware::auth::login_path(req.path),
    ensures
        ({
            let stored = Some(database::normed_settings(saved));
            middleware::auth::decision(
                req,
                config::active_password(settings, stored),
                config::app_settings(settings, stored).session_token,
                policy,
            ) is Refuse
        }),
{
    let stored = Some(database::normed_settings(saved));
    lemma_token_is_stored_as_it_is(token);
    middleware::auth::law_login_cookie_opens_the_session(
        ended,
        secure,
        max_age,
        config::active_password(settings, stored),
    );
}

/// A login is accepted exactly where the password is the one in force, white space round either aside:
/// as it is where it is stored as plain text, and by its hash where it is stored as one.
pub proof fn law_the_password_in_force_logs_in(password: Seq<char>, active: Option<Seq<char>>, r: LoginStep)
    requires
        logs_in(password, active, r),
    ensures
        r is Accept <==> active is Some && auth::stored_accepts(
            text::trimmed(password),
            text::trimmed(active->Some_0),
        ),
        active is Some && !"$argon2"@.is_prefix_of(text::trimmed(active->Some_0)) ==> (r is Accept
            <==> text::trimmed(password) == text::trimmed(active->Some_0)),
        r matches LoginStep::Accept(t) ==> auth::is_session_token(t@),
        r matches LoginStep::Refuse(e) ==> e@.status == 401 && e@.headers.len() == 0 && reply::tells(
            e@,
            "status"@,
            JsonView::Str("error"@),
        ) && reply::tells(e@, "message"@, JsonView::Str("密码错误"@)),
{
    reply::law_status_and_message_are_told("error"@, "密码错误"@);
}

/// Once it is known whether the password was right, the login gets the token that was made for it, or is
/// refused.
pub proof fn law_right_passwords_get_the_token(accepted: bool, token: Seq<char>, r: LoginStep)
    requires
        is_login(accepted, token, r),
    ensures
        r is Accept <==> accepted,
        r matches LoginStep::Accept(t) ==> t@ == token,
        r matches LoginStep::Refuse(e) ==> e@.status == 401 && e@.headers.len() == 0 && reply::tells(
            e@,
            "message"@,
            JsonView::Str("密码错误"@),
        ),
{
    reply::law_status_and_message_are_told("error"@, "密码错误"@);
}

/// The token of a login is stored, and no other setting changes.
pub proof fn law_logins_change_the_token_only(s: AppSettingsView, token: Seq<char>)
    ensures
        with_token(s, token).session_token == Some(token),
        with_token(s, token).bot_token == s.bot_token,
        with_token(s, token).channel_name == s.channel_name,
        with_token(s, token).pass_word == s.pass_word,
        with_token(s, token).picgo_api_key == s.picgo_api_key,
        with_token(s, token).base_url == s.base_url,
{
}

/// A login whose token was saved gets the cookie of the session; one whose token could not be saved gets
/// none, and an error.
pub proof fn law_logins_are_answered(
    saved: Result<(), String>,
    token: Seq<char>,
    forwarded_proto: Option<Seq<char>>,
    policy: CookiePolicy,
)
    ensures
        ({
            let r = login_answer(saved, token, forwarded_proto, policy);
            &&& saved is Ok ==> r.status == 200 && r.headers.len() == 1 && r.headers[0] == (
                "Set-Cookie"@,
                auth::session_cookie(
                    token,
                    forwarded_proto == Some("https"@) || policy.secure_override,
                    policy.max_age_secs as nat,
                ),
            ) && reply::tells(r, "status"@, JsonView::Str("ok"@)) && reply::tells(
                r,
                "message"@,
                JsonView::Str("登录成功"@),
            )
            &&& saved is Err ==> r.status == 500 && r.headers.len() == 0 && reply::tells(
                r,
                "status"@,
                JsonView::Str("error"@),
            ) && reply::tells(r, "message"@, JsonView::Str("服务器错误"@))
        }),
{
    reply::law_status_and_message_are_told("ok"@, "登录成功"@);
    reply::law_status_and_message_are_told("error"@, "服务器错误"@);
}

/// A logout with the cookie of the open session ends it: the token is another from then on, and no other
/// setting changes. Any other logout changes nothing. Both clear the cookie.
pub proof fn law_logouts_change_the_token_only(
    cookie_header: Option<Seq<char>>,
    active: Option<Seq<char>>,
    stored: AppSettingsView,
    token: Option<Seq<char>>,
    r: Option<AppSettingsMap>,
)
    requires
        is_logout(cookie_header, active, stored, token, r),
    ensures
        r is Some <==> active is Some && active->Some_0.len() > 0 && stored.session_token is Some
            && stored.session_token->Some_0.len() > 0 && auth::cookie_in_opt(
            cookie_header,
            "tgstate_session"@,
        ) == stored.session_token,
        r matches Some(s) ==> s@.session_token == token && s@.bot_token == stored.bot_token
            && s@.channel_name == stored.channel_name && s@.pass_word == stored.pass_word
            && s@.picgo_api_key == stored.picgo_api_key && s@.base_url == stored.base_url,
        logout_answer().status == 200,
        logout_answer().headers.len() == 1,
        logout_answer().headers[0] == ("Set-Cookie"@, auth::clear_cookie()),
        reply::tells(logout_answer(), "status"@, JsonView::Str("ok"@)),
        reply::tells(logout_answer(), "message"@, JsonView::Str("已退出登录"@)),
{
    reply::law_status_and_message_are_told("ok"@, "已退出登录"@);
}

/// Settings that could not be read count as none.
pub proof fn law_unread_settings_are_none(stored: Result<AppSettingsMap, String>)
    ensures
        stored matches Ok(s) ==> settings_or_none(stored) == s@,
        stored is Err ==> settings_or_none(stored).pass_word is None && settings_or_none(
            stored,
        ).session_token is None && settings_or_none(stored).bot_token is None && settings_or_none(
            stored,
        ).channel_name is None && settings_or_none(stored).base_url is None && settings_or_none(
            stored,
        ).picgo_api_key is None,
{
}

} // verus!
