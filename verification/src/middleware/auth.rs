//! Who may do what: the origin of requests, public paths, and sessions.

use vstd::prelude::*;

use crate::auth;
use crate::auth::CookiePolicy;
use crate::config;
use crate::config::{AppSettingsMap, Settings};
use crate::json;
use crate::json::{Json, JsonView};
use crate::reply;
use crate::reply::{Body, BodyView, Reply, ReplyView};
use crate::text;

verus! {

// ---------------------------------------------------------------------------------------------
// Requests
// ---------------------------------------------------------------------------------------------

/// The parts of a request that decide whether it may pass. A header that is missing, or is no plain
/// text, is `None`.
#[derive(Debug, PartialEq)]
pub struct RequestHead {
    pub method: String,
    pub path: String,
    pub origin: Option<String>,
    pub host: Option<String>,
    pub accept: Option<String>,
    pub cookie: Option<String>,
    pub forwarded_proto: Option<String>,
}

pub struct RequestView {
    pub method: Seq<char>,
    pub path: Seq<char>,
    pub origin: Option<Seq<char>>,
    pub host: Option<Seq<char>>,
    pub accept: Option<Seq<char>>,
    pub cookie: Option<Seq<char>>,
    pub forwarded_proto: Option<Seq<char>>,
}

impl View for RequestHead {
    type V = RequestView;

    open spec fn view(&self) -> RequestView {
        RequestView {
            method: self.method@,
            path: self.path@,
            origin: text::opt_view(self.origin),
            host: text::opt_view(self.host),
            accept: text::opt_view(self.accept),
            cookie: text::opt_view(self.cookie),
            forwarded_proto: text::opt_view(self.forwarded_proto),
        }
    }
}

/// The value of a cookie of a request.
pub fn extract_cookie<'a>(cookie_header: Option<&'a str>, name: &str) -> (r: Option<&'a str>)
    ensures
        text::opt_str_view(r) == auth::cookie_in_opt(text::opt_str_view(cookie_header), name@),
{
    auth::extract_cookie_value(cookie_header, name)
}

/// A client that takes pages.
pub open spec fn takes_html(accept: Option<Seq<char>>) -> bool {
    match accept {
        Some(a) => text::has_substring(a, "text/html"@),
        None => false,
    }
}

/// Tells whether a client takes pages.
pub fn wants_html(accept: Option<&str>) -> (r: bool)
    ensures
        r == takes_html(text::opt_str_view(accept)),
{
    match accept {
        Some(a) => text::contains_str(a, "text/html"),
        None => false,
    }
}

/// Tells whether a proxy says that a request came over TLS.
pub fn is_https(forwarded_proto: Option<&str>) -> (r: bool)
    ensures
        r == (text::opt_str_view(forwarded_proto) == Some("https"@)),
{
    match forwarded_proto {
        Some(p) => text::str_eq(p, "https"),
        None => false,
    }
}

/// What stands behind the first `://` of an origin is the host.
pub open spec fn is_origin_of(origin: Seq<char>, host: Seq<char>) -> bool {
    exists|i: int|
        {
            &&& #[trigger] text::occurs_at(origin, "://"@, i)
            &&& forall|j: int| 0 <= j < i ==> !#[trigger] text::occurs_at(origin, "://"@, j)
            &&& origin.skip(i + 3) == host
        }
}

/// A request says where it comes from, and that is not where it goes.
pub open spec fn cross_origin(origin: Option<Seq<char>>, host: Option<Seq<char>>) -> bool {
    match (origin, host) {
        (Some(o), Some(h)) => !is_origin_of(o, h),
        _ => false,
    }
}

/// Tells whether a request comes from where it goes, as far as it says. Clients that are no browsers
/// send no origin, and pass.
pub fn origin_allowed(origin: Option<&str>, host: Option<&str>) -> (r: bool)
    ensures
        r == !cross_origin(text::opt_str_view(origin), text::opt_str_view(host)),
{
    let o = match origin {
        Some(o) => o,
        None => {
            return true;
        },
    };
    let h = match host {
        Some(h) => h,
        None => {
            return true;
        },
    };
    let x = text::to_chars(o);
    let sep = text::to_chars("://");
    proof {
        reveal_strlit("://");
    }
    let mut i: usize = 0;
    while i < x.len()
        invariant
            x@ == o@,
            sep@ == "://"@,
            sep@.len() == 3,
            i <= x@.len(),
            origin == Some(o),
            host == Some(h),
            forall|j: int| 0 <= j < i ==> !#[trigger] text::occurs_at(o@, "://"@, j),
        decreases x@.len() - i,
    {
        if text::matches_at(&x, i, &sep) {
            assert(text::occurs_at(o@, "://"@, i as int));
            let authority = o.substring_char(i + 3, x.len());
            let same = text::str_eq(authority, h);
            proof {
                assert(authority@ =~= o@.skip(i + 3));
                if is_origin_of(o@, h@) {
                    let k = choose|k: int|
                        {
                            &&& #[trigger] text::occurs_at(o@, "://"@, k)
                            &&& forall|j: int| 0 <= j < k ==> !#[trigger] text::occurs_at(o@, "://"@, j)
                            &&& o@.skip(k + 3) == h@
                        };
                    assert(k == i) by {
                        if k < i {
                            assert(!text::occurs_at(o@, "://"@, k));
                        }
                    }
                }
            }
            return same;
        }
        i = i + 1;
    }
    proof {
        if is_origin_of(o@, h@) {
            let k = choose|k: int|
                {
                    &&& #[trigger] text::occurs_at(o@, "://"@, k)
                    &&& forall|j: int| 0 <= j < k ==> !#[trigger] text::occurs_at(o@, "://"@, j)
                    &&& o@.skip(k + 3) == h@
                };
            assert(k < x@.len());
        }
    }
    false
}

/// A request that changes something.
pub open spec fn is_write(method: Seq<char>) -> bool {
    method == "POST"@ || method == "PUT"@ || method == "PATCH"@ || method == "DELETE"@
}

fn writes(method: &str) -> (r: bool)
    ensures
        r == is_write(method@),
{
    text::str_eq(method, "POST") || text::str_eq(method, "PUT") || text::str_eq(method, "PATCH")
        || text::str_eq(method, "DELETE")
}

// ---------------------------------------------------------------------------------------------
// Paths
// ---------------------------------------------------------------------------------------------

/// A text without the slashes at its end.
pub open spec fn without_slashes(s: Seq<char>) -> Seq<char>
    decreases s.len(),
{
    if s.len() > 0 && s.last() == '/' {
        without_slashes(s.drop_last())
    } else {
        s
    }
}

/// What an entry of a list of paths allows. `/` is the root alone. An entry that ends in a slash
/// stands for everything under it, and for itself without the slash. Any other stands for itself and
/// for everything under it.
pub open spec fn entry_allows(entry: Seq<char>, path: Seq<char>) -> bool {
    if entry == "/"@ {
        path == "/"@
    } else if entry.len() > 0 && entry.last() == '/' {
        path == without_slashes(entry) || entry.is_prefix_of(path)
    } else {
        path == entry || (entry + "/"@).is_prefix_of(path)
    }
}

/// Some entry of a list allows a path.
pub open spec fn some_entry_allows(entries: Seq<Seq<char>>, path: Seq<char>) -> bool {
    exists|i: int| 0 <= i < entries.len() && entry_allows(#[trigger] entries[i], path)
}

/// A text without the slashes at its end.
pub fn trim_slashes<'a>(s: &'a str) -> (r: &'a str)
    ensures
        r@ == without_slashes(s@),
{
    let x = text::to_chars(s);
    let mut n: usize = x.len();
    assert(x@.take(n as int) =~= s@);
    while n > 0 && x[n - 1] == '/'
        invariant
            x@ == s@,
            n <= x@.len(),
            without_slashes(s@) == without_slashes(x@.take(n as int)),
        decreases n,
    {
        assert(x@.take(n as int).drop_last() =~= x@.take(n - 1));
        n = n - 1;
    }
    assert(x@.take(n as int) =~= s@.subrange(0, n as int));
    s.substring_char(0, n)
}

fn entry_matches(entry: &str, path: &str) -> (r: bool)
    ensures
        r == entry_allows(entry@, path@),
{
    if text::str_eq(entry, "/") {
        return text::str_eq(path, "/");
    }
    let n: usize = entry.unicode_len();
    if n > 0 && entry.get_char(n - 1) == '/' {
        text::str_eq(path, trim_slashes(entry)) || text::starts_with(path, entry)
    } else {
        let mut under = String::from_str(entry);
        under.append("/");
        text::str_eq(path, entry) || text::starts_with(path, under.as_str())
    }
}

/// Tells whether a list of paths allows a path.
pub fn path_is_allowed(path: &str, allowed: &[&str]) -> (r: bool)
    ensures
        r == some_entry_allows(text::strs_view(allowed@), path@),
{
    let ghost entries = text::strs_view(allowed@);
    let mut i: usize = 0;
    while i < allowed.len()
        invariant
            entries == text::strs_view(allowed@),
            i <= allowed@.len(),
            forall|j: int| 0 <= j < i ==> !entry_allows(#[trigger] entries[j], path@),
        decreases allowed@.len() - i,
    {
        if entry_matches(allowed[i], path) {
            assert(entry_allows(entries[i as int], path@));
            return true;
        }
        i = i + 1;
    }
    false
}

/// What everyone may fetch: what pages are made of, and shared files.
pub open spec fn public_prefixes() -> Seq<Seq<char>> {
    seq!["/static/"@, "/assets/"@, "/favicon"@, "/robots.txt"@, "/d/"@, "/share/"@]
}

/// A path that everyone may use at all times.
pub open spec fn always_public(path: Seq<char>) -> bool {
    ||| exists|i: int| 0 <= i < public_prefixes().len() && (#[trigger] public_prefixes()[i]).is_prefix_of(path)
    ||| some_entry_allows(seq!["/api/health"@], path)
}

/// The paths that set up the program, which everyone may use as long as there is no password.
pub open spec fn onboarding() -> Seq<Seq<char>> {
    seq![
        "/welcome"@,
        "/login"@,
        "/api/auth/login"@,
        "/api/auth/logout"@,
        "/api/verify/"@,
        "/api/app-config"@,
        "/api/app-config/save"@,
        "/api/app-config/apply"@,
        "/api/set-password"@,
    ]
}

/// The paths for logging in and out, which everyone may use once there is a password.
pub open spec fn login_path(path: Seq<char>) -> bool {
    ||| some_entry_allows(seq!["/api/auth/login"@, "/api/auth/logout"@], path)
    ||| path == "/login"@
    ||| path == "/pwd"@
}

fn is_always_public(path: &str) -> (r: bool)
    ensures
        r == always_public(path@),
{
    let prefixes: [&str; 6] = ["/static/", "/assets/", "/favicon", "/robots.txt", "/d/", "/share/"];
    let ghost want = public_prefixes();
    let mut i: usize = 0;
    assert(text::strs_view(prefixes@) =~= want);
    while i < 6
        invariant
            want == public_prefixes(),
            want.len() == 6,
            text::strs_view(prefixes@) == want,
            i <= 6,
            forall|j: int| 0 <= j < i ==> !(#[trigger] want[j]).is_prefix_of(path@),
        decreases 6 - i,
    {
        assert(want[i as int] == prefixes@[i as int]@);
        if text::starts_with(path, prefixes[i]) {
            return true;
        }
        i = i + 1;
    }
    let health: [&str; 1] = ["/api/health"];
    assert(text::strs_view(health@) =~= seq!["/api/health"@]);
    path_is_allowed(path, health.as_slice())
}

fn is_onboarding(path: &str) -> (r: bool)
    ensures
        r == some_entry_allows(onboarding(), path@),
{
    let entries: [&str; 9] = [
        "/welcome",
        "/login",
        "/api/auth/login",
        "/api/auth/logout",
        "/api/verify/",
        "/api/app-config",
        "/api/app-config/save",
        "/api/app-config/apply",
        "/api/set-password",
    ];
    assert(text::strs_view(entries@) =~= onboarding());
    path_is_allowed(path, entries.as_slice())
}

fn is_login_path(path: &str) -> (r: bool)
    ensures
        r == login_path(path@),
{
    let entries: [&str; 2] = ["/api/auth/login", "/api/auth/logout"];
    assert(text::strs_view(entries@) =~= seq!["/api/auth/login"@, "/api/auth/logout"@]);
    path_is_allowed(path, entries.as_slice()) || text::str_eq(path, "/login") || text::str_eq(path, "/pwd")
}

// ---------------------------------------------------------------------------------------------
// Refusals
// ---------------------------------------------------------------------------------------------

/// The body of a refusal.
pub open spec fn refusal_body(code: Seq<char>, message: Seq<char>) -> JsonView {
    JsonView::Obj(
        json::empty_fields().push(("status"@, JsonView::Str("error"@))).push(
            ("code"@, JsonView::Str(code)),
        ).push(("message"@, JsonView::Str(message))),
    )
}

/// A refusal.
pub open spec fn refusal(status: u16, code: Seq<char>, message: Seq<char>) -> ReplyView {
    ReplyView {
        status,
        headers: reply::empty_headers().push(("Content-Type"@, "application/json; charset=utf-8"@)),
        body: BodyView::Json(refusal_body(code, message)),
    }
}

fn refuse(status: u16, code: &str, message: &str) -> (r: Reply)
    ensures
        r@ == refusal(status, code@, message@),
{
    let mut fields = json::no_fields();
    json::put(&mut fields, "status", json::text_value("error"));
    json::put(&mut fields, "code", json::text_value(code));
    json::put(&mut fields, "message", json::text_value(message));
    let mut headers = reply::no_headers();
    reply::put_header(&mut headers, "Content-Type", "application/json; charset=utf-8");
    Reply { status, headers, body: Body::Json(Json::Obj(fields)) }
}

/// The answer to a request from elsewhere.
pub open spec fn csrf_refusal() -> ReplyView {
    refusal(403, "csrf_origin_mismatch"@, "请求来源校验失败"@)
}

/// The answer to a request from elsewhere.
pub fn forbidden_csrf() -> (r: Reply)
    ensures
        r@ == csrf_refusal(),
{
    refuse(403, "csrf_origin_mismatch", "请求来源校验失败")
}

/// The answer to a request without a session: a browser that asks for a page is sent to where it can
/// begin, and everyone else is told to log in.
pub open spec fn login_refusal(path: Seq<char>, accept_html: bool, no_password: bool) -> ReplyView {
    if accept_html && !"/api/"@.is_prefix_of(path) {
        ReplyView {
            status: 303,
            headers: reply::empty_headers().push(
                ("Location"@, if no_password {
                    "/welcome"@
                } else {
                    "/login"@
                }),
            ),
            body: BodyView::Empty,
        }
    } else {
        refusal(401, "unauthorized"@, "需要登录"@)
    }
}

/// The answer to a request without a session.
pub fn redirect_or_401(path: &str, accept_html: bool, no_password: bool) -> (r: Reply)
    ensures
        r@ == login_refusal(path@, accept_html, no_password),
{
    if accept_html && !text::starts_with(path, "/api/") {
        let mut headers = reply::no_headers();
        if no_password {
            reply::put_header(&mut headers, "Location", "/welcome");
        } else {
            reply::put_header(&mut headers, "Location", "/login");
        }
        Reply { status: 303, headers, body: Body::Empty }
    } else {
        refuse(401, "unauthorized", "需要登录")
    }
}

// ---------------------------------------------------------------------------------------------
// Sessions
// ---------------------------------------------------------------------------------------------

/// The password and the session token in force.
pub fn load_settings_snapshot(settings: &Settings, stored: Option<&AppSettingsMap>) -> (r: (
    Option<String>,
    Option<String>,
))
    ensures
        text::opt_view(r.0) == config::active_password(*settings, config::read_view(stored)),
        text::opt_view(r.1) == config::app_settings(*settings, config::read_view(stored)).session_token,
{
    let app_settings = config::get_app_settings(settings, stored);
    (config::get_active_password(settings, stored), app_settings.session_token)
}

/// A session is open: there is a password, there is a session token, and the cookie holds the token.
pub open spec fn session_open(
    cookie: Option<Seq<char>>,
    password: Option<Seq<char>>,
    token: Option<Seq<char>>,
) -> bool {
    &&& text::text_or_empty(password).len() > 0
    &&& text::text_or_empty(token).len() > 0
    &&& cookie == token
}

/// Tells whether a session is open.
pub fn check_session(
    session_cookie: Option<&str>,
    active_pwd: Option<&str>,
    session_token: Option<&str>,
) -> (r: bool)
    ensures
        r == session_open(
            text::opt_str_view(session_cookie),
            text::opt_str_view(active_pwd),
            text::opt_str_view(session_token),
        ),
{
    match (active_pwd, session_token, session_cookie) {
        (Some(p), Some(t), Some(c)) => {
            if p.unicode_len() > 0 && t.unicode_len() > 0 {
                auth::secure_compare(c, t)
            } else {
                false
            }
        },
        _ => false,
    }
}

// ---------------------------------------------------------------------------------------------
// The decision
// ---------------------------------------------------------------------------------------------

/// What becomes of a request.
#[derive(Debug, PartialEq)]
pub enum Decision {
    /// It passes.
    Pass,
    /// It passes, and its answer sets this cookie, so that the session lasts on.
    PassWithCookie(String),
    /// It is answered with this.
    Refuse(Reply),
}

pub enum DecisionView {
    Pass,
    PassWithCookie(Seq<char>),
    Refuse(ReplyView),
}

impl View for Decision {
    type V = DecisionView;

    open spec fn view(&self) -> DecisionView {
        match *self {
            Decision::Pass => DecisionView::Pass,
            Decision::PassWithCookie(c) => DecisionView::PassWithCookie(c@),
            Decision::Refuse(r) => DecisionView::Refuse(r@),
        }
    }
}

/// What becomes of a request whatever the settings are, where they do not matter.
pub open spec fn settled_early(req: RequestView) -> Option<DecisionView> {
    if is_write(req.method) && cross_origin(req.origin, req.host) {
        Some(DecisionView::Refuse(csrf_refusal()))
    } else if always_public(req.path) {
        Some(DecisionView::Pass)
    } else {
        None
    }
}

/// What becomes of a request.
pub open spec fn decision(
    req: RequestView,
    password: Option<Seq<char>>,
    token: Option<Seq<char>>,
    policy: CookiePolicy,
) -> DecisionView {
    match settled_early(req) {
        Some(d) => d,
        None => if text::text_or_empty(password).len() == 0 {
            if some_entry_allows(onboarding(), req.path) {
                DecisionView::Pass
            } else {
                DecisionView::Refuse(login_refusal(req.path, takes_html(req.accept), true))
            }
        } else if login_path(req.path) {
            DecisionView::Pass
        } else if session_open(auth::cookie_in_opt(req.cookie, auth::COOKIE_NAME@), password, token) {
            DecisionView::PassWithCookie(
                auth::session_cookie(
                    text::text_or_empty(token),
                    req.forwarded_proto == Some("https"@) || policy.secure_override,
                    policy.max_age_secs as nat,
                ),
            )
        } else {
            DecisionView::Refuse(login_refusal(req.path, takes_html(req.accept), false))
        },
    }
}

/// What becomes of a request whatever the settings are; `None` where they matter.
pub fn settle_early(req: &RequestHead) -> (r: Option<Decision>)
    ensures
        match settled_early(req@) {
            Some(d) => r matches Some(e) && e@ == d,
            None => r is None,
        },
{
    if writes(req.method.as_str()) && !origin_allowed(
        config::borrow_text(&req.origin),
        config::borrow_text(&req.host),
    ) {
        return Some(Decision::Refuse(forbidden_csrf()));
    }
    if is_always_public(req.path.as_str()) {
        return Some(Decision::Pass);
    }
    None
}

/// What becomes of a request under the settings in force.
pub fn auth_middleware(
    req: &RequestHead,
    settings: &Settings,
    stored: Option<&AppSettingsMap>,
    policy: &CookiePolicy,
) -> (r: Decision)
    ensures
        r@ == decision(
            req@,
            config::active_password(*settings, config::read_view(stored)),
            config::app_settings(*settings, config::read_view(stored)).session_token,
            *policy,
        ),
{
    if let Some(d) = settle_early(req) {
        return d;
    }
    let path = req.path.as_str();
    let (active_pwd, session_token) = load_settings_snapshot(settings, stored);
    if config::borrow_or_empty(&active_pwd).unicode_len() == 0 {
        if is_onboarding(path) {
            return Decision::Pass;
        }
        let html = wants_html(config::borrow_text(&req.accept));
        return Decision::Refuse(redirect_or_401(path, html, true));
    }
    if is_login_path(path) {
        return Decision::Pass;
    }
    let cookie = extract_cookie(config::borrow_text(&req.cookie), auth::COOKIE_NAME);
    if check_session(cookie, config::borrow_text(&active_pwd), config::borrow_text(&session_token)) {
        let secure = is_https(config::borrow_text(&req.forwarded_proto));
        let token = config::borrow_or_empty(&session_token);
        return Decision::PassWithCookie(auth::build_cookie(token, secure, policy));
    }
    let html = wants_html(config::borrow_text(&req.accept));
    Decision::Refuse(redirect_or_401(path, html, false))
}

// ---------------------------------------------------------------------------------------------
// Laws
// ---------------------------------------------------------------------------------------------

/// A list of paths that holds `/` allows no path on its account but the root itself.
pub proof fn law_root_allows_the_root_only(path: Seq<char>)
    ensures
        entry_allows("/"@, path) <==> path == "/"@,
{
}

/// A request that changes something and comes from elsewhere is refused, whatever it asks for and
/// whoever sends it.
pub proof fn law_cross_origin_writes_are_refused(
    req: RequestView,
    password: Option<Seq<char>>,
    token: Option<Seq<char>>,
    policy: CookiePolicy,
)
    requires
        is_write(req.method),
        cross_origin(req.origin, req.host),
    ensures
        decision(req, password, token, policy) == DecisionView::Refuse(csrf_refusal()),
{
}

/// A request that reads, or does not say where it comes from, is not refused on account of its
/// origin.
pub proof fn law_requests_without_origin_are_not_cross(req: RequestView)
    requires
        !is_write(req.method) || req.origin is None || req.host is None,
    ensures
        settled_early(req) != Some(DecisionView::Refuse(csrf_refusal())),
{
}

/// Shared files are open to everyone, with a password and without.
pub proof fn law_shared_files_are_public(
    req: RequestView,
    password: Option<Seq<char>>,
    token: Option<Seq<char>>,
    policy: CookiePolicy,
)
    requires
        "/d/"@.is_prefix_of(req.path) || "/share/"@.is_prefix_of(req.path),
        !(is_write(req.method) && cross_origin(req.origin, req.host)),
    ensures
        decision(req, password, token, policy) is Pass,
{
    assert(public_prefixes()[4] == "/d/"@ && public_prefixes()[5] == "/share/"@);
}

/// What is not public takes a session: a request that passes asks for something public, or sets up
/// the program before there is a password, or logs in or out, or has an open session.
pub proof fn law_everything_else_takes_a_session(
    req: RequestView,
    password: Option<Seq<char>>,
    token: Option<Seq<char>>,
    policy: CookiePolicy,
)
    requires
        !(decision(req, password, token, policy) is Refuse),
    ensures
        ({
            let no_password = text::text_or_empty(password).len() == 0;
            ||| always_public(req.path)
            ||| no_password && some_entry_allows(onboarding(), req.path)
            ||| !no_password && login_path(req.path)
            ||| session_open(auth::cookie_in_opt(req.cookie, auth::COOKIE_NAME@), password, token)
        }),
{
}

/// Before there is a password, nothing but the onboarding surface is reachable beside what is always
/// public.
pub proof fn law_no_password_no_management(
    req: RequestView,
    token: Option<Seq<char>>,
    password: Option<Seq<char>>,
    policy: CookiePolicy,
)
    requires
        text::text_or_empty(password).len() == 0,
        !always_public(req.path),
        !some_entry_allows(onboarding(), req.path),
    ensures
        decision(req, password, token, policy) is Refuse,
{
}

/// Once the session token has changed, as logging in and logging out change it, the old cookie opens
/// no session.
pub proof fn law_old_sessions_end(
    cookie: Option<Seq<char>>,
    password: Option<Seq<char>>,
    old_token: Option<Seq<char>>,
    new_token: Option<Seq<char>>,
)
    requires
        session_open(cookie, password, old_token),
        new_token != old_token,
    ensures
        !session_open(cookie, password, new_token),
{
}

/// The first part of a session cookie, which is what a browser sends back.
pub open spec fn session_pair(token: Seq<char>) -> Seq<char> {
    auth::COOKIE_NAME@ + "="@ + token
}

/// The cookie that logging in sets opens a session: what a browser sends back of it is the token.
pub proof fn law_login_cookie_opens_the_session(
    token: Seq<char>,
    secure: bool,
    max_age: nat,
    password: Option<Seq<char>>,
)
    requires
        auth::is_session_token(token),
        text::text_or_empty(password).len() > 0,
    ensures
        ({
            let pair = text::split_on(auth::session_cookie(token, secure, max_age), ';')[0];
            &&& pair == session_pair(token)
            &&& session_open(auth::cookie_in_opt(Some(pair), auth::COOKIE_NAME@), password, Some(token))
        }),
{
    reveal_strlit("tgstate_session");
    reveal_strlit("=");
    reveal_strlit("; HttpOnly; SameSite=Strict; Path=/; Max-Age=");
    let name = auth::COOKIE_NAME@;
    let pair = session_pair(token);
    assert(name == "tgstate_session"@);
    assert(pair =~= name + seq!['='] + token);
    assert forall|i: int| 0 <= i < pair.len() implies pair[i] != ';' by {
        if i > name.len() {
            assert(pair[i] == token[i - name.len() - 1]);
            assert(auth::is_hex_char(token[i - name.len() - 1]));
        }
    }
    assert(auth::is_hex_char(token[63]));
    assert(pair.last() == token[63]);
    let head = "; HttpOnly; SameSite=Strict; Path=/; Max-Age="@;
    let tail = head.drop_first() + text::decimal(max_age) + auth::secure_mark(secure);
    assert(auth::session_cookie(token, secure, max_age) =~= pair + seq![';'] + tail);
    text::lemma_split_on_join(pair, ';', tail);
    text::lemma_position_found(pair, ';');
    assert(text::split_on(pair, ';') =~= seq![pair]);
    text::lemma_trimmed_same(pair);
    text::lemma_split_once_join(name, '=', token);
    assert(auth::cookie_in(pair, name) == Some(token));
}

/// The methods that change something are four; every other reads.
pub proof fn law_four_methods_write(method: Seq<char>)
    ensures
        is_write("POST"@),
        is_write("PUT"@),
        is_write("PATCH"@),
        is_write("DELETE"@),
        method != "POST"@ && method != "PUT"@ && method != "PATCH"@ && method != "DELETE"@ ==> !is_write(
            method,
        ),
{
}

/// A request whose origin is a scheme, `://` and the host comes from where it goes, and so does one that
/// does not say where it comes from or goes.
pub proof fn law_origins_name_their_hosts(scheme: Seq<char>, host: Seq<char>)
    requires
        !scheme.contains(':'),
    ensures
        !cross_origin(Some(scheme + "://"@ + host), Some(host)),
        !cross_origin(None, Some(host)),
        !cross_origin(Some(scheme), None),
{
    reveal_strlit("://");
    let o = scheme + "://"@ + host;
    let n = scheme.len() as int;
    assert(o.subrange(n, n + 3) =~= "://"@);
    assert(text::occurs_at(o, "://"@, n));
    assert forall|j: int| 0 <= j < n implies !#[trigger] text::occurs_at(o, "://"@, j) by {
        if text::occurs_at(o, "://"@, j) {
            assert(o.subrange(j, j + 3)[0] == "://"@[0]);
            assert(o[j] == scheme[j]);
            assert(scheme.contains(scheme[j]));
        }
    }
    assert(o.skip(n + 3) =~= host);
}

/// A request that says where it comes from and is not taken for one from elsewhere has an origin that
/// ends with `://` and its host.
pub proof fn law_other_origins_are_elsewhere(origin: Seq<char>, host: Seq<char>) -> (scheme: Seq<char>)
    requires
        !cross_origin(Some(origin), Some(host)),
    ensures
        origin == scheme + "://"@ + host,
{
    reveal_strlit("://");
    let i = choose|i: int|
        {
            &&& #[trigger] text::occurs_at(origin, "://"@, i)
            &&& forall|j: int| 0 <= j < i ==> !#[trigger] text::occurs_at(origin, "://"@, j)
            &&& origin.skip(i + 3) == host
        };
    assert(text::occurs_at(origin, "://"@, i));
    let scheme = origin.take(i);
    let sep = origin.subrange(i, i + 3);
    assert("://"@.len() == 3);
    assert(sep == "://"@);
    assert(origin =~= scheme + sep + origin.skip(i + 3));
    scheme
}

/// A client takes pages exactly where what it accepts names them.
pub proof fn law_pages_are_accepted_by_name(a: Seq<char>, b: Seq<char>, accept: Seq<char>)
    ensures
        takes_html(Some(a + "text/html"@ + b)),
        !takes_html(None),
        takes_html(Some(accept)) ==> exists|x: Seq<char>, y: Seq<char>| accept == #[trigger] (x + "text/html"@
            + y),
{
    text::law_parts_occur(a, "text/html"@, b);
    if takes_html(Some(accept)) {
        let (x, y) = text::law_what_occurs_is_a_part(accept, "text/html"@);
        assert(accept == x + "text/html"@ + y);
    }
}

/// Taking off the slashes at the end takes off all of them and nothing else.
pub proof fn law_slashes_are_taken_off(s: Seq<char>, n: nat)
    requires
        s.len() > 0 ==> s.last() != '/',
    ensures
        without_slashes(s + Seq::new(n, |i: int| '/')) == s,
    decreases n,
{
    let t = s + Seq::new(n, |i: int| '/');
    if n > 0 {
        let less = (n - 1) as nat;
        law_slashes_are_taken_off(s, less);
        assert(t.drop_last() =~= s + Seq::new(less, |i: int| '/'));
    } else {
        assert(t =~= s);
    }
}

/// An entry without a slash at its end allows itself and what is under it, and no path that merely begins
/// with the same letters.
pub proof fn law_entries_allow_what_is_under_them(entry: Seq<char>, rest: Seq<char>, path: Seq<char>)
    requires
        entry.len() > 0,
        entry.last() != '/',
    ensures
        entry_allows(entry, entry),
        entry_allows(entry, entry + "/"@ + rest),
        entry_allows(entry, path) ==> path == entry || (entry + "/"@).is_prefix_of(path),
        rest.len() > 0 && rest[0] != '/' ==> !entry_allows(entry, entry + rest),
{
    reveal_strlit("/");
    let under = entry + "/"@;
    let p = under + rest;
    assert(p.subrange(0, under.len() as int) =~= under);
    if rest.len() > 0 && rest[0] != '/' {
        let q = entry + rest;
        assert(q[entry.len() as int] == rest[0]);
        if under.is_prefix_of(q) {
            assert(q.subrange(0, under.len() as int)[entry.len() as int] == '/');
        }
    }
}

/// What everyone may fetch at all times: what pages are made of, shared files, and whether the program
/// runs.
pub proof fn law_what_is_always_public(path: Seq<char>)
    ensures
        always_public(path) <==> "/static/"@.is_prefix_of(path) || "/assets/"@.is_prefix_of(path)
            || "/favicon"@.is_prefix_of(path) || "/robots.txt"@.is_prefix_of(path) || "/d/"@.is_prefix_of(path)
            || "/share/"@.is_prefix_of(path) || entry_allows("/api/health"@, path),
{
    let p = public_prefixes();
    assert(p[0] == "/static/"@ && p[1] == "/assets/"@ && p[2] == "/favicon"@ && p[3] == "/robots.txt"@ && p[4]
        == "/d/"@ && p[5] == "/share/"@);
    let h = seq!["/api/health"@];
    assert(h[0] == "/api/health"@);
}

/// What everyone may use to set up the program as long as there is no password.
pub proof fn law_what_sets_up_the_program(path: Seq<char>)
    ensures
        some_entry_allows(onboarding(), path) <==> entry_allows("/welcome"@, path) || entry_allows(
            "/login"@,
            path,
        ) || entry_allows("/api/auth/login"@, path) || entry_allows("/api/auth/logout"@, path)
            || entry_allows("/api/verify/"@, path) || entry_allows("/api/app-config"@, path) || entry_allows(
            "/api/app-config/save"@,
            path,
        ) || entry_allows("/api/app-config/apply"@, path) || entry_allows("/api/set-password"@, path),
{
    let p = onboarding();
    assert(p[0] == "/welcome"@ && p[1] == "/login"@ && p[2] == "/api/auth/login"@ && p[3]
        == "/api/auth/logout"@ && p[4] == "/api/verify/"@ && p[5] == "/api/app-config"@ && p[6]
        == "/api/app-config/save"@ && p[7] == "/api/app-config/apply"@ && p[8] == "/api/set-password"@);
}

/// What everyone may use to log in and out once there is a password.
pub proof fn law_what_logs_in_and_out(path: Seq<char>)
    ensures
        login_path(path) <==> path == "/login"@ || path == "/pwd"@ || entry_allows("/api/auth/login"@, path)
            || entry_allows("/api/auth/logout"@, path),
{
    let p = seq!["/api/auth/login"@, "/api/auth/logout"@];
    assert(p[0] == "/api/auth/login"@ && p[1] == "/api/auth/logout"@);
}

/// A session is open exactly where there is a password and a token, neither empty, and the cookie is the
/// token.
pub proof fn law_sessions_are_opened_by_the_token(
    cookie: Option<Seq<char>>,
    password: Option<Seq<char>>,
    token: Option<Seq<char>>,
)
    ensures
        session_open(cookie, password, token) <==> password is Some && password->Some_0.len() > 0 && token
            is Some && token->Some_0.len() > 0 && cookie == token,
{
}

/// A refusal has its status, and tells its code and its message.
pub proof fn law_refusals_tell_why(status: u16, code: Seq<char>, message: Seq<char>)
    ensures
        refusal(status, code, message).status == status,
        reply::tells(refusal(status, code, message), "status"@, JsonView::Str("error"@)),
        reply::tells(refusal(status, code, message), "code"@, JsonView::Str(code)),
        reply::tells(refusal(status, code, message), "message"@, JsonView::Str(message)),
        csrf_refusal().status == 403,
        reply::tells(csrf_refusal(), "code"@, JsonView::Str("csrf_origin_mismatch"@)),
        reply::tells(csrf_refusal(), "message"@, JsonView::Str("请求来源校验失败"@)),
        refusal(status, code, message).headers == seq![
            ("Content-Type"@, "application/json; charset=utf-8"@),
        ],
{
    broadcast use json::lemma_lookup_push;

    reveal_strlit("status");
    reveal_strlit("code");
    reveal_strlit("message");
    assert("status"@.len() == 6);
    assert("code"@.len() == 4);
    assert("message"@.len() == 7);
}

/// Whoever has no session is sent on where a page is asked for, to where the program is set up or to the
/// login; a request to the interface, or for anything but a page, is told to log in.
pub proof fn law_strangers_are_sent_to_log_in(path: Seq<char>, accept_html: bool, no_password: bool)
    ensures
        ({
            let r = login_refusal(path, accept_html, no_password);
            if accept_html && !"/api/"@.is_prefix_of(path) {
                &&& r.status == 303
                &&& r.headers.len() == 1 && r.headers[0] == ("Location"@, if no_password {
                    "/welcome"@
                } else {
                    "/login"@
                })
                &&& r.body is Empty
            } else {
                &&& r.status == 401
                &&& reply::tells(r, "code"@, JsonView::Str("unauthorized"@))
                &&& reply::tells(r, "message"@, JsonView::Str("需要登录"@))
            }
        }),
{
    law_refusals_tell_why(401, "unauthorized"@, "需要登录"@);
}

/// What becomes of a request that is neither from elsewhere nor public. Without a password it passes
/// where it sets up the program, and is sent there elsewhere. With one it passes where it logs in or out,
/// and elsewhere only with an open session, which lasts on; without one it is sent to log in.
pub proof fn law_requests_pass_with_a_session(
    req: RequestView,
    password: Option<Seq<char>>,
    token: Option<Seq<char>>,
    policy: CookiePolicy,
)
    requires
        !(is_write(req.method) && cross_origin(req.origin, req.host)),
        !always_public(req.path),
    ensures
        ({
            let d = decision(req, password, token, policy);
            let has_password = password is Some && password->Some_0.len() > 0;
            let open = token is Some && token->Some_0.len() > 0 && auth::cookie_in_opt(
                req.cookie,
                "tgstate_session"@,
            ) == token;
            if !has_password {
                &&& some_entry_allows(onboarding(), req.path) ==> d is Pass
                &&& !some_entry_allows(onboarding(), req.path) ==> d == DecisionView::Refuse(
                    login_refusal(req.path, takes_html(req.accept), true),
                )
            } else if login_path(req.path) {
                d is Pass
            } else if open {
                d == DecisionView::PassWithCookie(
                    auth::session_cookie(
                        token->Some_0,
                        req.forwarded_proto == Some("https"@) || policy.secure_override,
                        policy.max_age_secs as nat,
                    ),
                )
            } else {
                d == DecisionView::Refuse(login_refusal(req.path, takes_html(req.accept), false))
            }
        }),
{
}

/// What is public passes, with a password and without, unless it changes something and comes from
/// elsewhere.
pub proof fn law_what_is_public_passes(
    req: RequestView,
    password: Option<Seq<char>>,
    token: Option<Seq<char>>,
    policy: CookiePolicy,
)
    requires
        always_public(req.path),
        !(is_write(req.method) && cross_origin(req.origin, req.host)),
    ensures
        decision(req, password, token, policy) is Pass,
        settled_early(req) == Some(DecisionView::Pass),
{
}

/// What is known of a request is what it holds.
pub proof fn law_requests_hold_what_they_are_made_of(r: RequestHead)
    ensures
        r@.method == r.method@,
        r@.path == r.path@,
        r@.origin == text::opt_view(r.origin),
        r@.host == text::opt_view(r.host),
        r@.accept == text::opt_view(r.accept),
        r@.cookie == text::opt_view(r.cookie),
        r@.forwarded_proto == text::opt_view(r.forwarded_proto),
{
}

/// What becomes of a request is what was decided.
pub proof fn law_decisions_hold_what_they_are_made_of(d: Decision)
    ensures
        d is Pass <==> d@ is Pass,
        d matches Decision::PassWithCookie(c) ==> d@ == DecisionView::PassWithCookie(c@),
        d matches Decision::Refuse(r) ==> d@ == DecisionView::Refuse(r@),
{
}

} // verus!
