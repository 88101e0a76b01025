use tgstate::auth::CookiePolicy;
use tgstate::config::{AppSettingsMap, EnvVars, Settings};
use tgstate::middleware::auth::{
    auth_middleware, check_session, forbidden_csrf, is_https, origin_allowed, path_is_allowed,
    redirect_or_401, settle_early, trim_slashes, wants_html, Decision, RequestHead,
};
use tgstate::middleware::security_headers::security_headers_middleware;
use tgstate::reply::Body;

fn no_env() -> EnvVars {
    EnvVars {
        bot_token: None,
        channel_name: None,
        pass_word: None,
        picgo_api_key: None,
        base_url: None,
        mode: None,
        file_route: None,
        data_dir: None,
    }
}

fn env_settings() -> Settings {
    Settings::from_env(no_env())
}

fn with_password(token: &str) -> AppSettingsMap {
    let mut s = AppSettingsMap::empty();
    s.pass_word = Some("pw".to_string());
    s.session_token = Some(token.to_string());
    s
}

fn request(method: &str, path: &str) -> RequestHead {
    RequestHead {
        method: method.to_string(),
        path: path.to_string(),
        origin: None,
        host: Some("h.example".to_string()),
        accept: None,
        cookie: None,
        forwarded_proto: None,
    }
}

fn policy() -> CookiePolicy {
    CookiePolicy { secure_override: false, max_age_secs: 100 }
}

fn status_of(d: Decision) -> u16 {
    match d {
        Decision::Refuse(r) => r.status,
        other => panic!("unexpected decision: {:?}", other),
    }
}

#[test]
fn root_is_exact_only() {
    let allowed = ["/", "/welcome", "/api/set-password"];
    assert!(path_is_allowed("/", &allowed));
    assert!(!path_is_allowed("/api/files", &allowed));
    assert!(!path_is_allowed("/settings", &allowed));
    assert!(!path_is_allowed("/api/files/x", &allowed));
}

#[test]
fn prefix_and_exact_forms() {
    let allowed = ["/api/verify/", "/api/app-config", "/welcome"];
    assert!(path_is_allowed("/api/verify", &allowed));
    assert!(path_is_allowed("/api/verify/bot", &allowed));
    assert!(path_is_allowed("/api/app-config", &allowed));
    assert!(path_is_allowed("/api/app-config/save", &allowed));
    assert!(path_is_allowed("/welcome", &allowed));
    assert!(!path_is_allowed("/api/files", &allowed));
    assert!(!path_is_allowed("/", &allowed));
}

#[test]
fn longer_names_are_not_allowed_by_shorter_ones() {
    assert!(!path_is_allowed("/welcomes", &["/welcome"]));
    assert!(!path_is_allowed("/api/verifying", &["/api/verify/"]));
    assert!(!path_is_allowed("/x", &[]));
    assert_eq!(trim_slashes("a//"), "a");
    assert_eq!(trim_slashes("//"), "");
    assert_eq!(trim_slashes("a/b"), "a/b");
}

#[test]
fn origins_are_compared_with_the_host() {
    assert!(origin_allowed(Some("https://h.example"), Some("h.example")));
    assert!(origin_allowed(Some("http://h.example:8000"), Some("h.example:8000")));
    assert!(!origin_allowed(Some("https://evil.example"), Some("h.example")));
    assert!(!origin_allowed(Some("null"), Some("h.example")));
    assert!(!origin_allowed(Some("https://a://h.example"), Some("h.example")));
    assert!(origin_allowed(None, Some("h.example")));
    assert!(origin_allowed(Some("https://evil.example"), None));
}

#[test]
fn writes_from_elsewhere_are_refused() {
    let mut r = request("POST", "/api/health");
    r.origin = Some("https://evil.example".to_string());
    let d = auth_middleware(&r, &env_settings(), Some(&with_password("t")), &policy());
    assert_eq!(status_of(d), 403);
    for method in ["PUT", "PATCH", "DELETE"] {
        r.method = method.to_string();
        assert_eq!(status_of(settle_early(&r).unwrap()), 403);
    }
    r.method = "GET".to_string();
    assert_eq!(settle_early(&r), Some(Decision::Pass));
    let refused = forbidden_csrf();
    match &refused.body {
        Body::Json(j) => assert_eq!(j.get_text("code"), Some("csrf_origin_mismatch")),
        other => panic!("unexpected body: {:?}", other),
    }
}

#[test]
fn public_paths_need_no_settings() {
    for path in ["/static/x.css", "/assets/a", "/favicon.ico", "/robots.txt", "/d/abc", "/share/abc", "/api/health"] {
        assert_eq!(settle_early(&request("GET", path)), Some(Decision::Pass));
    }
    for path in ["/", "/settings", "/api/files", "/api/healthy"] {
        assert_eq!(settle_early(&request("GET", path)), None);
    }
}

#[test]
fn without_a_password_only_onboarding_is_reachable() {
    let settings = env_settings();
    for path in ["/welcome", "/login", "/api/verify/bot", "/api/app-config/apply", "/api/set-password"] {
        assert_eq!(
            auth_middleware(&request("GET", path), &settings, None, &policy()),
            Decision::Pass
        );
    }
    for path in ["/", "/api/files", "/api/upload", "/settings"] {
        assert_eq!(
            status_of(auth_middleware(&request("GET", path), &settings, None, &policy())),
            401
        );
    }
    let mut page = request("GET", "/settings");
    page.accept = Some("text/html,*/*".to_string());
    match auth_middleware(&page, &settings, None, &policy()) {
        Decision::Refuse(r) => {
            assert_eq!(r.status, 303);
            assert_eq!(r.headers, vec![("Location".to_string(), "/welcome".to_string())]);
            assert_eq!(r.body, Body::Empty);
        }
        other => panic!("unexpected decision: {:?}", other),
    }
}

#[test]
fn sessions_open_everything_and_last_on() {
    let settings = env_settings();
    let stored = with_password("tok");
    let mut r = request("GET", "/api/files");
    assert_eq!(status_of(auth_middleware(&r, &settings, Some(&stored), &policy())), 401);
    r.cookie = Some("a=b; tgstate_session=tok".to_string());
    assert_eq!(
        auth_middleware(&r, &settings, Some(&stored), &policy()),
        Decision::PassWithCookie(
            "tgstate_session=tok; HttpOnly; SameSite=Strict; Path=/; Max-Age=100".to_string()
        )
    );
    r.forwarded_proto = Some("https".to_string());
    assert_eq!(
        auth_middleware(&r, &settings, Some(&stored), &policy()),
        Decision::PassWithCookie(
            "tgstate_session=tok; HttpOnly; SameSite=Strict; Path=/; Max-Age=100; Secure".to_string()
        )
    );
    // Another token ends the session.
    let rotated = with_password("new");
    assert_eq!(status_of(auth_middleware(&r, &settings, Some(&rotated), &policy())), 401);
    // Verifying a bot takes a session once there is a password.
    assert_eq!(
        status_of(auth_middleware(&request("POST", "/api/verify/bot"), &settings, Some(&stored), &policy())),
        401
    );
    for path in ["/login", "/pwd", "/api/auth/login", "/api/auth/logout"] {
        assert_eq!(
            auth_middleware(&request("GET", path), &settings, Some(&stored), &policy()),
            Decision::Pass
        );
    }
}

#[test]
fn session_needs_password_token_and_cookie() {
    assert!(check_session(Some("t"), Some("p"), Some("t")));
    assert!(!check_session(Some("t"), None, Some("t")));
    assert!(!check_session(Some("t"), Some(""), Some("t")));
    assert!(!check_session(Some(""), Some("p"), Some("")));
    assert!(!check_session(Some("t"), Some("p"), None));
    assert!(!check_session(None, Some("p"), Some("t")));
    assert!(!check_session(Some("u"), Some("p"), Some("t")));
}

#[test]
fn refusals_fit_the_client() {
    let r = redirect_or_401("/settings", true, false);
    assert_eq!(r.headers, vec![("Location".to_string(), "/login".to_string())]);
    let r = redirect_or_401("/api/files", true, false);
    assert_eq!(r.status, 401);
    assert_eq!(
        r.headers,
        vec![("Content-Type".to_string(), "application/json; charset=utf-8".to_string())]
    );
    match &r.body {
        Body::Json(j) => {
            assert_eq!(j.get_text("code"), Some("unauthorized"));
            assert_eq!(j.get_text("message"), Some("需要登录"));
        }
        other => panic!("unexpected body: {:?}", other),
    }
    assert!(wants_html(Some("application/xhtml+xml,text/html")));
    assert!(!wants_html(Some("application/json")));
    assert!(!wants_html(None));
    assert!(is_https(Some("https")));
    assert!(!is_https(Some("http")));
}

#[test]
fn answers_carry_security_headers() {
    let h = security_headers_middleware(None, None);
    assert_eq!(h.len(), 5);
    assert_eq!(h[4].0, "Content-Security-Policy");
    assert!(h[4].1.starts_with("default-src 'self'; "));
    assert!(h[4].1.ends_with("; frame-ancestors 'none'"));
    assert_eq!(h[0], ("X-Content-Type-Options".to_string(), "nosniff".to_string()));
    assert_eq!(h[1], ("X-Frame-Options".to_string(), "DENY".to_string()));
    assert_eq!(h[2], ("Referrer-Policy".to_string(), "no-referrer".to_string()));
    let h = security_headers_middleware(Some("https"), None);
    assert_eq!(
        h[5],
        (
            "Strict-Transport-Security".to_string(),
            "max-age=31536000; includeSubDomains".to_string()
        )
    );
    assert_eq!(security_headers_middleware(None, Some("https")).len(), 6);
    assert_eq!(security_headers_middleware(Some("http"), Some("http")).len(), 5);
}
