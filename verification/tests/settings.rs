use tgstate::auth::{verify_password, CookiePolicy};
use tgstate::config::{
    get_active_password, get_app_settings, is_bot_ready, AppSettingsMap, EnvVars, Settings,
};
use tgstate::database::save_app_settings_to_db;
use tgstate::error::{error_payload, AppError};
use tgstate::json::Json;
use tgstate::middleware::auth::{auth_middleware, Decision, RequestHead};
use tgstate::reply::{Body, Reply};
use tgstate::routes::api_auth::{
    login, login_checked, login_saved, logout, logout_with, with_session_token, LoginRequest, LoginStep,
};
use tgstate::routes::api_settings::{
    begin_verify_bot, begin_verify_channel, checked_config, config_to_save, get_app_config,
    internal_error, merge_config, merge_config_with, password_saved, reset_config, save_and_apply,
    save_config_only, set_password, trial_cleanup, validate_config, verify_bot, verify_channel,
    with_password, AppConfigRequest, BotStatus, PasswordChange, PasswordRequest, TryOutcome,
    VerifyRequest,
};
use tgstate::routes::api_sse::{file_updates, BusEvent, StreamStep};

fn env(bot_token: Option<&str>, pass_word: Option<&str>) -> Settings {
    Settings::from_env(EnvVars {
        bot_token: bot_token.map(|s| s.to_string()),
        channel_name: None,
        pass_word: pass_word.map(|s| s.to_string()),
        picgo_api_key: None,
        base_url: None,
        mode: None,
        file_route: None,
        data_dir: None,
    })
}

fn no_change() -> AppConfigRequest {
    AppConfigRequest { bot_token: None, channel_name: None, pass_word: None, base_url: None }
}

fn some_settings() -> AppSettingsMap {
    AppSettingsMap {
        bot_token: Some("123456:abcdefghijklmnop".to_string()),
        channel_name: Some("@chan".to_string()),
        pass_word: Some("old".to_string()),
        picgo_api_key: None,
        base_url: Some("https://x.example".to_string()),
        session_token: Some("tok".to_string()),
    }
}

fn body_json(r: &Reply) -> &Json {
    match &r.body {
        Body::Json(j) => j,
        other => panic!("unexpected body: {:?}", other),
    }
}

fn detail_code(r: &Reply) -> String {
    body_json(r).get("detail").unwrap().get_text("code").unwrap().to_string()
}

#[test]
fn environment_gives_defaults() {
    let s = env(Some(""), Some("pw"));
    assert_eq!(s.bot_token, None);
    assert_eq!(s.pass_word.as_deref(), Some("pw"));
    assert_eq!(s.base_url, "http://127.0.0.1:8000");
    assert_eq!(s._mode, "p");
    assert_eq!(s._file_route, "/d/");
    assert_eq!(s.data_dir, "app/data");
}

#[test]
fn database_settings_go_over_the_environment() {
    let s = env(Some("env-token"), Some("env-pw"));
    let mut db = AppSettingsMap::empty();
    db.bot_token = Some("  ".to_string());
    db.pass_word = Some(" db-pw ".to_string());
    db.session_token = Some("t".to_string());
    let merged = get_app_settings(&s, Some(&db));
    assert_eq!(merged.bot_token.as_deref(), Some("env-token"));
    assert_eq!(merged.pass_word.as_deref(), Some("db-pw"));
    assert_eq!(merged.base_url.as_deref(), Some("http://127.0.0.1:8000"));
    assert_eq!(merged.session_token.as_deref(), Some("t"));
    assert_eq!(get_active_password(&s, Some(&db)).as_deref(), Some("db-pw"));
    assert_eq!(get_active_password(&s, None).as_deref(), Some("env-pw"));
    assert_eq!(get_app_settings(&s, None).session_token, None);
    // After a reset the environment is in force again.
    assert_eq!(
        get_app_settings(&s, Some(&AppSettingsMap::empty())),
        get_app_settings(&s, None)
    );
}

#[test]
fn bot_needs_token_and_channel() {
    let mut s = AppSettingsMap::empty();
    assert!(!is_bot_ready(&s));
    s.bot_token = Some("t".to_string());
    s.channel_name = Some("  ".to_string());
    assert!(!is_bot_ready(&s));
    s.channel_name = Some("@c".to_string());
    assert!(is_bot_ready(&s));
}

#[test]
fn settings_are_checked_for_their_forms() {
    assert_eq!(validate_config(&some_settings()), Ok(()));
    assert_eq!(validate_config(&AppSettingsMap::empty()), Ok(()));
    let mut s = some_settings();
    s.bot_token = Some("short:token".to_string());
    assert_eq!(validate_config(&s).unwrap_err().2, "invalid_bot_token");
    s.bot_token = Some("abcdefghijklmnopqrstuvwxyz".to_string());
    assert_eq!(validate_config(&s).unwrap_err(), (400, "BOT_TOKEN 格式不正确", "invalid_bot_token"));
    s.bot_token = None;
    s.channel_name = Some("chan".to_string());
    assert_eq!(validate_config(&s).unwrap_err().2, "invalid_channel");
    s.channel_name = Some("-1001234".to_string());
    s.base_url = Some("ftp://x".to_string());
    assert_eq!(validate_config(&s).unwrap_err().2, "invalid_base_url");
    s.base_url = Some(" http://x ".to_string());
    assert_eq!(validate_config(&s), Ok(()));
}

#[test]
fn settings_are_merged() {
    let old = some_settings();
    assert_eq!(merge_config(&old, &no_change()), Ok(some_settings()));
    let mut change = no_change();
    change.bot_token = Some("  ".to_string());
    change.base_url = Some(" http://y ".to_string());
    let s = merge_config(&old, &change).unwrap();
    assert_eq!(s.bot_token, None);
    assert_eq!(s.base_url.as_deref(), Some("http://y"));
    assert_eq!(s.pass_word.as_deref(), Some("old"));
    let mut clear = no_change();
    clear.pass_word = Some("".to_string());
    let s = merge_config(&old, &clear).unwrap();
    assert_eq!(s.pass_word, None);
    assert_eq!(s.session_token, None);
    let mut set = no_change();
    set.pass_word = Some(" new ".to_string());
    let s = merge_config(&old, &set).unwrap();
    assert!(verify_password("new", s.pass_word.as_deref().unwrap()));
    assert_ne!(s.session_token.as_deref(), Some("tok"));
    assert_eq!(s.session_token.unwrap().len(), 64);
    let failed = PasswordChange::Renew { hashed: Err("e".to_string()), token: "t".to_string() };
    assert_eq!(
        merge_config_with(&old, &set, failed),
        Err((500, "密码哈希失败", "hash_error"))
    );
    let renewed = PasswordChange::Renew { hashed: Ok("h".to_string()), token: "t".to_string() };
    let s = merge_config_with(&old, &set, renewed).unwrap();
    assert_eq!(s.pass_word.as_deref(), Some("h"));
    assert_eq!(s.session_token.as_deref(), Some("t"));
}

#[test]
fn only_valid_settings_are_saved() {
    assert_eq!(checked_config(Ok(some_settings())), Ok(some_settings()));
    let mut change = no_change();
    change.channel_name = Some("bad".to_string());
    let r = config_to_save(Ok(some_settings()), &change).unwrap_err();
    assert_eq!(r.status, 400);
    assert_eq!(detail_code(&r), "invalid_channel");
    let kept = config_to_save(Err("db".to_string()), &no_change()).unwrap();
    assert_eq!(kept, AppSettingsMap::empty());
    let r = checked_config(Err((500, "密码哈希失败", "hash_error"))).unwrap_err();
    assert_eq!(detail_code(&r), "hash_error");
    assert_eq!(detail_code(&internal_error()), "internal_error");
    assert_eq!(
        body_json(&save_config_only(Ok(()))).get_text("message"),
        Some("已保存（未应用）")
    );
    assert_eq!(detail_code(&save_config_only(Err("e".to_string()))), "save_error");
}

#[test]
fn applied_settings_come_with_their_cookie() {
    let policy = CookiePolicy { secure_override: false, max_age_secs: 5 };
    let bot = BotStatus { ready: true, running: false, error: None };
    let r = save_and_apply(&some_settings(), &bot, Some("https"), &policy);
    assert_eq!(
        r.headers,
        vec![(
            "Set-Cookie".to_string(),
            "tgstate_session=tok; HttpOnly; SameSite=Strict; Path=/; Max-Age=5; Secure".to_string()
        )]
    );
    assert_eq!(body_json(&r).get("bot").unwrap().get("ready"), Some(&Json::Bool(true)));
    let r = save_and_apply(&AppSettingsMap::empty(), &bot, None, &policy);
    assert_eq!(
        r.headers[0].1,
        "tgstate_session=; HttpOnly; SameSite=Strict; Path=/; Max-Age=0"
    );
    let r = reset_config();
    assert_eq!(body_json(&r).get_text("message"), Some("配置已重置"));
    assert!(r.headers[0].1.ends_with("Max-Age=0"));
}

#[test]
fn password_is_set_alone() {
    let r = set_password(&PasswordRequest { password: " pw ".to_string() }, Ok(some_settings())).unwrap();
    assert!(verify_password("pw", r.pass_word.as_deref().unwrap()));
    assert_eq!(r.session_token.as_deref().unwrap().len(), 64);
    assert_eq!(r.channel_name.as_deref(), Some("@chan"));
    let r = with_password(Err("db".to_string()), Ok("h".to_string()), "t".to_string()).unwrap();
    assert_eq!(r.pass_word.as_deref(), Some("h"));
    assert_eq!(r.channel_name, None);
    let r = with_password(Ok(some_settings()), Err("e".to_string()), "t".to_string()).unwrap_err();
    assert_eq!(detail_code(&r), "hash_error");
    assert_eq!(password_saved(Ok(())).status, 200);
    assert_eq!(detail_code(&password_saved(Err("e".to_string()))), "write_password_failed");
}

#[test]
fn shown_settings_hold_no_secret() {
    let bot = BotStatus { ready: true, running: true, error: Some("x".to_string()) };
    let r = get_app_config(&some_settings(), &bot);
    let cfg = body_json(&r).get("cfg").unwrap();
    assert_eq!(cfg.get("BOT_TOKEN_SET"), Some(&Json::Bool(true)));
    assert_eq!(cfg.get("PASS_WORD_SET"), Some(&Json::Bool(true)));
    assert_eq!(cfg.get_text("CHANNEL_NAME"), Some("@chan"));
    assert_eq!(cfg.get_text("BASE_URL"), Some("https://x.example"));
    assert_eq!(body_json(&r).get("bot").unwrap().get_text("error"), Some("x"));
    let mut other = some_settings();
    other.bot_token = Some("other".to_string());
    other.pass_word = Some("different".to_string());
    other.session_token = None;
    other.picgo_api_key = Some("key".to_string());
    assert_eq!(get_app_config(&other, &bot), r);
    let r = get_app_config(&AppSettingsMap::empty(), &bot);
    assert_eq!(body_json(&r).get("cfg").unwrap().get("BOT_TOKEN_SET"), Some(&Json::Bool(false)));
}

#[test]
fn bots_are_tried_out() {
    let ask = VerifyRequest { bot_token: Some("9:z".to_string()), channel_name: None };
    assert_eq!(
        begin_verify_bot(&ask, &some_settings()),
        Ok("https://api.telegram.org/bot9:z/getMe".to_string())
    );
    let none = VerifyRequest { bot_token: None, channel_name: None };
    assert!(begin_verify_bot(&none, &some_settings()).unwrap().contains("123456:"));
    let r = begin_verify_bot(&none, &AppSettingsMap::empty()).unwrap_err();
    assert_eq!(body_json(&r).get_text("message"), Some("未提供 BOT_TOKEN"));
    let result = Json::Obj(vec![("username".to_string(), Json::Str("bot".to_string()))]);
    let ok = TryOutcome::Answered(Json::Obj(vec![
        ("ok".to_string(), Json::Bool(true)),
        ("result".to_string(), result),
    ]));
    let r = verify_bot(&ok);
    assert_eq!(body_json(&r).get("available"), Some(&Json::Bool(true)));
    assert_eq!(body_json(&r).get("result").unwrap().get_text("username"), Some("bot"));
    let nameless = TryOutcome::Answered(Json::Obj(vec![("ok".to_string(), Json::Bool(true))]));
    assert_eq!(
        body_json(&verify_bot(&nameless)).get("result").unwrap().get_text("username"),
        Some("unknown")
    );
    let refused = TryOutcome::Answered(Json::Obj(vec![(
        "description".to_string(),
        Json::Str("Unauthorized".to_string()),
    )]));
    assert_eq!(body_json(&verify_bot(&refused)).get_text("message"), Some("Unauthorized"));
    assert_eq!(
        body_json(&verify_bot(&TryOutcome::Answered(Json::Null))).get_text("message"),
        Some("Unknown error")
    );
    assert_eq!(body_json(&verify_bot(&TryOutcome::Unreachable)).get_text("message"), Some("连接失败"));
    assert_eq!(body_json(&verify_bot(&TryOutcome::Unreadable)).get_text("message"), Some("解析响应失败"));
}

#[test]
fn channels_are_tried_out_and_cleaned_up() {
    let ask = VerifyRequest { bot_token: None, channel_name: Some("@other".to_string()) };
    let (tried, call) = begin_verify_channel(&ask, &some_settings()).unwrap();
    assert_eq!(tried.channel_name, "@other");
    assert!(call.url.ends_with("/sendMessage"));
    assert_eq!(call.body.get_text("chat_id"), Some("@other"));
    assert_eq!(call.body.get_text("text"), Some("tgState channel check"));
    let r = begin_verify_channel(&ask, &AppSettingsMap::empty()).unwrap_err();
    assert_eq!(body_json(&r).get_text("message"), Some("缺少 BOT_TOKEN 或 CHANNEL_NAME"));
    let result = Json::Obj(vec![("message_id".to_string(), Json::Uint(77))]);
    let ok = TryOutcome::Answered(Json::Obj(vec![
        ("ok".to_string(), Json::Bool(true)),
        ("result".to_string(), result),
    ]));
    let cleanup = trial_cleanup(&tried, &ok).unwrap();
    assert!(cleanup.url.ends_with("/deleteMessage"));
    assert_eq!(cleanup.body.get_u64("message_id"), Some(77));
    assert_eq!(body_json(&verify_channel(&ok)).get("available"), Some(&Json::Bool(true)));
    assert_eq!(trial_cleanup(&tried, &TryOutcome::Unreachable), None);
    assert_eq!(
        body_json(&verify_channel(&TryOutcome::Unreachable)).get_text("message"),
        Some("连接失败")
    );
    assert_eq!(
        body_json(&verify_channel(&TryOutcome::Unreadable)).get_text("message"),
        Some("解析响应失败")
    );
    assert_eq!(
        body_json(&verify_channel(&TryOutcome::Answered(Json::Null))).get_text("message"),
        Some("Unknown error")
    );
}

#[test]
fn login_takes_the_right_password() {
    let hash = tgstate::auth::hash_password("pw").unwrap();
    let right = LoginRequest { password: " pw ".to_string() };
    let wrong = LoginRequest { password: "pW".to_string() };
    match login(&right, Some(&hash)) {
        LoginStep::Accept(t) => assert_eq!(t.len(), 64),
        other => panic!("unexpected step: {:?}", other),
    }
    match login(&wrong, Some(&hash)) {
        LoginStep::Refuse(r) => {
            assert_eq!(r.status, 401);
            assert_eq!(body_json(&r).get_text("message"), Some("密码错误"));
        }
        other => panic!("unexpected step: {:?}", other),
    }
    assert!(matches!(login(&right, Some(" pw")), LoginStep::Accept(_)));
    assert!(matches!(login(&right, None), LoginStep::Refuse(_)));
    assert_eq!(login_checked(true, "t".to_string()), LoginStep::Accept("t".to_string()));
}

#[test]
fn login_saves_its_token_and_sets_the_cookie() {
    let policy = CookiePolicy { secure_override: true, max_age_secs: 9 };
    let s = with_session_token(Ok(some_settings()), "new".to_string());
    assert_eq!(s.session_token.as_deref(), Some("new"));
    assert_eq!(s.pass_word.as_deref(), Some("old"));
    assert_eq!(with_session_token(Err("e".to_string()), "n".to_string()).pass_word, None);
    let r = login_saved(Ok(()), "new", None, &policy);
    assert_eq!(
        r.headers[0].1,
        "tgstate_session=new; HttpOnly; SameSite=Strict; Path=/; Max-Age=9; Secure"
    );
    assert_eq!(body_json(&r).get_text("message"), Some("登录成功"));
    let r = login_saved(Err("e".to_string()), "new", None, &policy);
    assert_eq!(r.status, 500);
    assert!(r.headers.is_empty());
}

#[test]
fn logout_ends_the_own_session_only() {
    let settings = env(None, None);
    let (save, r) = logout(Some("tgstate_session=tok"), &settings, Ok(some_settings()));
    let save = save.unwrap();
    assert_ne!(save.session_token.as_deref(), Some("tok"));
    assert_eq!(save.pass_word.as_deref(), Some("old"));
    assert!(r.headers[0].1.ends_with("Max-Age=0"));
    assert_eq!(body_json(&r).get_text("message"), Some("已退出登录"));
    for cookie in [None, Some("tgstate_session=other"), Some("x=tok")] {
        let (save, r) = logout(cookie, &settings, Ok(some_settings()));
        assert_eq!(save, None);
        assert_eq!(r.status, 200);
    }
    let mut open = some_settings();
    open.pass_word = None;
    assert_eq!(logout(Some("tgstate_session=tok"), &settings, Ok(open)).0, None);
    assert_eq!(logout(Some("tgstate_session="), &settings, Err("e".to_string())).0, None);
    let next = logout_with(Some("tgstate_session=tok"), &settings, Ok(some_settings()), "n".to_string());
    assert_eq!(next.unwrap().session_token.as_deref(), Some("n"));
}

#[test]
fn login_opens_and_logout_closes() {
    let settings = env(None, None);
    let policy = CookiePolicy { secure_override: false, max_age_secs: 60 };
    let request = PasswordRequest { password: " pw ".to_string() };
    let stored = save_app_settings_to_db(&set_password(&request, Ok(AppSettingsMap::empty())).unwrap());
    let active = get_active_password(&settings, Some(&stored));
    let token = match login(&LoginRequest { password: "pw".to_string() }, active.as_deref()) {
        LoginStep::Accept(t) => t,
        other => panic!("unexpected step: {:?}", other),
    };
    let stored = save_app_settings_to_db(&with_session_token(Ok(stored), token.clone()));
    let set_cookie = login_saved(Ok(()), &token, None, &policy).headers[0].1.clone();
    let pair = set_cookie.split(';').next().unwrap().to_string();
    let head = RequestHead {
        method: "GET".to_string(),
        path: "/api/files".to_string(),
        origin: None,
        host: None,
        accept: None,
        cookie: Some(pair.clone()),
        forwarded_proto: None,
    };
    assert!(matches!(
        auth_middleware(&head, &settings, Some(&stored), &policy),
        Decision::PassWithCookie(_)
    ));
    let (save, _) = logout(Some(&pair), &settings, Ok(stored));
    let stored = save_app_settings_to_db(&save.unwrap());
    assert!(matches!(
        auth_middleware(&head, &settings, Some(&stored), &policy),
        Decision::Refuse(_)
    ));
}

#[test]
fn applied_password_comes_with_an_open_session() {
    let settings = env(None, None);
    let policy = CookiePolicy { secure_override: false, max_age_secs: 60 };
    let mut change = no_change();
    change.pass_word = Some("new one".to_string());
    let merged = config_to_save(Ok(some_settings()), &change).unwrap();
    let bot = BotStatus { ready: true, running: true, error: None };
    let set_cookie = save_and_apply(&merged, &bot, None, &policy).headers[0].1.clone();
    let head = RequestHead {
        method: "GET".to_string(),
        path: "/".to_string(),
        origin: None,
        host: None,
        accept: None,
        cookie: Some(set_cookie.split(';').next().unwrap().to_string()),
        forwarded_proto: None,
    };
    let stored = save_app_settings_to_db(&merged);
    assert!(matches!(
        auth_middleware(&head, &settings, Some(&stored), &policy),
        Decision::PassWithCookie(_)
    ));
    assert_eq!(validate_config(&stored), Ok(()));
}

#[test]
fn listeners_are_sent_events() {
    assert_eq!(file_updates(BusEvent::Data("d".to_string())), StreamStep::Send("d".to_string()));
    assert_eq!(file_updates(BusEvent::Lagged), StreamStep::Skip);
    assert_eq!(file_updates(BusEvent::Closed), StreamStep::End);
    assert_eq!(file_updates(BusEvent::Tick), StreamStep::Comment("keepalive".to_string()));
}

#[test]
fn errors_carry_their_payload() {
    let p = error_payload("m", "c", None);
    assert_eq!(p.get_text("status"), Some("error"));
    assert_eq!(p.get_text("code"), Some("c"));
    assert_eq!(p.get_text("message"), Some("m"));
    assert_eq!(p.get("details"), None);
    let e = AppError::with_details(418, "m", "c", Json::Bool(true));
    assert_eq!(e.status_code, 418);
    assert_eq!(e.body.get("detail").unwrap().get("details"), Some(&Json::Bool(true)));
    assert_eq!(AppError::new(400, "m", "c").body.get("detail").unwrap().get("details"), None);
}
