use tgstate::auth::{
    build_clear_cookie, build_cookie, build_share_cookie, cookie_secure_override,
    extract_cookie_value, generate_session_token, hash_password, is_hashed, parse_truthy,
    secure_compare, session_max_age_secs, session_token_from_bytes, share_cookie_name,
    share_unlocked, verify_password, verify_password_auto, CookiePolicy,
};

#[test]
fn generate_session_token_is_64_hex_chars() {
    let t = generate_session_token();
    assert_eq!(t.len(), 64);
    assert!(t.chars().all(|c| c.is_ascii_hexdigit()));
    // Two calls should differ with overwhelming probability.
    assert_ne!(t, generate_session_token());
}

#[test]
fn share_cookie_is_hex_only_and_round_trips() {
    let hash = "$argon2id$v=19$m=19456,t=2,p=1$c2FsdHNhbHRzYWx0$aGFzaGhhc2hoYXNoaGFzaA";
    let id = "abc123XYz0";

    let set_cookie = build_share_cookie(id, hash, true);
    let first = set_cookie.split(';').next().unwrap();
    let value = first.split_once('=').unwrap().1;
    assert!(
        value.chars().all(|c| c.is_ascii_hexdigit()),
        "cookie 值必须是纯 hex，实际: {value}"
    );

    let req_cookie = format!("foo=bar; {first}; baz=qux");
    assert!(share_unlocked(Some(&req_cookie), id, hash));
    assert!(!share_unlocked(Some(&req_cookie), id, "$argon2id$v=19$m=19456,t=2,p=1$other$other"));
    assert!(!share_unlocked(Some("foo=bar"), id, hash));
}

#[test]
fn session_token_writes_each_byte_in_two_digits() {
    let mut bytes = [0u8; 32];
    bytes[0] = 0xff;
    bytes[1] = 0x0a;
    bytes[31] = 0x10;
    let t = session_token_from_bytes(&bytes);
    assert!(t.starts_with("ff0a00"));
    assert!(t.ends_with("0010"));
    assert_eq!(t.len(), 64);
}

#[test]
fn session_cookie_has_its_attributes() {
    let plain = CookiePolicy { secure_override: false, max_age_secs: 604800 };
    let forced = CookiePolicy { secure_override: true, max_age_secs: 60 };
    assert_eq!(
        build_cookie("tok", false, &plain),
        "tgstate_session=tok; HttpOnly; SameSite=Strict; Path=/; Max-Age=604800"
    );
    assert_eq!(
        build_cookie("tok", true, &plain),
        "tgstate_session=tok; HttpOnly; SameSite=Strict; Path=/; Max-Age=604800; Secure"
    );
    assert_eq!(
        build_cookie("tok", false, &forced),
        "tgstate_session=tok; HttpOnly; SameSite=Strict; Path=/; Max-Age=60; Secure"
    );
    assert_eq!(
        build_clear_cookie(),
        "tgstate_session=; HttpOnly; SameSite=Strict; Path=/; Max-Age=0"
    );
}

#[test]
fn share_cookie_has_its_attributes() {
    assert_eq!(share_cookie_name("x1"), "sp_x1");
    assert_eq!(
        build_share_cookie("x1", "az", false),
        "sp_x1=617a; HttpOnly; SameSite=Lax; Path=/; Max-Age=86400"
    );
    assert_eq!(
        build_share_cookie("x1", "az", true),
        "sp_x1=617a; HttpOnly; SameSite=Lax; Path=/; Max-Age=86400; Secure"
    );
}

#[test]
fn truthy_words_force_secure_cookies() {
    assert!(parse_truthy("1"));
    assert!(parse_truthy(" TRUE "));
    assert!(parse_truthy("yes"));
    assert!(!parse_truthy("0"));
    assert!(!parse_truthy(""));
    assert!(cookie_secure_override(Some("on")));
    assert!(!cookie_secure_override(Some("off")));
    assert!(!cookie_secure_override(None));
}

#[test]
fn session_age_is_configurable() {
    assert_eq!(session_max_age_secs(None), 604800);
    assert_eq!(session_max_age_secs(Some("3600")), 3600);
    assert_eq!(session_max_age_secs(Some("abc")), 604800);
}

#[test]
fn comparison_tells_equal_texts_from_others() {
    assert!(secure_compare("abc", "abc"));
    assert!(secure_compare("", ""));
    assert!(!secure_compare("abc", "abd"));
    assert!(!secure_compare("abc", "ab"));
    assert!(secure_compare("密码", "密码"));
    assert!(!secure_compare("密码", "密鑰"));
}

#[test]
fn hashed_passwords_are_accepted_and_others_are_not() {
    let hash = hash_password("s3cret").unwrap();
    assert!(hash.starts_with("$argon2id$v=19$m=19456,t=2,p=1$"));
    assert!(is_hashed(&hash));
    assert!(verify_password("s3cret", &hash));
    assert!(!verify_password("S3cret", &hash));
    assert!(verify_password_auto("s3cret", &hash));
    assert!(!verify_password_auto(&hash, &hash));
    // Two hashes of one password have different salts.
    assert_ne!(hash, hash_password("s3cret").unwrap());
}

#[test]
fn plain_stored_passwords_are_compared() {
    assert!(!is_hashed("hunter2"));
    assert!(verify_password_auto("hunter2", "hunter2"));
    assert!(!verify_password_auto("hunter3", "hunter2"));
    assert!(!verify_password("x", "not a hash"));
    assert!(!verify_password("x", ""));
    assert!(!verify_password("x", "$scrypt$ln=15,r=8,p=1$c2FsdHNhbHQ$aGFzaGhhc2hoYXNo"));
    assert!(!verify_password("x", "$argon2id$v=19$m=19456,t=2,p=999999999$c2FsdHNhbHQ$aGFzaA"));
}

#[test]
fn last_parameter_of_a_name_counts() {
    let hash = hash_password("s3cret").unwrap();
    let twice = hash.replace("p=1$", "p=123456789,p=1$");
    assert_ne!(twice, hash);
    assert!(verify_password("s3cret", &twice));
    assert!(!verify_password("other", &twice));
    assert!(!verify_password("s3cret", &hash.replace("p=1$", "p=1,p=123456789$")));
    assert!(!verify_password("s3cret", &hash.replace("p=1$", "p=1,p=999999999$")));
}

#[test]
fn malformed_hashes_are_refused() {
    let hash = hash_password("s3cret").unwrap();
    assert_eq!(hash.len(), 97);
    let fields: Vec<&str> = hash.split('$').collect();
    assert_eq!(fields.len(), 6);
    // The default parameters and the version may be left out.
    assert!(verify_password("s3cret", &format!("$argon2id${}${}", fields[4], fields[5])));
    assert!(verify_password("s3cret", &format!("$argon2id$v=19${}${}", fields[4], fields[5])));
    assert!(verify_password("s3cret", &hash.replace("$v=19$", "$")));
    for text in [
        "$argon2".to_string(),
        "$argon2id$v=19$m=19456,t=2,p=1".to_string(),
        format!("$argon2id$v=19$m=19456,t=2,p=1${}", fields[4]),
        format!("$argon2id$v=19$m=19456,t=2,p=1${}$", fields[4]),
        format!("$argon2id$v=19$m=19456,t=2,p=1$${}", fields[5]),
        hash.replace("argon2id", "argon2x"),
        hash.replace("v=19", "v=20"),
        hash.replace("v=19", "v=019"),
        hash.replace("t=2", "t=02"),
        hash.replace("t=2", "x=2"),
        hash.replace("t=2", "t"),
        format!("{}=", hash),
        format!("{}$", hash),
        format!("x{}", hash),
    ] {
        assert!(!verify_password("s3cret", &text), "{}", text);
    }
}

#[test]
fn first_cookie_of_a_name_counts() {
    assert_eq!(extract_cookie_value(Some("a=1; b=2; a=3"), "a"), Some("1"));
    assert_eq!(extract_cookie_value(Some("a=1;b=2=3"), "b"), Some("2=3"));
    assert_eq!(extract_cookie_value(Some("ab=1; flag"), "b"), None);
    assert_eq!(extract_cookie_value(Some(""), "a"), None);
    assert_eq!(extract_cookie_value(None, "a"), None);
}

#[test]
fn changed_share_password_locks_again() {
    let cookie = build_share_cookie("f", "hash-one", false);
    let pair = cookie.split(';').next().unwrap();
    assert!(share_unlocked(Some(pair), "f", "hash-one"));
    assert!(!share_unlocked(Some(pair), "f", "hash-two"));
    assert!(!share_unlocked(Some(pair), "g", "hash-one"));
    assert!(!share_unlocked(None, "f", "hash-one"));
}
