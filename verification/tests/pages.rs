use tgstate::auth::hash_password;
use tgstate::config::AppSettingsMap;
use tgstate::database::FileMetadata;
use tgstate::json::Json;
use tgstate::reply::{Body, Reply};
use tgstate::routes::api_files::{download_file_legacy, download_file_short, DownloadQuery};
use tgstate::routes::pages::{
    image_hosting, index, login, names_image, only_images, page_cfg, settings_page, share_page,
    share_unlock, static_url, unlock_checked, welcome, SizedFile, UnlockRequest,
};

fn named(name: &str, share_password: Option<&str>) -> FileMetadata {
    FileMetadata {
        filename: name.to_string(),
        file_id: "5:F".to_string(),
        filesize: 1048576,
        upload_date: "2024-01-02 03:04:05".to_string(),
        short_id: Some("ab".to_string()),
        share_password: share_password.map(|s| s.to_string()),
    }
}

fn page(r: &Reply) -> (&str, Json) {
    match &r.body {
        Body::Page { template, context } => {
            let mut fields = Vec::new();
            for (k, v) in context {
                let copy = match v {
                    Json::Str(s) => Json::Str(s.clone()),
                    _ => Json::Null,
                };
                fields.push((k.clone(), copy));
            }
            (template.as_str(), Json::Obj(fields))
        }
        other => panic!("unexpected body: {:?}", other),
    }
}

fn in_context<'a>(r: &'a Reply, name: &str) -> &'a Json {
    match &r.body {
        Body::Page { context, .. } => &context.iter().find(|c| c.0 == name).unwrap().1,
        other => panic!("unexpected body: {:?}", other),
    }
}

#[test]
fn pages_are_told_about_the_bot() {
    let mut s = AppSettingsMap::empty();
    let cfg = page_cfg(&s, true);
    assert_eq!(cfg.get("bot_ready"), Some(&Json::Bool(false)));
    assert_eq!(cfg.get("bot_running"), Some(&Json::Bool(true)));
    assert_eq!(
        cfg.get("missing"),
        Some(&Json::Arr(vec![
            Json::Str("BOT_TOKEN".to_string()),
            Json::Str("CHANNEL_NAME".to_string())
        ]))
    );
    s.bot_token = Some("t".to_string());
    s.channel_name = Some("@c".to_string());
    let cfg = page_cfg(&s, false);
    assert_eq!(cfg.get("bot_ready"), Some(&Json::Bool(true)));
    assert_eq!(cfg.get("missing"), Some(&Json::Arr(vec![])));
}

#[test]
fn plain_pages_have_their_templates() {
    assert_eq!(page(&welcome()).0, "welcome.html");
    let r = login();
    let (template, context) = page(&r);
    assert_eq!(template, "pwd.html");
    assert_eq!(context.get_text("request_path"), Some("/login"));
    let r = settings_page(&AppSettingsMap::empty(), false);
    let (template, context) = page(&r);
    assert_eq!(template, "settings.html");
    assert_eq!(context.get_text("request_path"), Some("/settings"));
}

#[test]
fn files_are_shown_with_their_details() {
    let mut nameless = named("x.bin", Some("h"));
    nameless.short_id = Some(String::new());
    let files = vec![
        SizedFile { file: named("a.txt", None), filesize_mb: "1.00".to_string() },
        SizedFile { file: nameless, filesize_mb: "1.00".to_string() },
    ];
    let r = index(&AppSettingsMap::empty(), false, &files);
    assert_eq!(page(&r).0, "index.html");
    let items = match in_context(&r, "files") {
        Json::Arr(items) => items,
        other => panic!("unexpected value: {:?}", other),
    };
    assert_eq!(items[0].get_text("display_id"), Some("ab"));
    assert_eq!(items[0].get_text("upload_date_short"), Some("2024-01-02"));
    assert_eq!(items[0].get_text("filesize_mb"), Some("1.00"));
    assert_eq!(items[0].get("has_password"), Some(&Json::Bool(false)));
    assert_eq!(items[1].get_text("display_id"), Some("5:F"));
    assert_eq!(items[1].get_text("short_id"), Some(""));
    assert_eq!(items[1].get("has_password"), Some(&Json::Bool(true)));
}

#[test]
fn images_are_told_by_their_names() {
    let images = only_images(vec![
        named("a.JPG", None),
        named("b.txt", None),
        named("c.svg", None),
        named("jpg", None),
    ]);
    let names: Vec<&str> = images.iter().map(|f| f.filename.as_str()).collect();
    assert_eq!(names, vec!["a.JPG", "c.svg"]);
    assert!(names_image("x.webp"));
    assert!(!names_image("x.webp.zip"));
    let sized: Vec<SizedFile> =
        images.into_iter().map(|file| SizedFile { file, filesize_mb: "1.00".to_string() }).collect();
    let r = image_hosting(&AppSettingsMap::empty(), true, &sized);
    assert_eq!(page(&r).0, "image_hosting.html");
    assert_eq!(in_context(&r, "request_path"), &Json::Str("/image_hosting".to_string()));
}

#[test]
fn shared_files_have_a_page() {
    let mut s = AppSettingsMap::empty();
    s.base_url = Some("https://x.example//".to_string());
    let r = share_page(&Ok(Some(named("a b.txt", None))), "ab", &s, None, "1.00");
    assert_eq!(page(&r).0, "download.html");
    let f = in_context(&r, "file");
    let url = "https://x.example/d/ab/a%20b%2Etxt";
    assert_eq!(f.get_text("file_url"), Some(url));
    assert_eq!(
        f.get_text("html_code"),
        Some("<a href=\"https://x.example/d/ab/a%20b%2Etxt\">a b.txt</a>")
    );
    assert_eq!(
        f.get_text("markdown_code"),
        Some("[a b.txt](https://x.example/d/ab/a%20b%2Etxt)")
    );
    assert_eq!(f.get_text("upload_date_short"), Some("2024-01-02"));
    let r = share_page(&Ok(Some(named("a", None))), "ab", &AppSettingsMap::empty(), None, "1.00");
    assert_eq!(in_context(&r, "file").get_text("file_url"), Some("/d/ab/a"));
    let r = share_page(&Ok(None), "ab", &s, None, "");
    assert_eq!(r.status, 404);
    assert_eq!(r.body, Body::Text("File not found".to_string()));
    assert_eq!(share_page(&Err("e".to_string()), "ab", &s, None, "").status, 404);
}

#[test]
fn locked_pages_ask_for_the_password() {
    let s = AppSettingsMap::empty();
    let r = share_page(&Ok(Some(named("a.txt", Some("h")))), "ab", &s, None, "1.00");
    let (template, context) = page(&r);
    assert_eq!(template, "share_unlock.html");
    assert_eq!(context.get_text("filename"), Some("a.txt"));
    assert_eq!(context.get_text("file_id"), Some("ab"));
    assert_eq!(context.get_text("request_path"), Some("/share/ab"));
    assert_eq!(context.get("file"), None);
    // Another file of the same name looks the same from outside.
    let mut other = named("a.txt", Some("g"));
    other.filesize = 7;
    assert_eq!(share_page(&Ok(Some(other)), "ab", &s, None, "0.00"), r);
}

#[test]
fn share_password_opens_page_and_download() {
    let hash = hash_password("open").unwrap();
    let file = || Ok(Some(named("a.txt", Some(&hash))));
    let right = UnlockRequest { password: "open".to_string() };
    let r = share_unlock(&file(), &right, Some("https"));
    assert_eq!(r.status, 200);
    let cookie = &r.headers[0].1;
    assert!(cookie.starts_with("sp_ab="));
    assert!(cookie.ends_with("; Secure"));
    let pair = cookie.split(';').next().unwrap();
    let s = AppSettingsMap::empty();
    assert_eq!(page(&share_page(&file(), "ab", &s, Some(pair), "1.00")).0, "download.html");
    let q = DownloadQuery { download: None };
    assert!(download_file_short(file(), Some(pair), &q, None, false).is_ok());
    // The link on the page leads to the same file.
    let linked = download_file_legacy(
        file(),
        Some(pair),
        "ab".to_string(),
        "a.txt".to_string(),
        &q,
        None,
        false,
    );
    assert_eq!(linked, download_file_short(file(), Some(pair), &q, None, false));

    let wrong = UnlockRequest { password: "Open".to_string() };
    let r = share_unlock(&file(), &wrong, None);
    assert_eq!(r.status, 401);
    assert!(r.headers.is_empty());
    assert_eq!(unlock_checked(&named("a", None), "h", false, None).status, 401);
    assert_eq!(share_unlock(&Ok(Some(named("a", None))), &wrong, None).status, 200);
    assert_eq!(share_unlock(&Ok(None), &right, None).status, 404);
}

#[test]
fn static_files_lie_under_static() {
    assert_eq!(static_url(Some("/ui.css")), "/static/ui.css");
    assert_eq!(static_url(None), "/static");
}
