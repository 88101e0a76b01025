use tgstate::auth::build_share_cookie;
use tgstate::config::AppSettingsMap;
use tgstate::database::FileMetadata;
use tgstate::json::Json;
use tgstate::reply::{Body, Reply};
use tgstate::constants::BATCH_DELETE_MAX;
use tgstate::routes::api_files::{
    batch_delete_files, begin_batch_delete, begin_download, chunk_download_failed_response,
    chunk_stream_error, chunk_tried, content_disposition, content_type_of, delete_file,
    download_file_legacy, download_file_short, get_files_list, get_telegram_service,
    guess_content_type, hashed_or_refusal, health_check, invalid_identifier, real_file_id,
    serve_file, set_share_password, share_password_written, BatchDeleteRequest, BatchOutcome,
    ChunkStep, DownloadQuery, ServeEvent, ServeRequest, ServeStep, SharePasswordRequest,
};
use tgstate::routes::api_upload::{assemble_ordered_chunk_ids, build_blob_manifest, Upload, UploadEnd};
use tgstate::telegram::service::{plan_deletion, DeleteOutcome, TelegramService};

fn stored(short_id: Option<&str>, share_password: Option<&str>) -> FileMetadata {
    FileMetadata {
        filename: "a.txt".to_string(),
        file_id: "5:F".to_string(),
        filesize: 3,
        upload_date: "2024-01-02 03:04:05".to_string(),
        short_id: short_id.map(|s| s.to_string()),
        share_password: share_password.map(|s| s.to_string()),
    }
}

fn serving(range: Option<&str>, is_head: bool) -> ServeRequest {
    ServeRequest {
        file_id: "5:F:G".to_string(),
        filename: "a.txt".to_string(),
        range: range.map(|s| s.to_string()),
        force_download: false,
        is_head,
    }
}

fn bot_settings() -> AppSettingsMap {
    let mut s = AppSettingsMap::empty();
    s.bot_token = Some("1:t".to_string());
    s.channel_name = Some("@c".to_string());
    s
}

fn answer(step: ServeStep) -> Reply {
    match step {
        ServeStep::Answer(r) => r,
        other => panic!("unexpected step: {:?}", other),
    }
}

fn json_of(r: &Reply) -> &Json {
    match &r.body {
        Body::Json(j) => j,
        other => panic!("unexpected body: {:?}", other),
    }
}

fn code_of(r: &Reply) -> String {
    json_of(r).get("detail").unwrap().get_text("code").unwrap().to_string()
}

fn header<'a>(r: &'a Reply, name: &str) -> Option<&'a str> {
    r.headers.iter().find(|h| h.0 == name).map(|h| h.1.as_str())
}

#[test]
fn manifest_chunk_failure_returns_bad_gateway() {
    let response = chunk_download_failed_response("chunk-1");
    assert_eq!(response.status, 502);
}

#[test]
fn identifiers_are_checked() {
    assert!(invalid_identifier(""));
    assert!(invalid_identifier("a\nb"));
    assert!(invalid_identifier(&"x".repeat(129)));
    assert!(!invalid_identifier(&"x".repeat(128)));
    // 43 characters of three bytes each are 129 bytes.
    assert!(invalid_identifier(&"文".repeat(43)));
    assert!(!invalid_identifier("12:AbC-_9"));
}

#[test]
fn content_types_follow_the_name() {
    assert_eq!(guess_content_type("a.png"), "image/png");
    assert_eq!(guess_content_type("a.txt"), "text/plain; charset=utf-8");
    assert_eq!(guess_content_type("noext"), "application/octet-stream");
    assert_eq!(content_type_of("text/html"), "text/html; charset=utf-8");
    assert_eq!(content_type_of("text/x; charset=gbk"), "text/x; charset=gbk");
    assert_eq!(content_type_of("video/mp4"), "video/mp4");
}

#[test]
fn active_content_is_served_as_attachment() {
    assert_eq!(content_disposition("a.txt", false), "inline; filename*=UTF-8''a%2Etxt");
    assert_eq!(content_disposition("A.PNG", false), "inline; filename*=UTF-8''A%2EPNG");
    assert_eq!(content_disposition("a.txt", true), "attachment; filename*=UTF-8''a%2Etxt");
    for name in ["x.html", "x.HTM", "x.svg", "x.xml", "x.js", "x.css", "x.exe", "x", "x."] {
        assert!(content_disposition(name, false).starts_with("attachment; "));
    }
    // A name without a dot is its own extension.
    assert!(content_disposition("pdf", false).starts_with("inline; "));
    assert_eq!(content_disposition("文", false), "attachment; filename*=UTF-8''%E6%96%87");
    // No name can end the header or add to it.
    assert_eq!(
        content_disposition("a\"\r\nX: y.bin", false),
        "attachment; filename*=UTF-8''a%22%0D%0AX%3A%20y%2Ebin"
    );
    // The Kelvin sign is lower-cased to an ASCII letter by the Unicode rules.
    assert!(content_disposition("x.m\u{212a}v", false).starts_with("attachment; "));
}

#[test]
fn serving_begins_with_the_file_and_its_first_bytes() {
    let req = serving(None, false);
    assert_eq!(serve_file(&req, &ServeEvent::Begun), ServeStep::Locate("F:G".to_string()));
    assert_eq!(real_file_id("plain"), "plain");
    assert_eq!(
        serve_file(&req, &ServeEvent::Located(Ok(Some("http://u".to_string())))),
        ServeStep::Peek { url: "http://u".to_string(), range: "bytes=0-127".to_string() }
    );
    assert_eq!(
        serve_file(&req, &ServeEvent::Peeked(b"tgstate-blob\nx".to_vec())),
        ServeStep::FetchManifest
    );
    assert_eq!(serve_file(&req, &ServeEvent::Peeked(b"data".to_vec())), ServeStep::FetchFile);
    let ranged = serving(Some("bytes=1-2"), false);
    assert_eq!(
        serve_file(&ranged, &ServeEvent::Peeked(b"data".to_vec())),
        ServeStep::FetchRange("bytes=1-2".to_string())
    );
}

#[test]
fn serving_fails_with_its_own_codes() {
    let req = serving(None, false);
    let cases = vec![
        (ServeEvent::Located(Ok(None)), 404, "not_found"),
        (ServeEvent::Located(Err("e".to_string())), 503, "tg_error"),
        (ServeEvent::PeekRefused, 502, "download_error"),
        (ServeEvent::PeekBroken, 502, "read_error"),
        (ServeEvent::ManifestRefused, 502, "download_error"),
        (ServeEvent::ManifestBroken, 502, "read_error"),
        (ServeEvent::ManifestRead(b"tgstate-blob\nname\n".to_vec()), 500, "manifest_error"),
        (ServeEvent::RangeRefused, 502, "download_error"),
        (ServeEvent::FileRefused, 502, "download_error"),
    ];
    for (event, status, code) in cases {
        let r = answer(serve_file(&req, &event));
        assert_eq!(r.status, status);
        assert_eq!(code_of(&r), code);
    }
}

#[test]
fn files_are_passed_on_with_their_headers() {
    let full = ServeEvent::FileOpened { content_length: Some("9".to_string()) };
    let r = answer(serve_file(&serving(None, false), &full));
    assert_eq!(r.status, 200);
    assert_eq!(r.body, Body::Upstream);
    assert_eq!(header(&r, "Content-Type"), Some("text/plain; charset=utf-8"));
    assert_eq!(header(&r, "Content-Disposition"), Some("inline; filename*=UTF-8''a%2Etxt"));
    assert_eq!(header(&r, "Accept-Ranges"), Some("bytes"));
    assert_eq!(header(&r, "X-Content-Type-Options"), Some("nosniff"));
    assert_eq!(header(&r, "Content-Length"), Some("9"));
    let r = answer(serve_file(&serving(None, true), &full));
    assert_eq!(r.body, Body::Empty);
    let part = ServeEvent::RangeOpened {
        status: 206,
        content_range: Some("bytes 1-2/9".to_string()),
        content_length: None,
    };
    let r = answer(serve_file(&serving(Some("bytes=1-2"), false), &part));
    assert_eq!(r.status, 206);
    assert_eq!(r.body, Body::Upstream);
    assert_eq!(header(&r, "Content-Range"), Some("bytes 1-2/9"));
    assert_eq!(header(&r, "Content-Length"), None);
    assert_eq!(header(&r, "X-Content-Type-Options"), Some("nosniff"));
}

#[test]
fn manifests_are_served_under_the_name_they_hold() {
    let event = ServeEvent::ManifestRead(b"tgstate-blob\nmovie.mp4\n1:a\n2:b\n".to_vec());
    let r = answer(serve_file(&serving(None, false), &event));
    assert_eq!(r.body, Body::Chunks(vec!["1:a".to_string(), "2:b".to_string()]));
    assert_eq!(header(&r, "Content-Type"), Some("video/mp4"));
    assert_eq!(header(&r, "X-Content-Type-Options"), Some("nosniff"));
    let r = answer(serve_file(&serving(None, true), &event));
    assert_eq!(r.body, Body::Empty);
}

#[test]
fn download_gives_back_an_upload_in_chunks() {
    let data: Vec<u8> = (0..40u8).collect();
    let mut upload = Upload::new("big.bin", 16);
    let mut chunks = upload.receive(&data);
    if let UploadEnd::Chunked(Some(last)) = upload.finish() {
        chunks.push(last);
    }
    // The chunks are stored last to first, each under a file of its own.
    let mut done = Vec::new();
    for c in chunks.iter().rev() {
        done.push((c.index, format!("{}:file{}", 100 + c.index, c.index)));
    }
    let ids = assemble_ordered_chunk_ids(done);
    let manifest = build_blob_manifest("big.bin", &ids).into_bytes();
    let req = serving(None, false);
    let peek = manifest[..manifest.len().min(128)].to_vec();
    assert_eq!(serve_file(&req, &ServeEvent::Peeked(peek)), ServeStep::FetchManifest);
    let r = answer(serve_file(&req, &ServeEvent::ManifestRead(manifest)));
    let named = match r.body {
        Body::Chunks(named) => named,
        other => panic!("unexpected body: {:?}", other),
    };
    let mut whole = Vec::new();
    for id in named {
        let file = real_file_id(&id);
        let index: usize = file.strip_prefix("file").unwrap().parse().unwrap();
        whole.extend_from_slice(&chunks[index].data);
    }
    assert_eq!(whole, data);
}

#[test]
fn chunks_are_tried_twice() {
    assert_eq!(chunk_tried(0, true), ChunkStep::PassOn);
    assert_eq!(chunk_tried(0, false), ChunkStep::RetryAfter(1));
    assert_eq!(chunk_tried(1, true), ChunkStep::PassOn);
    assert_eq!(
        chunk_tried(1, false),
        ChunkStep::BreakOff("chunk download failed".to_string())
    );
    assert_eq!(chunk_stream_error("x"), "chunk stream error: x");
}

#[test]
fn downloads_need_an_identifier_and_a_bot() {
    assert_eq!(code_of(&begin_download("", &bot_settings()).unwrap_err()), "invalid_id");
    let r = begin_download("abc", &AppSettingsMap::empty()).unwrap_err();
    assert_eq!(r.status, 503);
    assert_eq!(code_of(&r), "bot_not_configured");
    assert_eq!(begin_download("abc", &bot_settings()).unwrap().channel_name, "@c");
    let mut half = bot_settings();
    half.channel_name = Some(String::new());
    assert_eq!(get_telegram_service(&half).unwrap_err().status, 503);
}

#[test]
fn locked_files_are_downloaded_with_their_cookie_only() {
    let plain = DownloadQuery { download: None };
    let open = download_file_short(Ok(Some(stored(Some("ab"), None))), None, &plain, None, false);
    let req = open.unwrap();
    assert_eq!(req.file_id, "5:F");
    assert_eq!(req.filename, "a.txt");
    assert!(!req.force_download && !req.is_head);

    let locked = download_file_short(Ok(Some(stored(Some("ab"), Some("h")))), None, &plain, None, false);
    let r = locked.unwrap_err();
    assert_eq!(r.status, 401);
    assert_eq!(code_of(&r), "share_locked");

    let cookie = build_share_cookie("ab", "h", false);
    let pair = cookie.split(';').next().unwrap();
    let save = DownloadQuery { download: Some("1".to_string()) };
    let req = download_file_short(
        Ok(Some(stored(Some("ab"), Some("h")))),
        Some(pair),
        &save,
        Some("bytes=0-".to_string()),
        true,
    )
    .unwrap();
    assert!(req.force_download && req.is_head);
    assert_eq!(req.range.as_deref(), Some("bytes=0-"));

    // Without a short identifier the cookie goes by the file.
    let cookie = build_share_cookie("5:F", "h", false);
    let pair = cookie.split(';').next().unwrap();
    assert!(download_file_short(Ok(Some(stored(None, Some("h")))), Some(pair), &plain, None, false).is_ok());
    assert!(download_file_short(Ok(Some(stored(Some(""), Some("h")))), Some(pair), &plain, None, false).is_ok());

    assert_eq!(download_file_short(Ok(None), None, &plain, None, false).unwrap_err().status, 404);
    assert_eq!(
        download_file_short(Err("db".to_string()), None, &plain, None, false).unwrap_err().status,
        404
    );
}

#[test]
fn named_links_serve_the_named_file() {
    let named = |file: Result<Option<FileMetadata>, String>, cookie: Option<&str>, download: &str| {
        let q = DownloadQuery { download: Some(download.to_string()) };
        download_file_legacy(file, cookie, "F".to_string(), "n.txt".to_string(), &q, None, false)
    };
    // What is not stored is a file of the channel.
    let req = named(Ok(None), None, "true").unwrap();
    assert_eq!(req.file_id, "F");
    assert_eq!(req.filename, "n.txt");
    assert!(req.force_download && !req.is_head);
    assert!(!named(Ok(None), None, "yes").unwrap().force_download);
    // What is stored is served under the name that the link gives.
    let req = named(Ok(Some(stored(Some("ab"), None))), None, "").unwrap();
    assert_eq!(req.file_id, "5:F");
    assert_eq!(req.filename, "n.txt");
    let r = named(Err("db".to_string()), None, "").unwrap_err();
    assert_eq!(r.status, 404);
    assert_eq!(code_of(&r), "not_found");
}

#[test]
fn named_links_do_not_open_locked_files() {
    let q = DownloadQuery { download: None };
    for is_head in [false, true] {
        let ask = |cookie: Option<&str>| {
            let file = Ok(Some(stored(Some("ab"), Some("h"))));
            download_file_legacy(file, cookie, "ab".to_string(), "a.txt".to_string(), &q, None, is_head)
        };
        let r = ask(None).unwrap_err();
        assert_eq!(r.status, 401);
        assert_eq!(code_of(&r), "share_locked");
        assert_eq!(ask(Some("sp_ab=00")).unwrap_err().status, 401);
        let cookie = build_share_cookie("ab", "h", false);
        let req = ask(cookie.split(';').next()).unwrap();
        assert_eq!(req.file_id, "5:F");
        assert_eq!(req.is_head, is_head);
    }
}

#[test]
fn list_of_files_shows_no_hash() {
    let r = get_files_list(Ok(vec![stored(Some("ab"), Some("hash")), stored(None, None)]));
    let items = match json_of(&r) {
        Json::Arr(items) => items,
        other => panic!("unexpected value: {:?}", other),
    };
    assert_eq!(items.len(), 2);
    assert_eq!(items[0].get("has_password"), Some(&Json::Bool(true)));
    assert_eq!(items[0].get_text("short_id"), Some("ab"));
    assert_eq!(items[0].get_u64("filesize"), Some(3));
    assert_eq!(items[1].get("has_password"), Some(&Json::Bool(false)));
    assert_eq!(items[1].get("short_id"), Some(&Json::Null));
    assert!(!format!("{:?}", items).contains("\"hash\""));
    let other = get_files_list(Ok(vec![stored(Some("ab"), Some("another")), stored(None, None)]));
    assert_eq!(r, other);
    assert_eq!(json_of(&get_files_list(Err("e".to_string()))), &Json::Arr(vec![]));
}

#[test]
fn deletion_is_answered_by_what_is_gone() {
    let gone = DeleteOutcome::Answer(Json::Obj(vec![("ok".to_string(), Json::Bool(true))]));
    let done = TelegramService::delete_file_with_chunks("5:F", None, &vec![], &gone);
    let r = delete_file("5:F", &done, Ok(true));
    assert_eq!(r.status, 200);
    let j = json_of(&r);
    assert_eq!(j.get_text("status"), Some("ok"));
    assert_eq!(j.get_text("message"), Some("文件 5:F 已删除。"));
    assert_eq!(j.get("details").unwrap().get_text("db"), Some("deleted"));
    assert_eq!(
        j.get("details").unwrap().get("tg").unwrap().get_text("status"),
        Some("success")
    );
    let r = delete_file("5:F", &done, Err("db".to_string()));
    assert_eq!(json_of(&r).get("details").unwrap().get_text("db"), Some("not_found_in_db"));

    let body: &[u8] = b"tgstate-blob\nname\n1:a\n";
    let left = vec![Some(DeleteOutcome::SendFailed)];
    let partial = TelegramService::delete_file_with_chunks("5:F", Some(body), &left, &gone);
    let r = delete_file("5:F", &partial, Ok(true));
    assert_eq!(r.status, 500);
    assert_eq!(json_of(&r).get_text("code"), Some("partial_failure"));

    let failed = plan_deletion("zzz").unwrap_err();
    let r = delete_file("zzz", &failed, Ok(true));
    assert_eq!(r.status, 200);
    assert_eq!(
        json_of(&r).get_text("message"),
        Some("文件 zzz 已从数据库删除（Telegram 删除失败）。")
    );
    let r = delete_file("zzz", &failed, Ok(false));
    assert_eq!(r.status, 400);
    assert_eq!(json_of(&r).get_text("code"), Some("delete_failed"));
}

#[test]
fn batches_are_limited_and_complete() {
    let many = |n: usize| BatchDeleteRequest { file_ids: vec!["a".to_string(); n] };
    assert_eq!(
        code_of(&begin_batch_delete(&many(BATCH_DELETE_MAX + 1), &bot_settings()).unwrap_err()),
        "too_many_items"
    );
    let request = many(BATCH_DELETE_MAX);
    assert!(begin_batch_delete(&request, &bot_settings()).is_ok());
    assert_eq!(begin_batch_delete(&request, &AppSettingsMap::empty()).unwrap_err().status, 503);
    let outcome = |id: &str, message_deleted: bool, record: Result<bool, String>| BatchOutcome {
        file_id: id.to_string(),
        message_deleted,
        record,
    };
    let r = batch_delete_files(&vec![
        outcome("a", true, Err("db".to_string())),
        outcome("b", false, Ok(false)),
        outcome("c", false, Ok(true)),
        outcome("d", false, Err("db".to_string())),
    ]);
    let j = json_of(&r);
    let list = |ids: Vec<&str>| Json::Arr(ids.into_iter().map(|s| Json::Str(s.to_string())).collect());
    assert_eq!(j.get_text("status"), Some("completed"));
    assert_eq!(j.get("deleted"), Some(&list(vec!["a", "c"])));
    assert_eq!(j.get("failed"), Some(&list(vec!["b", "d"])));
}

#[test]
fn share_passwords_are_hashed_or_cleared() {
    let blank = SharePasswordRequest { password: "  ".to_string() };
    assert_eq!(set_share_password(&blank), Ok(None));
    let given = SharePasswordRequest { password: " open sesame ".to_string() };
    let hash = set_share_password(&given).unwrap().unwrap();
    assert!(tgstate::auth::verify_password("open sesame", &hash));
    assert_eq!(hashed_or_refusal(Ok("h".to_string())), Ok("h".to_string()));
    assert_eq!(code_of(&hashed_or_refusal(Err("e".to_string())).unwrap_err()), "hash_error");
    let r = share_password_written(true, Ok(true));
    assert_eq!(json_of(&r).get("has_password"), Some(&Json::Bool(true)));
    assert_eq!(share_password_written(true, Ok(false)).status, 404);
    assert_eq!(code_of(&share_password_written(false, Err("e".to_string()))), "db_error");
}

#[test]
fn health_is_ok() {
    let r = health_check();
    assert_eq!(r.status, 200);
    assert_eq!(json_of(&r).get_text("status"), Some("ok"));
}
