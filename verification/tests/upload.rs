use tgstate::constants;
use tgstate::database::FileMetadata;
use tgstate::json::Json;
use tgstate::reply::Body;
use tgstate::routes::api_upload::{
    added_event, after_field, assemble_ordered_chunk_ids, begin_upload, build_blob_manifest, chunk_message_id,
    chunk_sent, chunks_uploaded, file_field, manifest_recorded, manifest_sent,
    parse_upload_concurrency, read_failed, sanitize_filename, single_sent, upload_file, NewFile, TaskOutcome,
    Upload, UploadCourse, UploadEnd, UploadEvent, UploadOutcome, UploadStage, UploadStep,
};
use tgstate::config::AppSettingsMap;
use tgstate::telegram::types::{Document, Message};

fn sent_with(message_id: i64, file_id: Option<&str>) -> Message {
    Message { message_id, document: file_id.map(|f| Document { file_id: f.to_string() }) }
}

fn received(end: UploadEnd) -> UploadEvent {
    UploadEvent::Received { end, total_size: 3 }
}

#[test]
fn ordered_chunk_ids_sort_by_index_regardless_of_completion_order() {
    let out = assemble_ordered_chunk_ids(vec![
        (2, "30:c".to_string()),
        (0, "10:a".to_string()),
        (1, "20:b".to_string()),
    ]);
    assert_eq!(
        out,
        vec!["10:a".to_string(), "20:b".to_string(), "30:c".to_string()]
    );
}

#[test]
fn blob_manifest_layout_matches_download_parser() {
    let chunk_ids = vec!["10:a".to_string(), "20:b".to_string()];
    let manifest = build_blob_manifest("my file.bin", &chunk_ids);
    let lines: Vec<&str> = manifest.lines().collect();
    assert_eq!(lines[0], "tgstate-blob");
    assert_eq!(lines[1], "my file.bin");
    assert_eq!(lines[2..].to_vec(), vec!["10:a", "20:b"]);
    // Manifests with fewer than 3 lines are rejected when they are served.
    assert!(lines.len() >= 3);
}

#[test]
fn chunk_message_id_parses_leading_int_before_first_colon() {
    assert_eq!(chunk_message_id("123:ABCdef"), Some(123));
    assert_eq!(chunk_message_id("999"), None); // no colon
    assert_eq!(chunk_message_id("x:y"), None); // non-numeric id
    assert_eq!(chunk_message_id(":abc"), None); // empty message id
}

#[test]
fn upload_concurrency_parses_and_clamps_to_1_16() {
    let d = constants::MAX_CONCURRENT_CHUNK_UPLOADS;
    assert_eq!(parse_upload_concurrency(Some("5".into()), d), 5);
    assert_eq!(parse_upload_concurrency(Some(" 2 ".into()), d), 2);
    assert_eq!(parse_upload_concurrency(Some("1".into()), d), 1);
    assert_eq!(parse_upload_concurrency(Some("16".into()), d), 16);
    assert_eq!(parse_upload_concurrency(Some("0".into()), d), d); // below min
    assert_eq!(parse_upload_concurrency(Some("17".into()), d), d); // above max
    assert_eq!(parse_upload_concurrency(Some("abc".into()), d), d); // non-numeric
    assert_eq!(parse_upload_concurrency(None, d), d); // unset
}

#[test]
fn numbers_may_carry_a_sign() {
    assert_eq!(parse_upload_concurrency(Some("+5".into()), 3), 5);
    assert_eq!(parse_upload_concurrency(Some("-5".into()), 3), 3);
    assert_eq!(parse_upload_concurrency(Some("+".into()), 3), 3);
    assert_eq!(parse_upload_concurrency(Some("99999999999999999999999".into()), 3), 3);
    assert_eq!(chunk_message_id("+5:x"), Some(5));
    assert_eq!(chunk_message_id("-5:x"), Some(-5));
    assert_eq!(chunk_message_id("9223372036854775807:x"), Some(i64::MAX));
    assert_eq!(chunk_message_id("9223372036854775808:x"), None);
    assert_eq!(chunk_message_id("-9223372036854775808:x"), Some(i64::MIN));
}

#[test]
fn equal_indexes_keep_their_order() {
    let out = assemble_ordered_chunk_ids(vec![
        (1, "b1".to_string()),
        (0, "a".to_string()),
        (1, "b2".to_string()),
    ]);
    assert_eq!(out, vec!["a".to_string(), "b1".to_string(), "b2".to_string()]);
}

#[test]
fn file_names_are_reduced_to_their_last_part() {
    assert_eq!(sanitize_filename("a/b/c.txt"), "c.txt");
    assert_eq!(sanitize_filename("/etc/passwd"), "passwd");
    assert_eq!(sanitize_filename("dir/"), "dir");
    assert_eq!(sanitize_filename("dir/."), "dir");
    assert_eq!(sanitize_filename(".."), "upload");
    assert_eq!(sanitize_filename("a/.."), "upload");
    assert_eq!(sanitize_filename("."), "upload");
    assert_eq!(sanitize_filename("/"), "upload");
    assert_eq!(sanitize_filename(""), "upload");
    assert_eq!(sanitize_filename("a\nb\u{7f}.txt"), "ab.txt");
    assert_eq!(sanitize_filename("\u{1}\u{2}"), "upload");
    assert_eq!(sanitize_filename("照片.png"), "照片.png");
}

#[test]
fn long_file_names_are_cut_between_characters() {
    let long = "x".repeat(300);
    assert_eq!(sanitize_filename(&long), "x".repeat(255));
    // Three bytes each: 85 of them are 255 bytes.
    let wide = "文".repeat(100);
    assert_eq!(sanitize_filename(&wide), "文".repeat(85));
    let off = format!("a{}", "文".repeat(100));
    assert_eq!(sanitize_filename(&off), format!("a{}", "文".repeat(84)));
    assert_eq!(sanitize_filename(&"x".repeat(255)), "x".repeat(255));
}

#[test]
fn cleaned_file_names_stay_as_they_are() {
    for raw in ["a/b/c.txt", "x\ty", "", "..", "名.bin"] {
        let once = sanitize_filename(raw);
        assert_eq!(sanitize_filename(&once), once);
    }
}

#[test]
fn upload_is_cut_into_chunks_that_make_it_up() {
    let data: Vec<u8> = (0..23u8).collect();
    let mut upload = Upload::new("f.bin", 5);
    let mut chunks = Vec::new();
    chunks.extend(upload.receive(&data[0..3]));
    assert!(chunks.is_empty());
    chunks.extend(upload.receive(&data[3..16]));
    assert_eq!(chunks.len(), 3);
    chunks.extend(upload.receive(&data[16..23]));
    assert_eq!(upload.total_size, 23);
    match upload.finish() {
        UploadEnd::Chunked(Some(last)) => chunks.push(last),
        other => panic!("unexpected end: {:?}", other),
    }
    assert_eq!(chunks.len(), 5);
    let mut whole = Vec::new();
    for (i, c) in chunks.iter().enumerate() {
        assert_eq!(c.index, i);
        assert_eq!(c.name, format!("f.bin.part{}", i + 1));
        whole.extend_from_slice(&c.data);
    }
    assert_eq!(whole, data);
    assert_eq!(chunks[4].data.len(), 3);
}

#[test]
fn small_and_empty_and_even_uploads_end_differently() {
    let empty = Upload::new("f", 4);
    assert_eq!(empty.finish(), UploadEnd::Refused("文件为空".to_string()));
    let mut small = Upload::new("f", 4);
    assert!(small.receive(b"abc").is_empty());
    assert_eq!(small.finish(), UploadEnd::Single(b"abc".to_vec()));
    let mut even = Upload::new("f", 4);
    assert_eq!(even.receive(b"abcdefgh").len(), 2);
    assert_eq!(even.finish(), UploadEnd::Chunked(None));
}

#[test]
fn tasks_give_identifiers_or_errors() {
    assert_eq!(
        chunk_sent(3, Ok(sent_with(8, Some("F")))),
        TaskOutcome::Uploaded(3, "8:F".to_string())
    );
    assert_eq!(
        chunk_sent(3, Ok(sent_with(8, None))),
        TaskOutcome::Failed("No document in chunk response".to_string())
    );
    assert_eq!(chunk_sent(3, Err("net".to_string())), TaskOutcome::Failed("net".to_string()));
    assert_eq!(single_sent(Ok(sent_with(-1, Some("Z")))), Ok("-1:Z".to_string()));
    assert_eq!(
        single_sent(Ok(sent_with(1, None))),
        Err("No document in response".to_string())
    );
    assert_eq!(single_sent(Err("e".to_string())), Err("e".to_string()));
}

#[test]
fn finished_tasks_give_chunks_in_order() {
    let outcomes = vec![
        TaskOutcome::Uploaded(1, "20:b".to_string()),
        TaskOutcome::Uploaded(0, "10:a".to_string()),
    ];
    let pending = chunks_uploaded("x.bin", &outcomes).unwrap();
    assert_eq!(pending.chunk_ids, vec!["10:a".to_string(), "20:b".to_string()]);
    assert_eq!(pending.name, "x.bin.manifest");
    assert_eq!(pending.text, "tgstate-blob\nx.bin\n10:a\n20:b\n");
}

#[test]
fn failed_task_takes_back_the_uploaded_chunks() {
    let outcomes = vec![
        TaskOutcome::Uploaded(1, "20:b".to_string()),
        TaskOutcome::Broken("panic".to_string()),
        TaskOutcome::Failed("late".to_string()),
        TaskOutcome::Uploaded(0, "10:a".to_string()),
    ];
    let a = chunks_uploaded("x.bin", &outcomes).unwrap_err();
    assert_eq!(a.delete_messages, vec![20, 10]);
    assert_eq!(a.error, "上传任务异常: panic");
    let r = read_failed(&outcomes, "cut off");
    assert_eq!(r.delete_messages, vec![20, 10]);
    assert_eq!(r.error, "读取上传数据失败: cut off");
}

#[test]
fn manifest_that_cannot_be_stored_takes_everything_back() {
    let ids = vec!["10:a".to_string(), "bad".to_string(), "20:b".to_string()];
    let sent = manifest_sent(Ok(sent_with(30, Some("M"))), &ids).unwrap();
    assert_eq!(sent.message_id, 30);
    assert_eq!(sent.composite, "30:M");
    let a = manifest_sent(Ok(sent_with(30, None)), &ids).unwrap_err();
    assert_eq!(a.delete_messages, vec![30, 10, 20]);
    assert_eq!(a.error, "No document in manifest response");
    let a = manifest_sent(Err("net".to_string()), &ids).unwrap_err();
    assert_eq!(a.delete_messages, vec![10, 20]);
    assert_eq!(a.error, "net");
    let a = manifest_recorded(Err("db".to_string()), 30, &ids).unwrap_err();
    assert_eq!(a.delete_messages, vec![30, 10, 20]);
    assert_eq!(a.error, "db");
    assert_eq!(manifest_recorded(Ok("abc".to_string()), 30, &ids), Ok("abc".to_string()));
}

#[test]
fn small_upload_takes_its_course() {
    let mut c = UploadCourse::begin("a.txt");
    assert_eq!(
        c.stream_upload_to_telegram(received(UploadEnd::Single(b"abc".to_vec()))),
        UploadStep::SendWhole(b"abc".to_vec())
    );
    assert_eq!(
        c.stream_upload_to_telegram(UploadEvent::Sent(Ok(sent_with(4, Some("F"))))),
        UploadStep::Record(NewFile {
            filename: "a.txt".to_string(),
            file_id: "4:F".to_string(),
            filesize: 3,
        })
    );
    assert_eq!(
        c.stream_upload_to_telegram(UploadEvent::Recorded(Ok("abc123".to_string()))),
        UploadStep::Stored("abc123".to_string())
    );
    assert_eq!(c.stage, UploadStage::Over);
    let mut c = UploadCourse::begin("a.txt");
    match c.stream_upload_to_telegram(received(UploadEnd::Refused("文件为空".to_string()))) {
        UploadStep::Failed(a) => {
            assert_eq!(a.error, "文件为空");
            assert!(a.delete_messages.is_empty());
        }
        other => panic!("unexpected step: {:?}", other),
    }
}

#[test]
fn large_upload_takes_its_course() {
    let mut c = UploadCourse::begin("x.bin");
    assert_eq!(
        c.stream_upload_to_telegram(received(UploadEnd::Chunked(None))),
        UploadStep::AwaitTasks(None)
    );
    let done = vec![
        TaskOutcome::Uploaded(1, "20:b".to_string()),
        TaskOutcome::Uploaded(0, "10:a".to_string()),
    ];
    assert_eq!(
        c.stream_upload_to_telegram(UploadEvent::TasksEnded(done)),
        UploadStep::SendManifest {
            name: "x.bin.manifest".to_string(),
            text: "tgstate-blob\nx.bin\n10:a\n20:b\n".to_string(),
        }
    );
    assert_eq!(
        c.stream_upload_to_telegram(UploadEvent::Sent(Ok(sent_with(30, Some("M"))))),
        UploadStep::Record(NewFile {
            filename: "x.bin".to_string(),
            file_id: "30:M".to_string(),
            filesize: 3,
        })
    );
    // Where it cannot be recorded, the manifest and the chunks go.
    match c.stream_upload_to_telegram(UploadEvent::Recorded(Err("db".to_string()))) {
        UploadStep::Failed(a) => {
            assert_eq!(a.delete_messages, vec![30, 10, 20]);
            assert_eq!(a.error, "db");
        }
        other => panic!("unexpected step: {:?}", other),
    }
}

#[test]
fn upload_that_breaks_off_takes_back_its_chunks() {
    let mut c = UploadCourse::begin("x.bin");
    let outcomes = vec![
        TaskOutcome::Uploaded(0, "10:a".to_string()),
        TaskOutcome::Failed("late".to_string()),
    ];
    match c.stream_upload_to_telegram(UploadEvent::BrokeOff { error: "cut".to_string(), outcomes }) {
        UploadStep::Failed(a) => {
            assert_eq!(a.delete_messages, vec![10]);
            assert_eq!(a.error, "读取上传数据失败: cut");
        }
        other => panic!("unexpected step: {:?}", other),
    }
    assert_eq!(c.stage, UploadStage::Over);
}

#[test]
fn file_field_is_found_by_its_name() {
    assert_eq!(file_field(Some("file"), Some("d/x.txt")), Some("x.txt".to_string()));
    assert_eq!(file_field(Some("file"), None), Some("upload".to_string()));
    assert_eq!(file_field(Some("other"), Some("x.txt")), None);
    assert_eq!(file_field(None, Some("x.txt")), None);
}

#[test]
fn last_file_of_an_upload_decides() {
    let mut o = UploadOutcome::NoFile;
    o = after_field(o, None);
    assert_eq!(o, UploadOutcome::NoFile);
    o = after_field(o, Some(Ok("one".to_string())));
    o = after_field(o, None);
    assert_eq!(o, UploadOutcome::Stored("one".to_string()));
    o = after_field(o, Some(Err("net".to_string())));
    assert_eq!(o, UploadOutcome::Failed("net".to_string()));
    o = after_field(o, Some(Ok("two".to_string())));
    assert_eq!(o, UploadOutcome::Stored("two".to_string()));
}

#[test]
fn upload_is_answered_by_its_outcome() {
    let r = upload_file(UploadOutcome::Stored("Ab3".to_string()));
    assert_eq!(r.status, 200);
    match r.body {
        Body::Json(j) => {
            assert_eq!(j.get_text("file_id"), Some("Ab3"));
            assert_eq!(j.get_text("short_id"), Some("Ab3"));
            assert_eq!(j.get_text("download_path"), Some("/d/Ab3"));
            assert_eq!(j.get_text("path"), Some("/d/Ab3"));
            assert_eq!(j.get_text("url"), Some("/d/Ab3"));
        }
        other => panic!("unexpected body: {:?}", other),
    }
    assert_eq!(upload_file(UploadOutcome::Unreadable).status, 400);
    assert_eq!(upload_file(UploadOutcome::NoFile).status, 400);
    assert_eq!(upload_file(UploadOutcome::Failed("x".to_string())).status, 500);
}

#[test]
fn upload_needs_a_bot() {
    let mut s = AppSettingsMap::empty();
    let r = begin_upload(&s).unwrap_err();
    assert_eq!(r.status, 503);
    match &r.body {
        Body::Json(j) => {
            assert_eq!(j.get("detail").unwrap().get_text("code"), Some("cfg_missing"));
        }
        other => panic!("unexpected body: {:?}", other),
    }
    s.bot_token = Some("1:t".to_string());
    s.channel_name = Some("@c".to_string());
    let service = begin_upload(&s).unwrap();
    assert_eq!(service.bot_token, "1:t");
    assert_eq!(service.channel_name, "@c");
}

#[test]
fn added_file_is_announced() {
    let f = FileMetadata {
        filename: "n".to_string(),
        file_id: "1:f".to_string(),
        filesize: 12,
        upload_date: "2024-01-02 03:04:05".to_string(),
        short_id: None,
        share_password: Some("h".to_string()),
    };
    let e = added_event(&f);
    assert_eq!(e.get_text("action"), Some("add"));
    assert_eq!(e.get_text("file_id"), Some("1:f"));
    assert_eq!(e.get_text("filename"), Some("n"));
    assert_eq!(e.get_u64("filesize"), Some(12));
    assert_eq!(e.get("short_id"), Some(&Json::Null));
    assert_eq!(e.get("share_password"), None);
}
