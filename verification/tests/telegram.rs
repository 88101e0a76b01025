use tgstate::json::Json;
use tgstate::telegram::service::{
    chunk_outcome, find_chunks, plan_deletion, retry_after_secs, DeleteOutcome, ManifestFetch,
    SendAttempts, SendOutcome, SendStep, TelegramService,
};
use tgstate::telegram::types::{Document, FileAnswer, Message, TelegramFile};

fn object(fields: Vec<(&str, Json)>) -> Json {
    Json::Obj(fields.into_iter().map(|(k, v)| (k.to_string(), v)).collect())
}

fn string(s: &str) -> Json {
    Json::Str(s.to_string())
}

fn service() -> TelegramService {
    TelegramService::new("123:tok".to_string(), "@chan".to_string())
}

fn message() -> Message {
    Message { message_id: 7, document: Some(Document { file_id: "F".to_string() }) }
}

#[test]
fn retry_after_uses_telegram_parameter() {
    let body = object(vec![
        ("ok", Json::Bool(false)),
        ("error_code", Json::Uint(429)),
        ("description", string("Too Many Requests: retry after 5")),
        ("parameters", object(vec![("retry_after", Json::Uint(5))])),
    ]);
    assert_eq!(retry_after_secs(429, &body), Some(5));
}

#[test]
fn retry_after_defaults_to_3s_when_missing_but_rate_limited() {
    let body = object(vec![
        ("ok", Json::Bool(false)),
        ("error_code", Json::Uint(429)),
        ("description", string("Too Many Requests")),
    ]);
    assert_eq!(retry_after_secs(429, &body), Some(3));
}

#[test]
fn retry_after_detects_429_from_body_even_when_status_differs() {
    // A proxy may rewrite the HTTP status; the JSON error_code is enough.
    let body = object(vec![
        ("ok", Json::Bool(false)),
        ("error_code", Json::Uint(429)),
        ("parameters", object(vec![("retry_after", Json::Uint(10))])),
    ]);
    assert_eq!(retry_after_secs(200, &body), Some(10));
}

#[test]
fn retry_after_is_capped_at_60s() {
    let body = object(vec![
        ("ok", Json::Bool(false)),
        ("error_code", Json::Uint(429)),
        ("parameters", object(vec![("retry_after", Json::Uint(120))])),
    ]);
    assert_eq!(retry_after_secs(429, &body), Some(60));
}

#[test]
fn retry_after_none_for_non_rate_limited_errors() {
    let body = object(vec![
        ("ok", Json::Bool(false)),
        ("error_code", Json::Uint(400)),
        ("description", string("Bad Request: chat not found")),
    ]);
    assert_eq!(retry_after_secs(400, &body), None);
}

#[test]
fn calls_name_the_bot_and_the_channel() {
    let s = service();
    let call = s.get_file_call("abc");
    assert_eq!(call.url, "https://api.telegram.org/bot123:tok/getFile");
    assert_eq!(call.body, object(vec![("file_id", string("abc"))]));
    let call = s.delete_message_call(-5);
    assert_eq!(call.url, "https://api.telegram.org/bot123:tok/deleteMessage");
    assert_eq!(
        call.body,
        object(vec![("chat_id", string("@chan")), ("message_id", Json::Neg(-5))])
    );
    let up = s.send_document_call("photo.png", Some(9));
    assert_eq!(up.url, "https://api.telegram.org/bot123:tok/sendDocument");
    assert_eq!(up.file_name, "photo.png");
    assert_eq!(up.mime_type, "image/png");
    assert_eq!(
        up.fields,
        vec![
            ("chat_id".to_string(), "@chan".to_string()),
            ("reply_to_message_id".to_string(), "9".to_string())
        ]
    );
    assert_eq!(s.send_document_call("blob.unknownext", None).mime_type, "application/octet-stream");
}

#[test]
fn download_address_comes_from_the_answer() {
    let s = service();
    let found = FileAnswer::Answer {
        ok: true,
        result: Some(TelegramFile { file_path: Some("docs/1.bin".to_string()) }),
    };
    assert_eq!(
        s.get_download_url(found),
        Ok(Some("https://api.telegram.org/file/bot123:tok/docs/1.bin".to_string()))
    );
    let refused = FileAnswer::Answer {
        ok: false,
        result: Some(TelegramFile { file_path: Some("docs/1.bin".to_string()) }),
    };
    assert_eq!(s.get_download_url(refused), Ok(None));
    assert_eq!(s.get_download_url(FileAnswer::Answer { ok: true, result: None }), Ok(None));
    assert_eq!(
        s.get_download_url(FileAnswer::SendFailed("x".to_string())),
        Err("getFile request failed: x".to_string())
    );
    assert_eq!(
        s.get_download_url(FileAnswer::ParseFailed("y".to_string())),
        Err("Parse error: y".to_string())
    );
}

#[test]
fn sending_is_retried_as_long_as_there_are_attempts() {
    let mut a = SendAttempts::first(3);
    let limited = |n: u64| SendOutcome::Answer {
        status: 429,
        data: object(vec![("parameters", object(vec![("retry_after", Json::Uint(n))]))]),
        message: Err(String::new()),
    };
    assert_eq!(
        TelegramService::send_document_with_retry(&mut a, SendOutcome::NetworkError("n".to_string())),
        SendStep::Wait(2)
    );
    assert_eq!(TelegramService::send_document_with_retry(&mut a, limited(90)), SendStep::Wait(60));
    assert_eq!(a.attempt, 3);
    assert_eq!(
        TelegramService::send_document_with_retry(&mut a, limited(1)),
        SendStep::Done(Err("sendDocument error: unknown error".to_string()))
    );
    assert_eq!(SendAttempts::first(0).max_attempts, 1);
}

#[test]
fn sending_ends_with_a_message_or_an_error() {
    let sent = SendOutcome::Answer {
        status: 200,
        data: object(vec![("ok", Json::Bool(true))]),
        message: Ok(message()),
    };
    let mut a = SendAttempts::first(3);
    assert_eq!(
        TelegramService::send_document_with_retry(&mut a, sent),
        SendStep::Done(Ok(message()))
    );
    let undecodable = SendOutcome::Answer {
        status: 200,
        data: object(vec![("ok", Json::Bool(true))]),
        message: Err("missing field".to_string()),
    };
    assert_eq!(
        TelegramService::send_document_with_retry(&mut a, undecodable),
        SendStep::Done(Err("Decode message error: missing field".to_string()))
    );
    let refused = SendOutcome::Answer {
        status: 400,
        data: object(vec![("description", string("Bad Request"))]),
        message: Err(String::new()),
    };
    assert_eq!(
        TelegramService::send_document_with_retry(&mut a, refused),
        SendStep::Done(Err("sendDocument error: Bad Request".to_string()))
    );
    assert_eq!(
        TelegramService::send_document_with_retry(&mut a, SendOutcome::BadMime("m".to_string())),
        SendStep::Done(Err("Invalid MIME type: m".to_string()))
    );
    let mut one = SendAttempts::first(1);
    assert_eq!(
        TelegramService::send_document_with_retry(&mut one, SendOutcome::NetworkError("n".to_string())),
        SendStep::Done(Err("sendDocument request failed: n".to_string()))
    );
    assert_eq!(
        TelegramService::send_document_with_retry(&mut one, SendOutcome::ParseError("p".to_string())),
        SendStep::Done(Err("Parse error: p".to_string()))
    );
}

#[test]
fn message_that_is_not_found_counts_as_deleted() {
    let ok = DeleteOutcome::Answer(object(vec![("ok", Json::Bool(true))]));
    assert_eq!(TelegramService::delete_message(&ok), (true, "deleted".to_string()));
    let gone = DeleteOutcome::Answer(object(vec![(
        "description",
        string("Bad Request: message to delete not found"),
    )]));
    assert_eq!(TelegramService::delete_message(&gone), (true, "not_found".to_string()));
    assert_eq!(
        TelegramService::delete_message(&DeleteOutcome::Answer(Json::Null)),
        (false, "error".to_string())
    );
    assert_eq!(
        TelegramService::delete_message(&DeleteOutcome::SendFailed),
        (false, "error".to_string())
    );
}

#[test]
fn deletion_is_planned_from_the_identifier() {
    let plan = plan_deletion("12:AB:C").unwrap();
    assert_eq!(plan.message_id, 12);
    assert_eq!(plan.actual_file_id, "AB:C");
    let bad = plan_deletion("nocolon").unwrap_err();
    assert_eq!(bad.status, "error");
    assert_eq!(bad.reason, "Invalid file_id format");
    assert_eq!(bad.main_file_id, "nocolon");
    assert!(!bad.main_message_deleted);
    assert_eq!(plan_deletion("x:y").unwrap_err().reason, "Invalid message_id");
}

#[test]
fn chunks_are_found_in_manifests_only() {
    let (is_manifest, chunks) = find_chunks(Some(b"tgstate-blob\nname\n1:a\n2:b\n"));
    assert!(is_manifest);
    assert_eq!(chunks, vec!["1:a".to_string(), "2:b".to_string()]);
    assert_eq!(find_chunks(Some(b"tgstate-blob\nname\n")), (true, vec![]));
    assert_eq!(find_chunks(Some(b"something else")), (false, vec![]));
    assert_eq!(find_chunks(None), (false, vec![]));
    // Bytes that are no UTF-8 are replaced.
    let (_, odd) = find_chunks(Some(b"tgstate-blob\nname\n1:\xff\n"));
    assert_eq!(odd, vec!["1:\u{fffd}".to_string()]);
}

#[test]
fn deletion_accounts_for_every_chunk() {
    let gone = DeleteOutcome::Answer(object(vec![("ok", Json::Bool(true))]));
    let answer = || Some(DeleteOutcome::Answer(object(vec![("ok", Json::Bool(true))])));
    let body: &[u8] = b"tgstate-blob\nname\n1:a\n2:b\n3:c\nnone\n5:e\n";
    let asked = vec![answer(), Some(DeleteOutcome::SendFailed), answer(), None];
    let r = TelegramService::delete_file_with_chunks("9:m", Some(body), &asked, &gone);
    assert_eq!(r.status, "partial_failure");
    assert_eq!(r.main_file_id, "9:m");
    assert_eq!(r.deleted_chunks, vec!["1:a".to_string(), "3:c".to_string()]);
    // A chunk about which there is no answer is left.
    assert_eq!(r.failed_chunks, vec!["2:b".to_string(), "none".to_string(), "5:e".to_string()]);
    assert!(r.main_message_deleted && r.is_manifest);
    let whole: &[u8] = b"tgstate-blob\nname\n1:a\n";
    let r = TelegramService::delete_file_with_chunks("9:m", Some(whole), &vec![answer()], &gone);
    assert_eq!(r.status, "success");
    assert_eq!(r.deleted_chunks, vec!["1:a".to_string()]);
    // Where there is no manifest no chunk is reported, whatever was answered.
    for body in [None, Some(&b"1:a\n2:b\n3:c\n"[..])] {
        let r = TelegramService::delete_file_with_chunks("9:m", body, &asked, &gone);
        assert_eq!(r.status, "success");
        assert!(!r.is_manifest && r.deleted_chunks.is_empty() && r.failed_chunks.is_empty());
    }
    let r = TelegramService::delete_file_with_chunks("9:m", None, &vec![], &DeleteOutcome::SendFailed);
    assert_eq!(r.status, "partial_failure");
    assert_eq!(r.main_delete_reason, "error");
    assert!(!r.main_message_deleted);
    // An identifier that names no message is refused.
    let r = TelegramService::delete_file_with_chunks("m", Some(body), &asked, &gone);
    assert_eq!(Err(r), plan_deletion("m"));
}

#[test]
fn chunks_go_with_their_messages() {
    let gone = DeleteOutcome::Answer(object(vec![("ok", Json::Bool(true))]));
    let of = |id: &str, asked: Option<&DeleteOutcome>| chunk_outcome(id.to_string(), asked).deleted;
    assert!(of("1:a", Some(&gone)));
    assert!(!of("1:a", Some(&DeleteOutcome::SendFailed)));
    assert!(!of("1:a", None));
    assert!(!of("a", Some(&gone)));
    assert!(!of("x:a", Some(&gone)));
    assert_eq!(chunk_outcome("7:z".to_string(), None).chunk_id, "7:z");
}

#[test]
fn manifest_names_its_file() {
    let name = TelegramService::try_get_manifest_original_filename;
    assert_eq!(
        name(ManifestFetch::Body(b"tgstate-blob\nmovie.mp4\n1:a\n".to_vec())),
        Ok("movie.mp4".to_string())
    );
    assert_eq!(name(ManifestFetch::Body(b"hello".to_vec())), Err("Not a manifest file".to_string()));
    assert_eq!(
        name(ManifestFetch::Body(b"tgstate-blob\n".to_vec())),
        Err("Invalid manifest format".to_string())
    );
    assert_eq!(name(ManifestFetch::NoUrl), Err("No download URL".to_string()));
    assert_eq!(name(ManifestFetch::LocateFailed("l".to_string())), Err("l".to_string()));
    assert_eq!(
        name(ManifestFetch::SendFailed("s".to_string())),
        Err("Download manifest failed: s".to_string())
    );
    assert_eq!(name(ManifestFetch::ReadFailed("r".to_string())), Err("r".to_string()));
}
