//! Events about files.

use vstd::prelude::*;

use crate::json;
use crate::json::{Json, JsonView};
use crate::text;

verus! {

/// A number, or null.
pub open spec fn opt_int_view(n: Option<i64>) -> JsonView {
    match n {
        Some(n) => json::int_view(n),
        None => JsonView::Null,
    }
}

/// What subscribers are told about a file.
pub open spec fn file_event(
    action: Seq<char>,
    file_id: Seq<char>,
    filename: Option<Seq<char>>,
    filesize: Option<i64>,
    upload_date: Option<Seq<char>>,
    short_id: Option<Seq<char>>,
) -> JsonView {
    JsonView::Obj(
        json::empty_fields().push(("action"@, JsonView::Str(action))).push(
            ("file_id"@, JsonView::Str(file_id)),
        ).push(("filename"@, json::opt_text_view(filename))).push(
            ("filesize"@, opt_int_view(filesize)),
        ).push(("upload_date"@, json::opt_text_view(upload_date))).push(
            ("short_id"@, json::opt_text_view(short_id)),
        ),
    )
}

/// What subscribers are told about a file.
pub fn build_file_event(
    action: &str,
    file_id: &str,
    filename: Option<&str>,
    filesize: Option<i64>,
    upload_date: Option<&str>,
    short_id: Option<&str>,
) -> (r: Json)
    ensures
        r@ == file_event(
            action@,
            file_id@,
            text::opt_str_view(filename),
            filesize,
            text::opt_str_view(upload_date),
            text::opt_str_view(short_id),
        ),
{
    let mut fields = json::no_fields();
    json::put(&mut fields, "action", json::text_value(action));
    json::put(&mut fields, "file_id", json::text_value(file_id));
    json::put(&mut fields, "filename", json::opt_text_value(filename));
    let size = match filesize {
        Some(n) => json::int_value(n),
        None => Json::Null,
    };
    json::put(&mut fields, "filesize", size);
    json::put(&mut fields, "upload_date", json::opt_text_value(upload_date));
    json::put(&mut fields, "short_id", json::opt_text_value(short_id));
    Json::Obj(fields)
}

/// An event tells of a file what it was given, and null where it was given nothing.
pub proof fn law_events_tell_what_they_are_given(
    action: Seq<char>,
    file_id: Seq<char>,
    filename: Option<Seq<char>>,
    filesize: Option<i64>,
    upload_date: Option<Seq<char>>,
    short_id: Option<Seq<char>>,
)
    ensures
        ({
            let e = file_event(action, file_id, filename, filesize, upload_date, short_id);
            &&& json::field(e, "action"@) == Some(JsonView::Str(action))
            &&& json::field(e, "file_id"@) == Some(JsonView::Str(file_id))
            &&& json::field(e, "filename"@) is Some && json::text_of(json::field(e, "filename"@)) == filename
            &&& json::field(e, "filesize"@) is Some && json::i64_of(json::field(e, "filesize"@)) == filesize
            &&& json::field(e, "upload_date"@) is Some && json::text_of(json::field(e, "upload_date"@))
                == upload_date
            &&& json::field(e, "short_id"@) is Some && json::text_of(json::field(e, "short_id"@)) == short_id
        }),
{
    broadcast use json::lemma_lookup_push;

    reveal_strlit("action");
    reveal_strlit("file_id");
    reveal_strlit("filename");
    reveal_strlit("filesize");
    reveal_strlit("upload_date");
    reveal_strlit("short_id");
    assert("action"@.len() == 6);
    assert("file_id"@.len() == 7);
    assert("filename"@.len() == 8);
    assert("filesize"@.len() == 8);
    assert("upload_date"@.len() == 11);
    assert("short_id"@.len() == 8);
    assert("filename"@[4] != "filesize"@[4]);
    assert("filename"@[0] != "short_id"@[0]);
    assert("filesize"@[0] != "short_id"@[0]);
}

} // verus!
