//! Error answers.

use vstd::prelude::*;

use crate::json;
use crate::json::Json;
use crate::json::JsonView;

verus! {

/// The parts of an error payload.
#[derive(Debug)]
pub struct ErrorPayload {
    pub status: String,
    pub code: String,
    pub message: String,
    pub details: Option<Json>,
}

/// What an error payload holds.
pub open spec fn payload_view(message: Seq<char>, code: Seq<char>, details: Option<JsonView>) -> JsonView {
    let plain = json::empty_fields().push(("status"@, JsonView::Str("error"@))).push(
        ("code"@, JsonView::Str(code)),
    ).push(("message"@, JsonView::Str(message)));
    match details {
        Some(d) => JsonView::Obj(plain.push(("details"@, d))),
        None => JsonView::Obj(plain),
    }
}

/// What the body of an error answer holds.
pub open spec fn detail_view(message: Seq<char>, code: Seq<char>, details: Option<JsonView>) -> JsonView {
    JsonView::Obj(json::empty_fields().push(("detail"@, payload_view(message, code, details))))
}

/// What an optional value holds.
pub open spec fn opt_json_view(j: Option<Json>) -> Option<JsonView> {
    match j {
        Some(v) => Some(v@),
        None => None,
    }
}

/// The error payload with its status, code and message, and the details where there are any.
pub fn error_payload(message: &str, code: &str, details: Option<Json>) -> (r: Json)
    ensures
        r@ == payload_view(message@, code@, opt_json_view(details)),
{
    let mut payload = json::no_fields();
    json::put(&mut payload, "status", json::text_value("error"));
    json::put(&mut payload, "code", json::text_value(code));
    json::put(&mut payload, "message", json::text_value(message));
    match details {
        Some(d) => {
            json::put(&mut payload, "details", d);
        },
        None => {},
    }
    Json::Obj(payload)
}

/// An error answer: its HTTP status and its body.
#[derive(Debug, PartialEq)]
pub struct AppError {
    pub status_code: u16,
    pub body: Json,
}

impl AppError {
    /// An error answer without details.
    pub fn new(status_code: u16, message: &str, code: &str) -> (r: Self)
        ensures
            r.status_code == status_code,
            r.body@ == detail_view(message@, code@, None),
    {
        let mut body = json::no_fields();
        json::put(&mut body, "detail", error_payload(message, code, None));
        AppError { status_code, body: Json::Obj(body) }
    }

    /// An error answer with details.
    pub fn with_details(status_code: u16, message: &str, code: &str, details: Json) -> (r: Self)
        ensures
            r.status_code == status_code,
            r.body@ == detail_view(message@, code@, Some(details@)),
    {
        let mut body = json::no_fields();
        json::put(&mut body, "detail", error_payload(message, code, Some(details)));
        AppError { status_code, body: Json::Obj(body) }
    }
}

/// An error answer without details.
pub fn http_error(status_code: u16, message: &str, code: &str) -> (r: AppError)
    ensures
        r.status_code == status_code,
        r.body@ == detail_view(message@, code@, None),
{
    AppError::new(status_code, message, code)
}

} // verus!
