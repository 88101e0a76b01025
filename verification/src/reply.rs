//! Answers to requests as plain data.

use vstd::prelude::*;

use crate::error;
use crate::json;
use crate::json::Json;
use crate::json::JsonView;
use crate::text;

verus! {

/// The body of an answer.
#[derive(Debug, PartialEq)]
pub enum Body {
    Empty,
    Json(Json),
    Text(String),
    /// A template with the values that it is filled with.
    Page { template: String, context: Vec<(String, Json)> },
    /// The body of the upstream response, passed on as it comes.
    Upstream,
    /// The contents of the files with these identifiers, one after the other.
    Chunks(Vec<String>),
}

/// An answer: HTTP status, headers in order, body.
#[derive(Debug, PartialEq)]
pub struct Reply {
    pub status: u16,
    pub headers: Vec<(String, String)>,
    pub body: Body,
}

/// What a body holds.
pub enum BodyView {
    Empty,
    Json(JsonView),
    Text(Seq<char>),
    Page { template: Seq<char>, context: Seq<(Seq<char>, JsonView)> },
    Upstream,
    Chunks(Seq<Seq<char>>),
}

/// What an answer holds.
pub struct ReplyView {
    pub status: u16,
    pub headers: Seq<(Seq<char>, Seq<char>)>,
    pub body: BodyView,
}

impl View for Body {
    type V = BodyView;

    open spec fn view(&self) -> BodyView {
        match *self {
            Body::Empty => BodyView::Empty,
            Body::Json(j) => BodyView::Json(j@),
            Body::Text(s) => BodyView::Text(s@),
            Body::Page { template, context } => BodyView::Page {
                template: template@,
                context: json::fields_view(context@),
            },
            Body::Upstream => BodyView::Upstream,
            Body::Chunks(ids) => BodyView::Chunks(text::strings_view(ids@)),
        }
    }
}

/// What a list of headers holds.
pub open spec fn headers_view(h: Seq<(String, String)>) -> Seq<(Seq<char>, Seq<char>)> {
    Seq::new(h.len(), |i: int| (h[i].0@, h[i].1@))
}

impl View for Reply {
    type V = ReplyView;

    open spec fn view(&self) -> ReplyView {
        ReplyView { status: self.status, headers: headers_view(self.headers@), body: self.body@ }
    }
}

/// The list without headers.
pub open spec fn empty_headers() -> Seq<(Seq<char>, Seq<char>)> {
    Seq::empty()
}

/// An answer with a JSON body and no headers of its own.
pub open spec fn json_reply(status: u16, body: JsonView) -> ReplyView {
    ReplyView { status, headers: empty_headers(), body: BodyView::Json(body) }
}

/// An answer with a JSON body that sets a cookie.
pub open spec fn cookie_reply(status: u16, cookie: Seq<char>, body: JsonView) -> ReplyView {
    ReplyView {
        status,
        headers: empty_headers().push(("Set-Cookie"@, cookie)),
        body: BodyView::Json(body),
    }
}

/// An error answer.
pub open spec fn error_reply(status: u16, message: Seq<char>, code: Seq<char>) -> ReplyView {
    json_reply(status, error::detail_view(message, code, None))
}

/// A page.
pub open spec fn page_reply(template: Seq<char>, context: Seq<(Seq<char>, JsonView)>) -> ReplyView {
    ReplyView { status: 200, headers: empty_headers(), body: BodyView::Page { template, context } }
}

/// A text.
pub open spec fn text_reply(status: u16, body: Seq<char>) -> ReplyView {
    ReplyView { status, headers: empty_headers(), body: BodyView::Text(body) }
}

/// A list without headers.
pub fn no_headers() -> (r: Vec<(String, String)>)
    ensures
        headers_view(r@) == empty_headers(),
{
    let r: Vec<(String, String)> = Vec::new();
    assert(headers_view(r@) =~= empty_headers());
    r
}

/// Adds a header to the end of a list.
pub fn put_header(headers: &mut Vec<(String, String)>, name: &str, value: &str)
    ensures
        headers_view(final(headers)@) == headers_view(old(headers)@).push((name@, value@)),
{
    headers.push((String::from_str(name), String::from_str(value)));
    assert(headers_view(headers@) =~= headers_view(old(headers)@).push((name@, value@)));
}

/// An answer with a JSON body and no headers of its own.
pub fn reply_json(status: u16, body: Json) -> (r: Reply)
    ensures
        r@ == json_reply(status, body@),
{
    Reply { status, headers: no_headers(), body: Body::Json(body) }
}

/// An answer with a JSON body that sets a cookie.
pub fn reply_cookie(status: u16, cookie: &str, body: Json) -> (r: Reply)
    ensures
        r@ == cookie_reply(status, cookie@, body@),
{
    let mut headers = no_headers();
    put_header(&mut headers, "Set-Cookie", cookie);
    Reply { status, headers, body: Body::Json(body) }
}

/// An error answer.
pub fn reply_error(status: u16, message: &str, code: &str) -> (r: Reply)
    ensures
        r@ == error_reply(status, message@, code@),
{
    let e = error::http_error(status, message, code);
    reply_json(e.status_code, e.body)
}

/// A page.
pub fn reply_page(template: &str, context: Vec<(String, Json)>) -> (r: Reply)
    ensures
        r@ == page_reply(template@, json::fields_view(context@)),
{
    Reply {
        status: 200,
        headers: no_headers(),
        body: Body::Page { template: String::from_str(template), context },
    }
}

/// A text.
pub fn reply_text(status: u16, body: &str) -> (r: Reply)
    ensures
        r@ == text_reply(status, body@),
{
    Reply { status, headers: no_headers(), body: Body::Text(String::from_str(body)) }
}

/// The fields of an answer that says no more than its status and a message.
pub open spec fn status_message(status: Seq<char>, message: Seq<char>) -> JsonView {
    JsonView::Obj(
        json::empty_fields().push(("status"@, JsonView::Str(status))).push(
            ("message"@, JsonView::Str(message)),
        ),
    )
}

/// A value that says no more than a status and a message.
pub fn status_message_value(status: &str, message: &str) -> (r: Json)
    ensures
        r@ == status_message(status@, message@),
{
    let mut f = json::no_fields();
    json::put(&mut f, "status", json::text_value(status));
    json::put(&mut f, "message", json::text_value(message));
    Json::Obj(f)
}

/// The fields of an answer that says no more than that all is well.
pub open spec fn status_ok() -> JsonView {
    JsonView::Obj(json::empty_fields().push(("status"@, JsonView::Str("ok"@))))
}

/// A value that says no more than that all is well.
pub fn status_ok_value() -> (r: Json)
    ensures
        r@ == status_ok(),
{
    let mut f = json::no_fields();
    json::put(&mut f, "status", json::text_value("ok"));
    Json::Obj(f)
}

// ---------------------------------------------------------------------------------------------
// Laws
// ---------------------------------------------------------------------------------------------

/// The body of an answer is an object with this field.
pub open spec fn tells(r: ReplyView, key: Seq<char>, value: JsonView) -> bool {
    r.body matches BodyView::Json(j) && json::field(j, key) == Some(value)
}

/// An answer that refuses with this status, this code and this message.
pub open spec fn refuses(r: ReplyView, status: u16, code: Seq<char>, message: Seq<char>) -> bool {
    &&& r.status == status
    &&& r.headers.len() == 0
    &&& r.body matches BodyView::Json(j) && json::field(j, "detail"@) matches Some(d) && json::field(
        d,
        "status"@,
    ) == Some(JsonView::Str("error"@)) && json::field(d, "code"@) == Some(JsonView::Str(code))
        && json::field(d, "message"@) == Some(JsonView::Str(message))
}

/// An error answer has its status, and tells its code and its message under `detail`.
pub proof fn law_errors_tell_code_and_message(status: u16, message: Seq<char>, code: Seq<char>)
    ensures
        refuses(error_reply(status, message, code), status, code, message),
        error_reply(status, message, code).body matches BodyView::Json(j) && json::field(j, "detail"@)
            matches Some(d) && json::field(d, "message"@) == Some(JsonView::Str(message)) && json::field(
            d,
            "details"@,
        ) is None,
{
    broadcast use json::lemma_lookup_push;

    reveal_strlit("status");
    reveal_strlit("code");
    reveal_strlit("message");
    reveal_strlit("detail");
    reveal_strlit("details");
    assert("status"@.len() == 6);
    assert("code"@.len() == 4);
    assert("message"@.len() == 7);
    assert("detail"@.len() == 6);
    assert("details"@.len() == 7);
    assert("status"@[0] != "detail"@[0]);
    assert("message"@[0] != "details"@[0]);
    let d = error::payload_view(message, code, None);
    assert(json::field(d, "status"@) == Some(JsonView::Str("error"@)));
    assert(json::field(d, "code"@) == Some(JsonView::Str(code)));
    assert(json::field(d, "message"@) == Some(JsonView::Str(message)));
    assert(json::field(d, "details"@) is None);
    assert(json::field(error::detail_view(message, code, None), "detail"@) == Some(d));
}

/// The details of an error stand beside its code and its message, and change neither.
pub proof fn law_details_stand_beside(message: Seq<char>, code: Seq<char>, details: JsonView)
    ensures
        json::field(error::detail_view(message, code, Some(details)), "detail"@) matches Some(d)
            && json::field(d, "details"@) == Some(details) && json::field(d, "status"@) == Some(
            JsonView::Str("error"@),
        ) && json::field(d, "code"@) == Some(JsonView::Str(code)) && json::field(d, "message"@) == Some(
            JsonView::Str(message),
        ),
{
    broadcast use json::lemma_lookup_push;

    reveal_strlit("status");
    reveal_strlit("code");
    reveal_strlit("message");
    reveal_strlit("detail");
    reveal_strlit("details");
    assert("status"@.len() == 6);
    assert("code"@.len() == 4);
    assert("message"@.len() == 7);
    assert("detail"@.len() == 6);
    assert("details"@.len() == 7);
    assert("status"@[0] != "detail"@[0]);
    assert("message"@[0] != "details"@[0]);
    let d = error::payload_view(message, code, Some(details));
    assert(json::field(error::detail_view(message, code, Some(details)), "detail"@) == Some(d));
}

/// An answer that says no more than a status and a message says both.
pub proof fn law_status_and_message_are_told(status: Seq<char>, message: Seq<char>)
    ensures
        json::field(status_message(status, message), "status"@) == Some(JsonView::Str(status)),
        json::field(status_message(status, message), "message"@) == Some(JsonView::Str(message)),
        json::field(status_ok(), "status"@) == Some(JsonView::Str("ok"@)),
{
    broadcast use json::lemma_lookup_push;

    reveal_strlit("status");
    reveal_strlit("message");
    assert("status"@.len() == 6);
    assert("message"@.len() == 7);
}

/// Answers have the status and the body that they were given, and set a cookie where they were given
/// one and nowhere else.
pub proof fn law_answers_are_as_given(
    status: u16,
    cookie: Seq<char>,
    body: JsonView,
    words: Seq<char>,
    template: Seq<char>,
    context: Seq<(Seq<char>, JsonView)>,
)
    ensures
        json_reply(status, body).status == status,
        json_reply(status, body).headers.len() == 0,
        json_reply(status, body).body == BodyView::Json(body),
        cookie_reply(status, cookie, body).status == status,
        cookie_reply(status, cookie, body).headers.len() == 1,
        cookie_reply(status, cookie, body).headers[0] == ("Set-Cookie"@, cookie),
        cookie_reply(status, cookie, body).body == BodyView::Json(body),
        text_reply(status, words).status == status,
        text_reply(status, words).headers.len() == 0,
        text_reply(status, words).body == BodyView::Text(words),
        page_reply(template, context).status == 200,
        page_reply(template, context).headers.len() == 0,
        page_reply(template, context).body == (BodyView::Page { template, context }),
{
}

/// What an answer holds is what it is made of.
pub proof fn law_answers_hold_what_they_are_made_of(r: Reply, i: int)
    ensures
        r@.status == r.status,
        r@.headers.len() == r.headers@.len(),
        0 <= i < r.headers@.len() ==> r@.headers[i] == (r.headers@[i].0@, r.headers@[i].1@),
        match r.body {
            Body::Empty => r@.body is Empty,
            Body::Json(j) => r@.body == BodyView::Json(j@),
            Body::Text(s) => r@.body == BodyView::Text(s@),
            Body::Page { template, context } => r@.body == (BodyView::Page {
                template: template@,
                context: json::fields_view(context@),
            }),
            Body::Upstream => r@.body is Upstream,
            Body::Chunks(ids) => r@.body matches BodyView::Chunks(v) && v.len() == ids@.len() && (0 <= i
                < ids@.len() ==> v[i] == ids@[i]@),
        },
{
}

} // verus!
