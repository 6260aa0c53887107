//! The texts of HTTP answers, and the token of a request.
use vstd::prelude::*;

use crate::brain::protocol;
use crate::json::{self, Json, JsonModel, Object};
use crate::text;

verus! {

// ── Logging ─────────────────────────────────────────────────────────────────

/// A text cut to 300 characters, with a note of its length where it was longer.
pub open spec fn truncated(s: Seq<char>) -> Seq<char> {
    if s.len() <= 300 {
        s
    } else {
        s.take(300) + "… ("@ + text::dec(protocol::byte_len(s)) + " bytes total)"@
    }
}

/// Keep a log line from holding a whole payload.
pub fn truncate_for_log(s: &str) -> (r: String)
    ensures
        r@ == truncated(s@),
{
    let chars = text::chars_of(s);
    if chars.len() <= 300 {
        text::owned(s)
    } else {
        let mut out = text::slice_text(&chars, 0, 300);
        assert(out@ =~= s@.take(300));
        out.append("… (");
        out.append(text::decimal(text::byte_count(s) as u64).as_str());
        out.append(" bytes total)");
        out
    }
}

// ── Tokens ──────────────────────────────────────────────────────────────────

/// The token of an `Authorization` header: what follows `Bearer `, or all of it.
pub open spec fn token_of(auth: Option<Seq<char>>) -> Option<Seq<char>> {
    match auth {
        Some(a) => match text::strip_prefix(a, "Bearer "@) {
            Some(t) => Some(text::trim(t)),
            None => if a.len() > 0 {
                Some(text::trim(a))
            } else {
                None
            },
        },
        None => None,
    }
}

pub fn extract_token(auth: &Option<String>) -> (r: Option<String>)
    ensures
        text::opt_text(r) == token_of(text::opt_text(*auth)),
{
    match auth {
        Some(a) => match text::cut_prefix(a.as_str(), "Bearer ") {
            Some(t) => Some(text::trimmed(t.as_str())),
            None => if a.as_str().is_empty() {
                None
            } else {
                Some(text::trimmed(a.as_str()))
            },
        },
        None => None,
    }
}

// ── Answers ─────────────────────────────────────────────────────────────────

/// What an error answer holds.
pub open spec fn error_model(status: u16, code: Seq<char>, message: Seq<char>) -> JsonModel {
    JsonModel::Object(
        json::nothing().insert(
            "error"@,
            JsonModel::Object(
                json::nothing().insert("type"@, JsonModel::Str(code)).insert(
                    "message"@,
                    JsonModel::Str(message),
                ).insert("code"@, json::number(status as u64)),
            ),
        ),
    )
}

pub fn build_error_response(status: u16, code: &str, message: &str) -> (r: Json)
    ensures
        r@ == error_model(status, code@, message@),
{
    let error = Object::new().with("type", Json::text(code)).with(
        "message",
        Json::text(message),
    ).with("code", Json::number(status as u64));
    Json::Object(Object::new().with("error", Json::Object(error)))
}

pub open spec fn reason_phrase(status: u16) -> Seq<char> {
    if status == 400 {
        "Bad Request"@
    } else if status == 401 {
        "Unauthorized"@
    } else if status == 403 {
        "Forbidden"@
    } else if status == 404 {
        "Not Found"@
    } else if status == 503 {
        "Service Unavailable"@
    } else if status == 504 {
        "Gateway Timeout"@
    } else {
        "Internal Server Error"@
    }
}

fn reason(status: u16) -> (r: &'static str)
    ensures
        r@ == reason_phrase(status),
{
    if status == 400 {
        "Bad Request"
    } else if status == 401 {
        "Unauthorized"
    } else if status == 403 {
        "Forbidden"
    } else if status == 404 {
        "Not Found"
    } else if status == 503 {
        "Service Unavailable"
    } else if status == 504 {
        "Gateway Timeout"
    } else {
        "Internal Server Error"
    }
}

/// A head that ends with the length of the body, and the body.
pub open spec fn with_body(head: Seq<char>, body: Seq<char>) -> Seq<char> {
    head + "Content-Length: "@ + text::dec(protocol::byte_len(body)) + "\r\n\r\n"@ + body
}

/// A head that ends with the length of the body, and the body.
pub fn answer(head: &str, body: &str) -> (r: String)
    ensures
        r@ == with_body(head@, body@),
{
    let mut out = text::concat(head, "Content-Length: ");
    out.append(text::decimal(text::byte_count(body) as u64).as_str());
    out.append("\r\n\r\n");
    out.append(body);
    out
}

/// The head of a JSON answer that any page may read.
pub open spec fn shared_json_head(status_line: Seq<char>) -> Seq<char> {
    "HTTP/1.1 "@ + status_line
        + "\r\nContent-Type: application/json\r\nAccess-Control-Allow-Origin: *\r\n"@
}

/// A JSON answer with the status 200.
pub fn json_200(body: &Json) -> (r: String)
    ensures
        r@ == with_body(shared_json_head("200 OK"@), json::json_text(body@)),
{
    let head = text::concat3(
        "HTTP/1.1 ",
        "200 OK",
        "\r\nContent-Type: application/json\r\nAccess-Control-Allow-Origin: *\r\n",
    );
    let rendered = json::render(body);
    answer(head.as_str(), rendered.as_str())
}

/// A JSON answer with another status.
pub open spec fn raw_json_text(status: u16, body: JsonModel) -> Seq<char> {
    with_body(
        shared_json_head(text::dec(status as nat) + " "@ + reason_phrase(status)),
        json::json_text(body),
    )
}

pub fn raw_json(status: u16, body: &Json) -> (r: String)
    ensures
        r@ == raw_json_text(status, body@),
{
    let line = text::concat3(text::decimal(status as u64).as_str(), " ", reason(status));
    let head = text::concat3(
        "HTTP/1.1 ",
        line.as_str(),
        "\r\nContent-Type: application/json\r\nAccess-Control-Allow-Origin: *\r\n",
    );
    let rendered = json::render(body);
    answer(head.as_str(), rendered.as_str())
}

/// An error answer.
pub open spec fn json_error_text(status: u16, code: Seq<char>, message: Seq<char>) -> Seq<char> {
    raw_json_text(status, error_model(status, code, message))
}

pub fn json_error(status: u16, code: &str, message: &str) -> (r: String)
    ensures
        r@ == json_error_text(status, code@, message@),
{
    let body = build_error_response(status, code, message);
    raw_json(status, &body)
}

/// The head of an event stream.
pub fn event_stream_head() -> (r: String)
    ensures
        r@ == "HTTP/1.1 200 OK\r\nContent-Type: text/event-stream\r\nCache-Control: no-cache\r\nX-Accel-Buffering: no\r\nConnection: keep-alive\r\n\r\n"@,
{
    text::owned(
        "HTTP/1.1 200 OK\r\nContent-Type: text/event-stream\r\nCache-Control: no-cache\r\nX-Accel-Buffering: no\r\nConnection: keep-alive\r\n\r\n",
    )
}

/// A JSON answer with the status 200, whose body is given.
pub open spec fn plain_json_text(body: Seq<char>) -> Seq<char> {
    with_body("HTTP/1.1 200 OK\r\nContent-Type: application/json\r\n"@, body)
}

pub fn plain_json(body: &str) -> (r: String)
    ensures
        r@ == plain_json_text(body@),
{
    answer("HTTP/1.1 200 OK\r\nContent-Type: application/json\r\n", body)
}

/// A JSON answer with the status 200 that names the request it answers.
pub open spec fn traced_json_text(request_id: Seq<char>, body: Seq<char>) -> Seq<char> {
    with_body(
        "HTTP/1.1 200 OK\r\nContent-Type: application/json\r\nx-request-id: "@ + request_id
            + "\r\n"@,
        body,
    )
}

pub fn traced_json(request_id: &str, body: &str) -> (r: String)
    ensures
        r@ == traced_json_text(request_id@, body@),
{
    let head = text::concat3(
        "HTTP/1.1 200 OK\r\nContent-Type: application/json\r\nx-request-id: ",
        request_id,
        "\r\n",
    );
    answer(head.as_str(), body)
}

/// An answer that is only a status.
pub fn bare(status_line: &str) -> (r: String)
    ensures
        r@ == "HTTP/1.1 "@ + status_line@ + "\r\nContent-Length: 0\r\n\r\n"@,
{
    text::concat3("HTTP/1.1 ", status_line, "\r\nContent-Length: 0\r\n\r\n")
}

/// A request that is turned away.
pub struct Refusal {
    pub status: u16,
    pub code: String,
    pub message: String,
}

pub open spec fn is_refusal(r: Refusal, status: u16, code: Seq<char>, message: Seq<char>) -> bool {
    r.status == status && r.code@ == code && r.message@ == message
}

impl Refusal {
    pub fn new(status: u16, code: &str, message: &str) -> (r: Refusal)
        ensures
            is_refusal(r, status, code@, message@),
    {
        Refusal { status, code: text::owned(code), message: text::owned(message) }
    }

    /// The answer to a request that is turned away.
    pub fn render(&self) -> (r: String)
        ensures
            r@ == json_error_text(self.status, self.code@, self.message@),
    {
        json_error(self.status, self.code.as_str(), self.message.as_str())
    }
}

} // verus!
