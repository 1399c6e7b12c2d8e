//! Responses: the status line, the header block and the body, and the bytes
//! that carry them on the wire.

use crate::encoding::lemma_encode_concat;
use crate::text::{decimal, push_decimal, to_decimal};
use crate::vocabulary::HttpResponseHeaders;
use vstd::prelude::*;
use vstd::utf8::encode_utf8;

verus! {

/// The outcome that a response reports.
#[derive(Clone, Copy, Debug, PartialEq, Eq, Structural)]
pub enum Status {
    Success,
    Created,
    BadRequest,
    NotFound,
    Conflict,
    InternalServerError,
}

impl Status {
    /// The status code.
    pub open spec fn number(self) -> nat {
        match self {
            Status::Success => 200,
            Status::Created => 201,
            Status::BadRequest => 400,
            Status::NotFound => 404,
            Status::Conflict => 409,
            Status::InternalServerError => 500,
        }
    }

    /// The reason phrase that goes with the code.
    pub open spec fn phrase(self) -> Seq<char> {
        match self {
            Status::Success => "OK"@,
            Status::Created => "Created"@,
            Status::BadRequest => "Bad Request"@,
            Status::NotFound => "Not Found"@,
            Status::Conflict => "Conflict"@,
            Status::InternalServerError => "Internal Server Error"@,
        }
    }

    /// The status line, without its line terminator: the protocol version,
    /// the code in decimal and the reason phrase, with one space between
    /// them.
    pub open spec fn line(self) -> Seq<char> {
        "HTTP/1.1 "@ + decimal(self.number()) + " "@ + self.phrase()
    }

    /// The status code.
    pub fn code(&self) -> (code: u16)
        ensures
            code == self.number(),
    {
        match self {
            Status::Success => 200,
            Status::Created => 201,
            Status::BadRequest => 400,
            Status::NotFound => 404,
            Status::Conflict => 409,
            Status::InternalServerError => 500,
        }
    }

    /// The reason phrase.
    pub fn reason(&self) -> (reason: &'static str)
        ensures
            reason@ == self.phrase(),
    {
        match self {
            Status::Success => "OK",
            Status::Created => "Created",
            Status::BadRequest => "Bad Request",
            Status::NotFound => "Not Found",
            Status::Conflict => "Conflict",
            Status::InternalServerError => "Internal Server Error",
        }
    }
}

/// The line terminator of the protocol: a carriage return and a line feed.
pub open spec fn crlf() -> Seq<char> {
    "\r\n"@
}

/// The bytes of a response: the status line, the header block, an empty
/// line and the body. Every line of the header block, like the status line,
/// ends in a line terminator. The text is encoded as UTF-8, and the body
/// follows byte for byte.
pub open spec fn response_bytes(status: Status, headers: Seq<char>, body: Seq<u8>) -> Seq<u8> {
    encode_utf8(status.line() + crlf() + headers + crlf()) + body
}

/// On the wire a response is, in this order: the status line, a line
/// terminator, the header block, a line terminator, the body.
pub proof fn lemma_response_layout(status: Status, headers: Seq<char>, body: Seq<u8>)
    ensures
        response_bytes(status, headers, body) == encode_utf8(status.line()) + encode_utf8(crlf())
            + encode_utf8(headers) + encode_utf8(crlf()) + body,
{
    lemma_encode_concat(status.line() + crlf() + headers, crlf());
    lemma_encode_concat(status.line() + crlf(), headers);
    lemma_encode_concat(status.line(), crlf());
}

/// The six status lines of the protocol.
pub proof fn lemma_status_lines()
    ensures
        Status::Success.line() == "HTTP/1.1 200 OK"@,
        Status::Created.line() == "HTTP/1.1 201 Created"@,
        Status::BadRequest.line() == "HTTP/1.1 400 Bad Request"@,
        Status::NotFound.line() == "HTTP/1.1 404 Not Found"@,
        Status::Conflict.line() == "HTTP/1.1 409 Conflict"@,
        Status::InternalServerError.line() == "HTTP/1.1 500 Internal Server Error"@,
{
    reveal_with_fuel(decimal, 3);
    reveal_strlit("HTTP/1.1 ");
    reveal_strlit(" ");
    reveal_strlit("OK");
    reveal_strlit("Created");
    reveal_strlit("Bad Request");
    reveal_strlit("Not Found");
    reveal_strlit("Conflict");
    reveal_strlit("Internal Server Error");
    reveal_strlit("HTTP/1.1 200 OK");
    reveal_strlit("HTTP/1.1 201 Created");
    reveal_strlit("HTTP/1.1 400 Bad Request");
    reveal_strlit("HTTP/1.1 404 Not Found");
    reveal_strlit("HTTP/1.1 409 Conflict");
    reveal_strlit("HTTP/1.1 500 Internal Server Error");
}

/// One header line with its line terminator.
pub open spec fn header_line(name: HttpResponseHeaders, value: Seq<char>) -> Seq<char> {
    name.prefix() + value + crlf()
}

/// The header block that announces a body: its content type and its length
/// in bytes.
pub open spec fn body_headers(content_type: Seq<char>, length: nat) -> Seq<char> {
    header_line(HttpResponseHeaders::ContentType, content_type) + header_line(
        HttpResponseHeaders::ContentLength,
        decimal(length),
    )
}

/// The text that an optional string stands for: nothing where it is absent.
pub open spec fn text_or_empty(text: Option<String>) -> Seq<char> {
    match text {
        Some(t) => t@,
        None => Seq::empty(),
    }
}

/// The content type that an optional string names: `text/plain` where it is
/// absent.
pub open spec fn content_type_or_default(content_type: Option<String>) -> Seq<char> {
    match content_type {
        Some(t) => t@,
        None => "text/plain"@,
    }
}

/// Builds the header block of a response, line by line.
pub struct HttpResponseHeaderBuilder {
    response_text: String,
}

impl View for HttpResponseHeaderBuilder {
    type V = Seq<char>;

    closed spec fn view(&self) -> Seq<char> {
        self.response_text@
    }
}

impl HttpResponseHeaderBuilder {
    /// A builder whose header block is empty.
    pub fn new() -> (builder: Self)
        ensures
            builder@ == Seq::<char>::empty(),
    {
        HttpResponseHeaderBuilder { response_text: String::new() }
    }

    /// Appends the line of one header.
    pub fn add(self, response_header: HttpResponseHeaders, value: String) -> (builder: Self)
        ensures
            builder@ == self@ + header_line(response_header, value@),
    {
        let mut text = self.response_text;
        text.append(response_header.as_str());
        text.append(value.as_str());
        text.append("\r\n");
        HttpResponseHeaderBuilder { response_text: text }
    }

    /// The header block that was built.
    pub fn get_response_string(self) -> (text: String)
        ensures
            text@ == self@,
    {
        self.response_text
    }
}

/// Serialises a response with the given status, header block and body.
pub fn respond(status: Status, headers: &str, body: &[u8]) -> (out: Vec<u8>)
    ensures
        out@ == response_bytes(status, headers@, body@),
{
    let mut head = String::new();
    head.append("HTTP/1.1 ");
    push_decimal(&mut head, status.code() as usize);
    head.append(" ");
    head.append(status.reason());
    head.append("\r\n");
    head.append(headers);
    head.append("\r\n");
    let mut out = head.as_str().as_bytes_vec();
    let mut i: usize = 0;
    while i < body.len()
        invariant
            i <= body.len(),
            out@ == encode_utf8(head@) + body@.take(i as int),
        decreases body.len() - i,
    {
        out.push(body[i]);
        i += 1;
    }
    out
}

/// Serialises a response whose header block and body are text, each empty
/// where it is absent.
pub fn respond_text(status: Status, headers: Option<String>, body: Option<String>) -> (out: Vec<u8>)
    ensures
        out@ == response_bytes(status, text_or_empty(headers), encode_utf8(text_or_empty(body))),
{
    let headers = match headers {
        Some(h) => h,
        None => String::new(),
    };
    let body = match body {
        Some(b) => b,
        None => String::new(),
    };
    respond(status, headers.as_str(), body.as_str().as_bytes())
}

/// A `200 OK` response.
pub fn respond_ok(headers: Option<String>, body: Option<String>) -> (out: Vec<u8>)
    ensures
        out@ == response_bytes(
            Status::Success,
            text_or_empty(headers),
            encode_utf8(text_or_empty(body)),
        ),
{
    respond_text(Status::Success, headers, body)
}

/// A `404 Not Found` response.
pub fn respond_not_found(headers: Option<String>, body: Option<String>) -> (out: Vec<u8>)
    ensures
        out@ == response_bytes(
            Status::NotFound,
            text_or_empty(headers),
            encode_utf8(text_or_empty(body)),
        ),
{
    respond_text(Status::NotFound, headers, body)
}

/// A `201 Created` response.
pub fn respond_created(headers: Option<String>, body: Option<String>) -> (out: Vec<u8>)
    ensures
        out@ == response_bytes(
            Status::Created,
            text_or_empty(headers),
            encode_utf8(text_or_empty(body)),
        ),
{
    respond_text(Status::Created, headers, body)
}

/// A `409 Conflict` response.
pub fn respond_conflict(headers: Option<String>, body: Option<String>) -> (out: Vec<u8>)
    ensures
        out@ == response_bytes(
            Status::Conflict,
            text_or_empty(headers),
            encode_utf8(text_or_empty(body)),
        ),
{
    respond_text(Status::Conflict, headers, body)
}

/// A `500 Internal Server Error` response.
pub fn respond_internal_server_error(headers: Option<String>, body: Option<String>) -> (out: Vec<
    u8,
>)
    ensures
        out@ == response_bytes(
            Status::InternalServerError,
            text_or_empty(headers),
            encode_utf8(text_or_empty(body)),
        ),
{
    respond_text(Status::InternalServerError, headers, body)
}

/// A `400 Bad Request` response.
pub fn respond_bad_request(headers: Option<String>, body: Option<String>) -> (out: Vec<u8>)
    ensures
        out@ == response_bytes(
            Status::BadRequest,
            text_or_empty(headers),
            encode_utf8(text_or_empty(body)),
        ),
{
    respond_text(Status::BadRequest, headers, body)
}

/// A `200 OK` response that carries `body` as text. Its headers give the
/// content type, `text/plain` where none is named, and the number of bytes
/// that the body takes on the wire.
pub fn respond_string_body(body: String, content_type: Option<String>) -> (out: Vec<u8>)
    ensures
        out@ == response_bytes(
            Status::Success,
            body_headers(content_type_or_default(content_type), encode_utf8(body@).len()),
            encode_utf8(body@),
        ),
{
    let content_type = match content_type {
        Some(t) => t,
        None => "text/plain".to_string(),
    };
    let header = HttpResponseHeaderBuilder::new().add(
        HttpResponseHeaders::ContentType,
        content_type,
    ).add(HttpResponseHeaders::ContentLength, to_decimal(body.as_str().as_bytes().len())).get_response_string();
    respond_ok(Some(header), Some(body))
}

/// A `200 OK` response that carries `body` as it is, byte for byte. Its
/// headers give the content type, `text/plain` where none is named, and the
/// number of bytes of the body.
pub fn respond_byte_body(body: Vec<u8>, content_type: Option<String>) -> (out: Vec<u8>)
    ensures
        out@ == response_bytes(
            Status::Success,
            body_headers(content_type_or_default(content_type), body@.len()),
            body@,
        ),
{
    let content_type = match content_type {
        Some(t) => t,
        None => "text/plain".to_string(),
    };
    let header = HttpResponseHeaderBuilder::new().add(
        HttpResponseHeaders::ContentType,
        content_type,
    ).add(HttpResponseHeaders::ContentLength, to_decimal(body.len())).get_response_string();
    respond(Status::Success, header.as_str(), body.as_slice())
}

} // verus!
