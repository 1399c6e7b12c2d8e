//! The closed vocabularies of the protocol: methods, versions, header names
//! and content types, each with its text on the wire.

use crate::text::{eq_ignore_case, is_word, same_ignoring_case, str_eq};
use vstd::prelude::*;
use vstd::std_specs::cmp::PartialEqSpecImpl;
use vstd::utf8::is_ascii_chars;

verus! {

/// A request method.
#[derive(Clone, Copy, Debug, PartialEq, Eq, Structural)]
pub enum HttpMethod {
    GET,
    POST,
    PUT,
    DELETE,
}

impl HttpMethod {
    /// The token that stands for this method in a request line.
    pub open spec fn token(self) -> Seq<char> {
        match self {
            HttpMethod::GET => "GET"@,
            HttpMethod::POST => "POST"@,
            HttpMethod::PUT => "PUT"@,
            HttpMethod::DELETE => "DELETE"@,
        }
    }

    /// The method that `token` stands for, if it is one. Tokens are case
    /// sensitive.
    pub open spec fn from_token(token: Seq<char>) -> Option<HttpMethod> {
        if token == "GET"@ {
            Some(HttpMethod::GET)
        } else if token == "POST"@ {
            Some(HttpMethod::POST)
        } else if token == "PUT"@ {
            Some(HttpMethod::PUT)
        } else if token == "DELETE"@ {
            Some(HttpMethod::DELETE)
        } else {
            None
        }
    }

    /// The token of this method.
    pub fn as_str(&self) -> (s: &'static str)
        ensures
            s@ == self.token(),
    {
        match self {
            HttpMethod::GET => "GET",
            HttpMethod::POST => "POST",
            HttpMethod::PUT => "PUT",
            HttpMethod::DELETE => "DELETE",
        }
    }

    /// Reads a method token.
    pub fn from_str(token: &str) -> (method: Option<HttpMethod>)
        ensures
            method == HttpMethod::from_token(token@),
    {
        if str_eq(token, "GET") {
            Some(HttpMethod::GET)
        } else if str_eq(token, "POST") {
            Some(HttpMethod::POST)
        } else if str_eq(token, "PUT") {
            Some(HttpMethod::PUT)
        } else if str_eq(token, "DELETE") {
            Some(HttpMethod::DELETE)
        } else {
            None
        }
    }
}

/// Every method is read back from its own token.
pub proof fn lemma_method_token_round_trip(method: HttpMethod)
    ensures
        HttpMethod::from_token(method.token()) == Some(method),
{
    reveal_strlit("GET");
    reveal_strlit("POST");
    reveal_strlit("PUT");
    reveal_strlit("DELETE");
    assert("GET"@.len() == 3 && "POST"@.len() == 4 && "DELETE"@.len() == 6);
    assert("PUT"@.len() == 3 && "PUT"@[0] != "GET"@[0]);
}

/// The token of a method is a word: it can stand in a request line.
pub proof fn lemma_method_token_is_word(method: HttpMethod)
    ensures
        is_word(method.token()),
{
    reveal_strlit("GET");
    reveal_strlit("POST");
    reveal_strlit("PUT");
    reveal_strlit("DELETE");
}

/// A protocol version.
#[derive(Clone, Copy, Debug, PartialEq, Eq, Structural)]
pub enum HttpVersion {
    V1_0,
    V1_1,
}

impl HttpVersion {
    /// The token that stands for this version in a request line.
    pub open spec fn token(self) -> Seq<char> {
        match self {
            HttpVersion::V1_0 => "HTTP/1.0"@,
            HttpVersion::V1_1 => "HTTP/1.1"@,
        }
    }

    /// The version that `token` stands for, if it is one.
    pub open spec fn from_token(token: Seq<char>) -> Option<HttpVersion> {
        if token == "HTTP/1.0"@ {
            Some(HttpVersion::V1_0)
        } else if token == "HTTP/1.1"@ {
            Some(HttpVersion::V1_1)
        } else {
            None
        }
    }

    /// The token of this version.
    pub fn as_str(&self) -> (s: &'static str)
        ensures
            s@ == self.token(),
    {
        match self {
            HttpVersion::V1_0 => "HTTP/1.0",
            HttpVersion::V1_1 => "HTTP/1.1",
        }
    }

    /// Reads a version token.
    pub fn from_str(token: &str) -> (version: Option<HttpVersion>)
        ensures
            version == HttpVersion::from_token(token@),
    {
        if str_eq(token, "HTTP/1.0") {
            Some(HttpVersion::V1_0)
        } else if str_eq(token, "HTTP/1.1") {
            Some(HttpVersion::V1_1)
        } else {
            None
        }
    }
}

/// Every version is read back from its own token.
pub proof fn lemma_version_token_round_trip(version: HttpVersion)
    ensures
        HttpVersion::from_token(version.token()) == Some(version),
{
    reveal_strlit("HTTP/1.0");
    reveal_strlit("HTTP/1.1");
    assert("HTTP/1.0"@[7] != "HTTP/1.1"@[7]);
}

/// The token of a version is a word: it can stand in a request line.
pub proof fn lemma_version_token_is_word(version: HttpVersion)
    ensures
        is_word(version.token()),
{
    reveal_strlit("HTTP/1.0");
    reveal_strlit("HTTP/1.1");
}

/// The name of a header that a response can carry.
#[derive(Clone, Copy, Debug, PartialEq, Eq, Structural)]
pub enum HttpResponseHeaders {
    ContentType,
    ContentLength,
}

impl HttpResponseHeaders {
    /// The text that opens a header line of this name: the name, a colon
    /// and a space.
    pub open spec fn prefix(self) -> Seq<char> {
        match self {
            HttpResponseHeaders::ContentType => "Content-Type: "@,
            HttpResponseHeaders::ContentLength => "Content-Length: "@,
        }
    }

    /// The text that opens a header line of this name.
    pub fn as_str(&self) -> (s: &'static str)
        ensures
            s@ == self.prefix(),
    {
        match self {
            HttpResponseHeaders::ContentType => "Content-Type: ",
            HttpResponseHeaders::ContentLength => "Content-Length: ",
        }
    }
}

/// The name of a request header that the server keeps.
#[derive(Clone, Copy, Debug, PartialEq, Eq, Structural)]
pub enum HttpRequestHeaders {
    UserAgent,
    Host,
    Accept,
    ContentType,
    ContentLength,
}

impl HttpRequestHeaders {
    /// The canonical spelling of this name.
    pub open spec fn name(self) -> Seq<char> {
        match self {
            HttpRequestHeaders::UserAgent => "User-Agent"@,
            HttpRequestHeaders::Host => "Host"@,
            HttpRequestHeaders::Accept => "Accept"@,
            HttpRequestHeaders::ContentType => "Content-Type"@,
            HttpRequestHeaders::ContentLength => "Content-Length"@,
        }
    }

    /// The header that `name` spells, in any mix of upper and lower case;
    /// `None` for every other name.
    pub open spec fn from_name(name: Seq<char>) -> Option<HttpRequestHeaders> {
        if same_ignoring_case(name, "User-Agent"@) {
            Some(HttpRequestHeaders::UserAgent)
        } else if same_ignoring_case(name, "Host"@) {
            Some(HttpRequestHeaders::Host)
        } else if same_ignoring_case(name, "Accept"@) {
            Some(HttpRequestHeaders::Accept)
        } else if same_ignoring_case(name, "Content-Type"@) {
            Some(HttpRequestHeaders::ContentType)
        } else if same_ignoring_case(name, "Content-Length"@) {
            Some(HttpRequestHeaders::ContentLength)
        } else {
            None
        }
    }

    /// The canonical spelling of this name.
    pub fn as_str(&self) -> (s: &'static str)
        ensures
            s@ == self.name(),
    {
        match self {
            HttpRequestHeaders::UserAgent => "User-Agent",
            HttpRequestHeaders::Host => "Host",
            HttpRequestHeaders::Accept => "Accept",
            HttpRequestHeaders::ContentType => "Content-Type",
            HttpRequestHeaders::ContentLength => "Content-Length",
        }
    }

    /// Recognises a header name without regard to case.
    pub fn from_str(header: &str) -> (name: Option<HttpRequestHeaders>)
        ensures
            name == HttpRequestHeaders::from_name(header@),
    {
        if eq_ignore_case(header, "User-Agent") {
            Some(HttpRequestHeaders::UserAgent)
        } else if eq_ignore_case(header, "Host") {
            Some(HttpRequestHeaders::Host)
        } else if eq_ignore_case(header, "Accept") {
            Some(HttpRequestHeaders::Accept)
        } else if eq_ignore_case(header, "Content-Type") {
            Some(HttpRequestHeaders::ContentType)
        } else if eq_ignore_case(header, "Content-Length") {
            Some(HttpRequestHeaders::ContentLength)
        } else {
            None
        }
    }
}

/// Every header name is recognised from its canonical spelling.
pub proof fn lemma_header_name_round_trip(header: HttpRequestHeaders)
    ensures
        HttpRequestHeaders::from_name(header.name()) == Some(header),
{
    reveal_strlit("User-Agent");
    reveal_strlit("Host");
    reveal_strlit("Accept");
    reveal_strlit("Content-Type");
    reveal_strlit("Content-Length");
}

/// The lowercase form of a text, as `str::to_lowercase` gives it.
pub uninterp spec fn lowercase(s: Seq<char>) -> Seq<char>;

/// `c`, or the small letter for it where `c` is an ASCII capital letter.
pub open spec fn small(c: char) -> char {
    if 0x41 <= c as u32 <= 0x5A {
        ((c as u32 + 0x20) as u8) as char
    } else {
        c
    }
}

/// `s` with every ASCII capital letter replaced by its small letter.
pub open spec fn ascii_lowercase(s: Seq<char>) -> Seq<char> {
    Seq::new(s.len(), |i: int| small(s[i]))
}

/// The lowercase form of a text. In a text of ASCII characters the capital
/// letters become small and nothing else changes; any other text has the
/// form that `lowercase` names.
pub open spec fn lowered(s: Seq<char>) -> Seq<char> {
    if is_ascii_chars(s) {
        ascii_lowercase(s)
    } else {
        lowercase(s)
    }
}

/// Calls `str::to_lowercase`, which maps each character of `s` to its
/// lowercase form by the rules of Unicode. The contract gives the result
/// the name `lowercase` and claims one thing more: in a text of ASCII
/// characters, the letters `A` to `Z` become `a` to `z` and every other
/// character stays as it is.
#[verifier::external_body]
fn to_lowercase(s: &str) -> (lower: String)
    ensures
        lower@ == lowercase(s@),
        is_ascii_chars(s@) ==> lower@ == ascii_lowercase(s@),
{
    s.to_lowercase()
}

/// A media type: two that the server knows by name, and any other.
#[derive(Debug)]
pub enum ContentType {
    TextPlain,
    ApplicationOctetStream,
    Other(String),
}

/// The mathematical value of a [`ContentType`].
pub ghost enum MediaType {
    TextPlain,
    ApplicationOctetStream,
    Other(Seq<char>),
}

impl MediaType {
    /// The text of this media type.
    pub open spec fn text(self) -> Seq<char> {
        match self {
            MediaType::TextPlain => "text/plain"@,
            MediaType::ApplicationOctetStream => "application/octet-stream"@,
            MediaType::Other(s) => s,
        }
    }

    /// The media type that `value` names. The two known types are
    /// recognised in any mix of upper and lower case; any other value is
    /// kept in its lowercase form.
    pub open spec fn of(value: Seq<char>) -> MediaType {
        if same_ignoring_case(value, "text/plain"@) {
            MediaType::TextPlain
        } else if same_ignoring_case(value, "application/octet-stream"@) {
            MediaType::ApplicationOctetStream
        } else {
            MediaType::Other(lowered(value))
        }
    }
}

impl View for ContentType {
    type V = MediaType;

    open spec fn view(&self) -> MediaType {
        match self {
            ContentType::TextPlain => MediaType::TextPlain,
            ContentType::ApplicationOctetStream => MediaType::ApplicationOctetStream,
            ContentType::Other(s) => MediaType::Other(s@),
        }
    }
}

impl PartialEq for ContentType {
    fn eq(&self, other: &Self) -> (same: bool) {
        match (self, other) {
            (ContentType::TextPlain, ContentType::TextPlain) => true,
            (ContentType::ApplicationOctetStream, ContentType::ApplicationOctetStream) => true,
            (ContentType::Other(a), ContentType::Other(b)) => str_eq(a.as_str(), b.as_str()),
            _ => false,
        }
    }
}

impl PartialEqSpecImpl for ContentType {
    open spec fn obeys_eq_spec() -> bool {
        true
    }

    open spec fn eq_spec(&self, other: &Self) -> bool {
        self@ == other@
    }
}

impl ContentType {
    /// Reads the value of a `Content-Type` header.
    pub fn from_str(content_type: &str) -> (ct: ContentType)
        ensures
            ct@ == MediaType::of(content_type@),
    {
        if eq_ignore_case(content_type, "text/plain") {
            ContentType::TextPlain
        } else if eq_ignore_case(content_type, "application/octet-stream") {
            ContentType::ApplicationOctetStream
        } else {
            ContentType::Other(to_lowercase(content_type))
        }
    }

    /// The text of this content type.
    pub fn as_str(&self) -> (s: String)
        ensures
            s@ == self@.text(),
    {
        match self {
            ContentType::TextPlain => "text/plain".to_string(),
            ContentType::ApplicationOctetStream => "application/octet-stream".to_string(),
            ContentType::Other(s) => s.clone(),
        }
    }
}

} // verus!
