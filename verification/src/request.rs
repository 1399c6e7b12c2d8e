//! Requests: the grammar that turns the bytes of a connection into a
//! method, a path, a version, headers and a body.

use crate::encoding::{lemma_encode_concat, lemma_encoded_line, lemma_encoded_line_terminator};
use crate::headers::{
    header_lines, header_text, headers_of, lemma_headers_round_trip, trimmed_headers, Header,
    HttpRequestHeaderParser,
};
use crate::text::{
    first_occurrence, is_line, is_word, joined_lines, lemma_first_occurrence,
    lemma_lines_of_joined, lemma_tokens_are_words, lemma_tokens_of_three_words, lines, occurs_at,
    split_lines, split_whitespace, tokens, views,
};
use crate::vocabulary::{
    lemma_method_token_is_word, lemma_method_token_round_trip, lemma_version_token_is_word,
    lemma_version_token_round_trip, HttpMethod, HttpVersion,
};
use vstd::prelude::*;
use vstd::slice::{slice_subrange, slice_to_vec};
use vstd::utf8::{
    decode_utf8, encode_utf8, encode_utf8_decode_utf8, encode_utf8_valid_utf8, valid_utf8,
};

verus! {

/// The text that `String::from_utf8_lossy` makes of a sequence of bytes.
pub uninterp spec fn lossy_text(bytes: Seq<u8>) -> Seq<char>;

/// Calls `String::from_utf8_lossy`, which reads `bytes` as UTF-8 and puts
/// U+FFFD in the place of what is not. The contract gives the result the
/// name `lossy_text` and claims one thing more: bytes that are valid UTF-8
/// decode to the text they encode.
#[verifier::external_body]
fn decode_lossy(bytes: &[u8]) -> (text: String)
    ensures
        text@ == lossy_text(bytes@),
        valid_utf8(bytes@) ==> text@ == decode_utf8(bytes@),
{
    String::from_utf8_lossy(bytes).into_owned()
}

/// Calls `String::from_utf8`, which accepts `bytes` exactly when they are
/// valid UTF-8 and then gives the text they encode.
#[verifier::external_body]
fn decode_strict(bytes: Vec<u8>) -> (text: Option<String>)
    ensures
        text is Some <==> valid_utf8(bytes@),
        text matches Some(t) ==> t@ == decode_utf8(bytes@),
{
    match String::from_utf8(bytes) {
        Ok(text) => Some(text),
        Err(_) => None,
    }
}

/// The body of a request: bytes, kept as they arrived.
#[derive(Debug)]
pub struct HttpRequestBody {
    raw_content: Vec<u8>,
}

impl View for HttpRequestBody {
    type V = Seq<u8>;

    closed spec fn view(&self) -> Seq<u8> {
        self.raw_content@
    }
}

impl HttpRequestBody {
    /// A body that holds `raw_content`.
    pub fn new(raw_content: Vec<u8>) -> (body: Self)
        ensures
            body@ == raw_content@,
    {
        HttpRequestBody { raw_content }
    }

    /// The bytes of the body.
    pub fn as_bytes(&self) -> (bytes: &[u8])
        ensures
            bytes@ == self@,
    {
        self.raw_content.as_slice()
    }

    /// Gives up the body for its bytes.
    pub fn into_bytes(self) -> (bytes: Vec<u8>)
        ensures
            bytes@ == self@,
    {
        self.raw_content
    }

    /// The body as text, where its bytes are valid UTF-8.
    pub fn as_string(&self) -> (text: Option<String>)
        ensures
            text is Some <==> valid_utf8(self@),
            text matches Some(t) ==> t@ == decode_utf8(self@),
    {
        decode_strict(slice_to_vec(self.raw_content.as_slice()))
    }
}

/// What a request line says. The line must consist of exactly three
/// whitespace-separated tokens: a method, a path and a version. The path is
/// taken as it stands.
pub open spec fn request_line_of(line: Seq<char>) -> Option<(HttpMethod, Seq<char>, HttpVersion)> {
    let parts = tokens(line);
    if parts.len() != 3 {
        None
    } else {
        match (HttpMethod::from_token(parts[0]), HttpVersion::from_token(parts[2])) {
            (Some(method), Some(version)) => Some((method, parts[1], version)),
            _ => None,
        }
    }
}

/// Reads a request line. Fails where the line does not have exactly three
/// tokens, or the first is no method, or the third is no version.
pub fn parse_request_line<'a>(request_line: &'a str) -> (parsed: Option<
    (HttpMethod, &'a str, HttpVersion),
>)
    ensures
        match parsed {
            Some((method, path, version)) => request_line_of(request_line@) == Some(
                (method, path@, version),
            ),
            None => request_line_of(request_line@) is None,
        },
{
    let parts = split_whitespace(request_line);
    if parts.len() == 3 {
        let method = match HttpMethod::from_str(parts[0]) {
            Some(method) => method,
            None => {
                return None;
            },
        };
        let version = match HttpVersion::from_str(parts[2]) {
            Some(version) => version,
            None => {
                return None;
            },
        };
        return Some((method, parts[1], version));
    }
    None
}

/// The request line that is written for a method, a path and a version:
/// their tokens, with one space between them.
pub open spec fn request_line(method: HttpMethod, path: Seq<char>, version: HttpVersion) -> Seq<
    char,
> {
    method.token() + seq![' '] + path + seq![' '] + version.token()
}

/// A line of exactly three tokens, of which the first is a method and the
/// third is the version 1.1, is read; and the method, the path and the
/// version that are read spell exactly the three tokens of the line.
pub proof fn lemma_request_line_is_read(line: Seq<char>)
    requires
        tokens(line).len() == 3,
        HttpMethod::from_token(tokens(line)[0]) is Some,
        tokens(line)[2] == "HTTP/1.1"@,
    ensures
        request_line_of(line) matches Some((method, path, version)) && version
            == HttpVersion::V1_1 && seq![method.token(), path, version.token()] == tokens(line),
{
    lemma_version_token_round_trip(HttpVersion::V1_1);
    let (method, path, version) = request_line_of(line)->0;
}

/// Whatever is read from a line spells the tokens of that line.
pub proof fn lemma_request_line_keeps_tokens(line: Seq<char>)
    requires
        request_line_of(line) is Some,
    ensures
        request_line_of(line) matches Some((method, path, version)) && tokens(line)
            == seq![method.token(), path, version.token()] && is_word(path),
{
    let (method, path, version) = request_line_of(line)->0;
    lemma_tokens_are_words(line);
}

/// The request line that is written for a method, a path without
/// whitespace and a version is read back as the same three.
pub proof fn lemma_request_line_round_trip(
    method: HttpMethod,
    path: Seq<char>,
    version: HttpVersion,
)
    requires
        is_word(path),
    ensures
        request_line_of(request_line(method, path, version)) == Some((method, path, version)),
{
    lemma_method_token_is_word(method);
    lemma_version_token_is_word(version);
    lemma_tokens_of_three_words(method.token(), path, version.token());
    lemma_method_token_round_trip(method);
    lemma_version_token_round_trip(version);
}

/// Reading is stable: the line that is written for what was read from a
/// line is read as the same again.
pub proof fn lemma_request_line_reread(line: Seq<char>)
    requires
        request_line_of(line) is Some,
    ensures
        request_line_of(line) matches Some((method, path, version)) && request_line_of(
            request_line(method, path, version),
        ) == request_line_of(line),
{
    lemma_request_line_keeps_tokens(line);
    let (method, path, version) = request_line_of(line)->0;
    lemma_request_line_round_trip(method, path, version);
}

/// A request, as a mathematical value.
pub ghost struct Request {
    pub method: HttpMethod,
    pub path: Seq<char>,
    pub version: HttpVersion,
    pub headers: Seq<Header>,
    pub body: Option<Seq<u8>>,
}

/// A request that was read from a connection.
#[derive(Debug)]
pub struct ParsedRequest {
    pub method: HttpMethod,
    pub path: String,
    pub version: HttpVersion,
    pub headers: HttpRequestHeaderParser,
    pub body: Option<HttpRequestBody>,
}

impl View for ParsedRequest {
    type V = Request;

    open spec fn view(&self) -> Request {
        Request {
            method: self.method,
            path: self.path@,
            version: self.version,
            headers: self.headers@,
            body: match self.body {
                Some(body) => Some(body@),
                None => None,
            },
        }
    }
}

/// The empty line that ends the head of a request: two line terminators,
/// each a carriage return and a line feed.
pub open spec fn blank_line() -> Seq<u8> {
    seq![13u8, 10u8, 13u8, 10u8]
}

/// The head of a request: what stands before the first blank line, or all
/// of `raw` where there is none.
pub open spec fn head_bytes(raw: Seq<u8>) -> Seq<u8> {
    match first_occurrence(raw, blank_line()) {
        Some(i) => raw.take(i),
        None => raw,
    }
}

/// The body of a request: what follows the first blank line. A request
/// without a blank line has no body, which is not the same as an empty one.
pub open spec fn body_bytes(raw: Seq<u8>) -> Option<Seq<u8>> {
    match first_occurrence(raw, blank_line()) {
        Some(i) => Some(raw.skip(i + 4)),
        None => None,
    }
}

/// The request that a head and a body make. The first line of the head is
/// the request line, and the lines after it are header lines. There is no
/// request where the request line cannot be read.
pub open spec fn request_from(head: Seq<char>, body: Option<Seq<u8>>) -> Option<Request> {
    let all = lines(head);
    let first = if all.len() > 0 {
        all[0]
    } else {
        Seq::empty()
    };
    let rest = if all.len() > 0 {
        all.skip(1)
    } else {
        Seq::empty()
    };
    match request_line_of(first) {
        Some((method, path, version)) => Some(
            Request { method, path, version, headers: headers_of(rest), body },
        ),
        None => None,
    }
}

/// The text that the bytes of a head stand for. Bytes that are valid UTF-8
/// stand for the text that they encode. In any others, what is not UTF-8 is
/// replaced by U+FFFD, as `lossy_text` has it.
pub open spec fn head_text(bytes: Seq<u8>) -> Seq<char> {
    if valid_utf8(bytes) {
        decode_utf8(bytes)
    } else {
        lossy_text(bytes)
    }
}

/// The request that the bytes `raw` hold, if they hold one.
pub open spec fn request_of(raw: Seq<u8>) -> Option<Request> {
    request_from(head_text(head_bytes(raw)), body_bytes(raw))
}

/// Finds the first blank line in `raw`.
pub fn find_blank_line(raw: &[u8]) -> (at: Option<usize>)
    ensures
        match at {
            Some(i) => first_occurrence(raw@, blank_line()) == Some(i as int) && i + 4
                <= raw.len(),
            None => first_occurrence(raw@, blank_line()) is None,
        },
{
    let mut i: usize = 0;
    while i < raw.len() && raw.len() - i >= 4
        invariant
            i <= raw.len(),
            forall|j: int| 0 <= j < i ==> !occurs_at(raw@, blank_line(), j),
        decreases raw.len() - i,
    {
        if raw[i] == 13 && raw[i + 1] == 10 && raw[i + 2] == 13 && raw[i + 3] == 10 {
            proof {
                assert(raw@.subrange(i as int, i + 4) =~= blank_line());
                lemma_first_occurrence(raw@, blank_line(), i as int);
            }
            return Some(i);
        }
        proof {
            let found = raw@.subrange(i as int, i + 4);
            assert(found[0] == raw@[i as int] && found[1] == raw@[i + 1] && found[2] == raw@[i
                + 2] && found[3] == raw@[i + 3]);
        }
        i += 1;
    }
    assert forall|j: int| !occurs_at(raw@, blank_line(), j) by {
        if occurs_at(raw@, blank_line(), j) {
            assert(0 <= j < i);
        }
    }
    None
}

/// Reads a request from the text of its head and from its body.
pub fn parse_request_text(head: &str, body: Option<HttpRequestBody>) -> (request: Option<
    ParsedRequest,
>)
    ensures
        match request {
            Some(r) => request_from(
                head@,
                match body {
                    Some(b) => Some(b@),
                    None => None,
                },
            ) == Some(r@),
            None => request_from(
                head@,
                match body {
                    Some(b) => Some(b@),
                    None => None,
                },
            ) is None,
        },
{
    let all = split_lines(head);
    proof {
        reveal_strlit("");
    }
    let first = if all.len() > 0 {
        all[0]
    } else {
        ""
    };
    match parse_request_line(first) {
        None => None,
        Some((method, path, version)) => {
            let mut headers = HttpRequestHeaderParser::new();
            if all.len() > 0 {
                let rest = slice_subrange(all.as_slice(), 1, all.len());
                assert(views(rest@) =~= views(all@).skip(1));
                headers.parse(rest);
            }
            Some(ParsedRequest { method, path: path.to_string(), version, headers, body })
        },
    }
}

/// Reads a request from the bytes of a connection. The head is read as
/// text; the body is kept as bytes.
pub fn parse_request(raw: &[u8]) -> (request: Option<ParsedRequest>)
    ensures
        match request {
            Some(r) => request_of(raw@) == Some(r@),
            None => request_of(raw@) is None,
        },
{
    match find_blank_line(raw) {
        Some(i) => {
            let head = decode_lossy(slice_subrange(raw, 0, i));
            let content = slice_to_vec(slice_subrange(raw, i + 4, raw.len()));
            parse_request_text(head.as_str(), Some(HttpRequestBody::new(content)))
        },
        None => {
            let head = decode_lossy(raw);
            parse_request_text(head.as_str(), None)
        },
    }
}

/// Whether every one of `all` can stand as a line of a head: it is not
/// empty and holds no line feed.
pub open spec fn are_head_lines(all: Seq<Seq<char>>) -> bool {
    forall|i: int| 0 <= i < all.len() ==> is_line(#[trigger] all[i]) && all[i].len() > 0
}

proof fn lemma_encoded_lines_unfold(all: Seq<Seq<char>>)
    requires
        all.len() > 1,
    ensures
        encode_utf8(joined_lines(all)) == encode_utf8(all[0]) + seq![13u8, 10u8] + encode_utf8(
            joined_lines(all.skip(1)),
        ),
{
    let rest = joined_lines(all.skip(1));
    lemma_encode_concat(all[0] + seq!['\r', '\n'], rest);
    lemma_encode_concat(all[0], seq!['\r', '\n']);
    lemma_encoded_line_terminator();
}

proof fn lemma_second_byte(all: Seq<Seq<char>>, after: Seq<u8>)
    requires
        all.len() > 0,
        are_head_lines(all),
        after.len() == 0 || after[0] != 10,
    ensures
        encode_utf8(joined_lines(all)).len() >= 1,
        (encode_utf8(joined_lines(all)) + after).len() > 1 ==> (encode_utf8(joined_lines(all))
            + after)[1] != 10,
{
    let first = encode_utf8(all[0]);
    assert(is_line(all[0]));
    lemma_encoded_line(all[0]);
    if all.len() > 1 {
        lemma_encoded_lines_unfold(all);
        let rest = encode_utf8(joined_lines(all.skip(1)));
        let whole = first + seq![13u8, 10u8] + rest + after;
        if first.len() >= 2 {
            assert(whole[1] == first[1]);
        } else {
            assert(whole[1] == 13u8);
        }
    } else {
        if first.len() >= 2 {
            assert((first + after)[1] == first[1]);
        }
    }
}

proof fn lemma_no_blank_line_inside(all: Seq<Seq<char>>, after: Seq<u8>)
    requires
        all.len() > 0,
        are_head_lines(all),
        after.len() == 0 || after[0] != 10,
    ensures
        forall|j: int|
            0 <= j < encode_utf8(joined_lines(all)).len() ==> !occurs_at(
                encode_utf8(joined_lines(all)) + after,
                blank_line(),
                j,
            ),
    decreases all.len(),
{
    let head = encode_utf8(joined_lines(all));
    let whole = head + after;
    let first = encode_utf8(all[0]);
    assert(is_line(all[0]));
    lemma_encoded_line(all[0]);
    if all.len() == 1 {
        assert forall|j: int| 0 <= j < head.len() implies !occurs_at(whole, blank_line(), j) by {
            if occurs_at(whole, blank_line(), j) {
                assert(whole.subrange(j, j + 4)[1] == whole[j + 1]);
                if j + 1 < first.len() {
                    assert(whole[j + 1] == first[j + 1]);
                } else {
                    assert(whole[j + 1] == after[0]);
                }
            }
        }
    } else {
        let rest = all.skip(1);
        assert(are_head_lines(rest)) by {
            assert forall|i: int| 0 <= i < rest.len() implies is_line(#[trigger] rest[i])
                && rest[i].len() > 0 by {
                assert(rest[i] == all[i + 1]);
            }
        }
        lemma_encoded_lines_unfold(all);
        lemma_no_blank_line_inside(rest, after);
        lemma_second_byte(rest, after);
        let tail = encode_utf8(joined_lines(rest)) + after;
        let n = first.len() as int;
        assert(whole =~= first + seq![13u8, 10u8] + tail);
        assert forall|j: int| 0 <= j < head.len() implies !occurs_at(whole, blank_line(), j) by {
            if occurs_at(whole, blank_line(), j) {
                let found = whole.subrange(j, j + 4);
                assert(found[0] == whole[j] && found[1] == whole[j + 1] && found[2] == whole[j
                    + 2] && found[3] == whole[j + 3]);
                if j + 1 < n {
                    assert(whole[j + 1] == first[j + 1]);
                } else if j + 1 == n {
                    assert(whole[j + 1] == 13u8);
                } else if j == n {
                    assert(whole[j + 3] == tail[1]);
                } else if j == n + 1 {
                    assert(whole[j] == 10u8);
                } else {
                    assert(whole.subrange(j, j + 4) =~= tail.subrange(j - n - 2, j - n + 2));
                    assert(occurs_at(tail, blank_line(), j - n - 2));
                }
            }
        }
    }
}

/// Where a head of lines that are not empty is followed by a blank line and
/// a body, the head ends at that blank line and the body begins after it;
/// and the head is read as the text that was written.
pub proof fn lemma_head_then_body(all: Seq<Seq<char>>, body: Seq<u8>)
    requires
        all.len() > 0,
        are_head_lines(all),
    ensures
        head_bytes(encode_utf8(joined_lines(all)) + blank_line() + body) == encode_utf8(
            joined_lines(all),
        ),
        body_bytes(encode_utf8(joined_lines(all)) + blank_line() + body) == Some(body),
        head_text(encode_utf8(joined_lines(all))) == joined_lines(all),
{
    let head = encode_utf8(joined_lines(all));
    let raw = head + blank_line() + body;
    lemma_no_blank_line_inside(all, blank_line() + body);
    assert(raw =~= head + (blank_line() + body));
    let n = head.len() as int;
    assert(raw.subrange(n, n + 4) =~= blank_line());
    lemma_first_occurrence(raw, blank_line(), n);
    encode_utf8_valid_utf8(joined_lines(all));
    encode_utf8_decode_utf8(joined_lines(all));
}

/// A head of lines that are not empty, with nothing after it, holds no
/// blank line: all of it is head, and there is no body.
pub proof fn lemma_head_alone(all: Seq<Seq<char>>)
    requires
        all.len() > 0,
        are_head_lines(all),
    ensures
        head_bytes(encode_utf8(joined_lines(all))) == encode_utf8(joined_lines(all)),
        body_bytes(encode_utf8(joined_lines(all))) is None,
{
    let head = encode_utf8(joined_lines(all));
    lemma_no_blank_line_inside(all, Seq::<u8>::empty());
    assert(head + Seq::<u8>::empty() =~= head);
}

/// The lines of the head that is written for a request: the request line,
/// and one line for each header.
pub open spec fn head_lines(
    method: HttpMethod,
    path: Seq<char>,
    version: HttpVersion,
    headers: Seq<Header>,
) -> Seq<Seq<char>> {
    seq![request_line(method, path, version)] + header_lines(headers)
}

/// The lines that are written for a request can stand in a head, where the
/// path is a word and no header value holds a line feed.
pub proof fn lemma_head_lines_are_lines(
    method: HttpMethod,
    path: Seq<char>,
    version: HttpVersion,
    headers: Seq<Header>,
)
    requires
        is_word(path),
        forall|i: int| 0 <= i < headers.len() ==> is_line(#[trigger] headers[i].1),
    ensures
        are_head_lines(head_lines(method, path, version, headers)),
{
    let all = head_lines(method, path, version, headers);
    lemma_method_token_is_word(method);
    lemma_version_token_is_word(version);
    reveal_strlit("User-Agent");
    reveal_strlit("Host");
    reveal_strlit("Accept");
    reveal_strlit("Content-Type");
    reveal_strlit("Content-Length");
    assert forall|i: int| 0 <= i < all.len() implies is_line(#[trigger] all[i]) && all[i].len()
        > 0 by {
        if i == 0 {
            let line = request_line(method, path, version);
            assert(all[0] == line);
            let m = method.token();
            let v = version.token();
            assert forall|k: int| 0 <= k < line.len() implies #[trigger] line[k] != '\n' by {
                if k < m.len() {
                    assert(line[k] == m[k]);
                } else if k == m.len() {
                } else if k < m.len() + 1 + path.len() {
                    assert(line[k] == path[k - m.len() - 1]);
                } else if k == m.len() + 1 + path.len() {
                } else {
                    assert(line[k] == v[k - m.len() - path.len() - 2]);
                }
            }
        } else {
            let header = headers[i - 1];
            let line = header_text(header.0, header.1);
            assert(all[i] == line);
            let name = header.0.name();
            assert(is_line(header.1));
            assert forall|k: int| 0 <= k < line.len() implies #[trigger] line[k] != '\n' by {
                if k < name.len() {
                    assert(line[k] == name[k]);
                } else if k < name.len() + 2 {
                } else {
                    assert(line[k] == header.1[k - name.len() - 2]);
                }
            }
        }
    }
}

/// The head that is written for a request is read back as that request,
/// with the values of its headers trimmed: for every method, every path
/// that is a word, every version, and all headers whose values hold no line
/// feed.
pub proof fn lemma_written_head_is_read(
    method: HttpMethod,
    path: Seq<char>,
    version: HttpVersion,
    headers: Seq<Header>,
    body: Option<Seq<u8>>,
)
    requires
        is_word(path),
        forall|i: int| 0 <= i < headers.len() ==> is_line(#[trigger] headers[i].1),
    ensures
        request_from(joined_lines(head_lines(method, path, version, headers)), body) == Some(
            Request { method, path, version, headers: trimmed_headers(headers), body },
        ),
{
    let all = head_lines(method, path, version, headers);
    lemma_head_lines_are_lines(method, path, version, headers);
    lemma_lines_of_joined(all);
    lemma_request_line_round_trip(method, path, version);
    assert(all.skip(1) =~= header_lines(headers));
    lemma_headers_round_trip(headers);
}

/// The bytes that are written for a request with a body: the lines of the
/// head, each but the last followed by a line terminator, then a blank
/// line, then the body.
pub open spec fn written_request(
    method: HttpMethod,
    path: Seq<char>,
    version: HttpVersion,
    headers: Seq<Header>,
    body: Seq<u8>,
) -> Seq<u8> {
    encode_utf8(joined_lines(head_lines(method, path, version, headers))) + blank_line() + body
}

/// The bytes that are written for a request with a body are read back as
/// that request, with the values of its headers trimmed and with the body
/// byte for byte.
pub proof fn lemma_written_request_is_read(
    method: HttpMethod,
    path: Seq<char>,
    version: HttpVersion,
    headers: Seq<Header>,
    body: Seq<u8>,
)
    requires
        is_word(path),
        forall|i: int| 0 <= i < headers.len() ==> is_line(#[trigger] headers[i].1),
    ensures
        request_of(written_request(method, path, version, headers, body)) == Some(
            Request { method, path, version, headers: trimmed_headers(headers), body: Some(body) },
        ),
{
    let all = head_lines(method, path, version, headers);
    lemma_head_lines_are_lines(method, path, version, headers);
    lemma_head_then_body(all, body);
    lemma_written_head_is_read(method, path, version, headers, Some(body));
}

/// The bytes that are written for a request without a blank line are read
/// back as that request, without a body.
pub proof fn lemma_written_request_without_body_is_read(
    method: HttpMethod,
    path: Seq<char>,
    version: HttpVersion,
    headers: Seq<Header>,
)
    requires
        is_word(path),
        forall|i: int| 0 <= i < headers.len() ==> is_line(#[trigger] headers[i].1),
    ensures
        request_of(encode_utf8(joined_lines(head_lines(method, path, version, headers)))) == Some(
            Request { method, path, version, headers: trimmed_headers(headers), body: None },
        ),
{
    let all = head_lines(method, path, version, headers);
    lemma_head_lines_are_lines(method, path, version, headers);
    lemma_head_alone(all);
    encode_utf8_valid_utf8(joined_lines(all));
    encode_utf8_decode_utf8(joined_lines(all));
    lemma_written_head_is_read(method, path, version, headers, None);
}

} // verus!
