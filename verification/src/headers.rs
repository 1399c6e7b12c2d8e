//! The headers of a request: how a header line is read, and the ordered
//! collection in which the recognised ones are kept.

use crate::text::{
    find_separator, first_occurrence, lemma_first_occurrence, name_value_separator, occurs_at,
    to_chars, trim, trimmed, views,
};
use crate::vocabulary::{
    lemma_header_name_round_trip, ContentType, HttpRequestHeaders, MediaType,
};
use vstd::prelude::*;

verus! {

/// A stored header, as a mathematical value: its name and its value.
pub type Header = (HttpRequestHeaders, Seq<char>);

/// What a header line contributes. A line without a colon followed by a
/// space contributes nothing, and so does a line whose name, the text before
/// the first such colon, is not recognised. Any other line gives that name
/// with the text after the colon and space, trimmed of whitespace.
pub open spec fn header_of(line: Seq<char>) -> Option<Header> {
    match first_occurrence(line, name_value_separator()) {
        None => None,
        Some(i) => match HttpRequestHeaders::from_name(line.take(i)) {
            None => None,
            Some(name) => Some((name, trimmed(line.skip(i + 2)))),
        },
    }
}

/// The headers that `lines` contribute, in the order of the lines.
pub open spec fn headers_of(lines: Seq<Seq<char>>) -> Seq<Header>
    decreases lines.len(),
{
    if lines.len() == 0 {
        Seq::empty()
    } else {
        let before = headers_of(lines.drop_last());
        match header_of(lines.last()) {
            Some(header) => before.push(header),
            None => before,
        }
    }
}

/// The value of the first header in `headers` that is named `name`.
pub open spec fn lookup(headers: Seq<Header>, name: HttpRequestHeaders) -> Option<Seq<char>>
    decreases headers.len(),
{
    if headers.len() == 0 {
        None
    } else if headers[0].0 == name {
        Some(headers[0].1)
    } else {
        lookup(headers.skip(1), name)
    }
}

/// The media type that `headers` declare: that of the first `Content-Type`
/// header, if there is one.
pub open spec fn media_type_in(headers: Seq<Header>) -> Option<MediaType> {
    match lookup(headers, HttpRequestHeaders::ContentType) {
        Some(value) => Some(MediaType::of(value)),
        None => None,
    }
}

/// Of several headers with one name the first decides: a header that no
/// header of the same name precedes is the one that `lookup` finds.
pub proof fn lemma_lookup_first(headers: Seq<Header>, name: HttpRequestHeaders, i: int)
    requires
        0 <= i < headers.len(),
        headers[i].0 == name,
        forall|j: int| 0 <= j < i ==> (#[trigger] headers[j]).0 != name,
    ensures
        lookup(headers, name) == Some(headers[i].1),
    decreases i,
{
    if i > 0 {
        lemma_lookup_first(headers.skip(1), name, i - 1);
    }
}

/// `lookup` finds nothing exactly where no header has the name.
pub proof fn lemma_lookup_none(headers: Seq<Header>, name: HttpRequestHeaders)
    ensures
        lookup(headers, name) is None <==> forall|j: int|
            0 <= j < headers.len() ==> (#[trigger] headers[j]).0 != name,
    decreases headers.len(),
{
    if headers.len() > 0 {
        lemma_lookup_none(headers.skip(1), name);
        if headers[0].0 != name {
            if lookup(headers, name) is None {
                assert forall|j: int| 0 <= j < headers.len() implies (#[trigger] headers[j]).0
                    != name by {
                    if j > 0 {
                        assert(headers[j] == headers.skip(1)[j - 1]);
                    }
                }
            } else {
                let j = choose|j: int|
                    0 <= j < headers.skip(1).len() && (#[trigger] headers.skip(1)[j]).0 == name;
                assert(headers[j + 1] == headers.skip(1)[j]);
            }
        }
    }
}

/// The headers of two runs of lines, one after the other, are the headers
/// of the first followed by the headers of the second.
pub proof fn lemma_headers_of_concat(a: Seq<Seq<char>>, b: Seq<Seq<char>>)
    ensures
        headers_of(a + b) == headers_of(a) + headers_of(b),
    decreases b.len(),
{
    if b.len() == 0 {
        assert(a + b =~= a);
        assert(headers_of(a) + headers_of(b) =~= headers_of(a));
    } else {
        assert((a + b).drop_last() =~= a + b.drop_last());
        assert((a + b).last() == b.last());
        lemma_headers_of_concat(a, b.drop_last());
        assert(headers_of(a + b) =~= headers_of(a) + headers_of(b));
    }
}

/// The line that is written for a header: its name in the canonical
/// spelling, a colon, a space and the value.
pub open spec fn header_text(name: HttpRequestHeaders, value: Seq<char>) -> Seq<char> {
    name.name() + name_value_separator() + value
}

/// The line that is written for a header is read back as that header, with
/// its value trimmed.
pub proof fn lemma_header_round_trip(name: HttpRequestHeaders, value: Seq<char>)
    ensures
        header_of(header_text(name, value)) == Some((name, trimmed(value))),
{
    let key = name.name();
    let line = header_text(name, value);
    let n = key.len() as int;
    reveal_strlit("User-Agent");
    reveal_strlit("Host");
    reveal_strlit("Accept");
    reveal_strlit("Content-Type");
    reveal_strlit("Content-Length");
    assert(line.subrange(n, n + 2) =~= name_value_separator());
    lemma_first_occurrence(line, name_value_separator(), n);
    assert(line.skip(n + 2) =~= value);
    lemma_header_name_round_trip(name);
}

/// The lines that are written for `headers`, one for each.
pub open spec fn header_lines(headers: Seq<Header>) -> Seq<Seq<char>> {
    Seq::new(headers.len(), |i: int| header_text(headers[i].0, headers[i].1))
}

/// `headers` with each value trimmed of whitespace.
pub open spec fn trimmed_headers(headers: Seq<Header>) -> Seq<Header> {
    Seq::new(headers.len(), |i: int| (headers[i].0, trimmed(headers[i].1)))
}

/// The lines that are written for headers are read back as those headers,
/// in their order, each with its value trimmed.
pub proof fn lemma_headers_round_trip(headers: Seq<Header>)
    ensures
        headers_of(header_lines(headers)) == trimmed_headers(headers),
    decreases headers.len(),
{
    if headers.len() == 0 {
        assert(trimmed_headers(headers) =~= Seq::<Header>::empty());
    } else {
        let before = headers.drop_last();
        lemma_headers_round_trip(before);
        lemma_header_round_trip(headers.last().0, headers.last().1);
        assert(header_lines(headers).drop_last() =~= header_lines(before));
        assert(trimmed_headers(headers) =~= trimmed_headers(before).push(
            (headers.last().0, trimmed(headers.last().1)),
        ));
    }
}

/// Trimming the values of headers does not change which header is found:
/// what is found among the trimmed is the trimmed value of what is found
/// among the others.
pub proof fn lemma_lookup_trimmed(headers: Seq<Header>, name: HttpRequestHeaders)
    ensures
        lookup(trimmed_headers(headers), name) == match lookup(headers, name) {
            Some(value) => Some(trimmed(value)),
            None => None,
        },
    decreases headers.len(),
{
    if headers.len() > 0 {
        assert(trimmed_headers(headers).skip(1) =~= trimmed_headers(headers.skip(1)));
        lemma_lookup_trimmed(headers.skip(1), name);
    }
}

/// Reads one header line.
pub fn parse_header_line(line: &str) -> (header: Option<(HttpRequestHeaders, String)>)
    ensures
        match header {
            Some((name, value)) => header_of(line@) == Some((name, value@)),
            None => header_of(line@) is None,
        },
{
    let chars = to_chars(line);
    match find_separator(&chars) {
        None => None,
        Some(i) => {
            match HttpRequestHeaders::from_str(line.substring_char(0, i)) {
                None => None,
                Some(name) => {
                    let value = trim(line.substring_char(i + 2, chars.len())).to_string();
                    Some((name, value))
                },
            }
        },
    }
}

/// The recognised headers of a request, in the order in which they were
/// read.
#[derive(Debug)]
pub struct HttpRequestHeaderParser {
    headers: Vec<(HttpRequestHeaders, String)>,
}

impl View for HttpRequestHeaderParser {
    type V = Seq<Header>;

    closed spec fn view(&self) -> Seq<Header> {
        Seq::new(self.headers@.len(), |i: int| (self.headers@[i].0, self.headers@[i].1@))
    }
}

impl HttpRequestHeaderParser {
    /// A collection without headers.
    pub fn new() -> (parser: Self)
        ensures
            parser@ == Seq::<Header>::empty(),
    {
        let parser = HttpRequestHeaderParser { headers: Vec::new() };
        parser
    }

    /// Reads `header_lines` and appends what they contribute. No line makes
    /// this fail: a line that is no header, or whose name is not
    /// recognised, is passed over.
    pub fn parse(&mut self, header_lines: &[&str])
        ensures
            final(self)@ == old(self)@ + headers_of(views(header_lines@)),
    {
        let mut i: usize = 0;
        while i < header_lines.len()
            invariant
                i <= header_lines.len(),
                self@ == old(self)@ + headers_of(views(header_lines@).take(i as int)),
            decreases header_lines.len() - i,
        {
            let ghost before = self@;
            let ghost lines = views(header_lines@);
            proof {
                assert(lines.take(i + 1).drop_last() =~= lines.take(i as int));
            }
            match parse_header_line(header_lines[i]) {
                Some((name, value)) => {
                    let ghost header = (name, value@);
                    self.headers.push((name, value));
                    assert(old(self)@ + headers_of(lines.take(i as int)).push(header) =~= before.push(
                        header,
                    ));
                },
                None => {},
            }
            i += 1;
        }
        assert(views(header_lines@).take(i as int) =~= views(header_lines@));
    }

    /// The value of the first header named `header`, if there is one.
    pub fn get_header_value(&self, header: HttpRequestHeaders) -> (value: Option<&String>)
        ensures
            match value {
                Some(v) => lookup(self@, header) == Some(v@),
                None => lookup(self@, header) is None,
            },
    {
        let mut i: usize = 0;
        assert(self@.skip(0) =~= self@);
        while i < self.headers.len()
            invariant
                i <= self.headers.len(),
                self.headers@.len() == self@.len(),
                lookup(self@, header) == lookup(self@.skip(i as int), header),
            decreases self.headers.len() - i,
        {
            assert(self@.skip(i as int).skip(1) =~= self@.skip(i + 1));
            if self.headers[i].0 == header {
                return Some(&self.headers[i].1);
            }
            i += 1;
        }
        None
    }

    /// The content type that the headers declare, if they declare one.
    pub fn get_content_type(&self) -> (content_type: Option<ContentType>)
        ensures
            match content_type {
                Some(ct) => media_type_in(self@) == Some(ct@),
                None => media_type_in(self@) is None,
            },
    {
        match self.get_header_value(HttpRequestHeaders::ContentType) {
            Some(value) => Some(ContentType::from_str(value.as_str())),
            None => None,
        }
    }

    /// Whether the headers declare exactly `content_type`. False where they
    /// declare none.
    pub fn is_content_type(&self, content_type: ContentType) -> (same: bool)
        ensures
            same == (media_type_in(self@) == Some(content_type@)),
    {
        match self.get_content_type() {
            Some(ct) => ct == content_type,
            None => false,
        }
    }
}

} // verus!
