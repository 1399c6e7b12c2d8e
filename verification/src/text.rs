//! Character-level building blocks of the request grammar: whitespace,
//! tokens, lines, trimming, pattern search and decimal numerals.

use vstd::prelude::*;

verus! {

/// Whether `c` is whitespace: a character with the Unicode `White_Space`
/// property.
pub open spec fn is_space(c: char) -> bool {
    let u = c as u32;
    ||| 0x09 <= u <= 0x0D
    ||| u == 0x20
    ||| u == 0x85
    ||| u == 0xA0
    ||| u == 0x1680
    ||| 0x2000 <= u <= 0x200A
    ||| u == 0x2028
    ||| u == 0x2029
    ||| u == 0x202F
    ||| u == 0x205F
    ||| u == 0x3000
}

/// Decides whether `c` is whitespace.
pub fn is_whitespace(c: char) -> (b: bool)
    ensures
        b == is_space(c),
{
    let u: u32 = c as u32;
    (0x09 <= u && u <= 0x0D) || u == 0x20 || u == 0x85 || u == 0xA0 || u == 0x1680 || (0x2000 <= u
        && u <= 0x200A) || u == 0x2028 || u == 0x2029 || u == 0x202F || u == 0x205F || u == 0x3000
}

/// The characters of `s`, as a vector that can be indexed in constant time.
pub fn to_chars(s: &str) -> (v: Vec<char>)
    ensures
        v@ == s@,
{
    let mut v: Vec<char> = Vec::new();
    for c in it: s.chars()
        invariant
            v@ == it.seq().take(it.index() as int),
            it.seq() == s@,
    {
        v.push(c);
    }
    v
}

/// Whether two strings hold the same characters.
pub fn str_eq(a: &str, b: &str) -> (same: bool)
    ensures
        same == (a@ == b@),
{
    let x = to_chars(a);
    let y = to_chars(b);
    if x.len() != y.len() {
        return false;
    }
    let mut i: usize = 0;
    while i < x.len()
        invariant
            i <= x.len(),
            x.len() == y.len(),
            x@ == a@,
            y@ == b@,
            forall|j: int| 0 <= j < i ==> x@[j] == y@[j],
        decreases x.len() - i,
    {
        if x[i] != y[i] {
            return false;
        }
        i += 1;
    }
    assert(x@ =~= y@);
    true
}

/// The length of the longest prefix of `s` whose characters are all
/// whitespace (`space` true) or all non-whitespace (`space` false).
pub open spec fn run_len(s: Seq<char>, space: bool) -> nat
    decreases s.len(),
{
    if s.len() > 0 && is_space(s[0]) == space {
        1 + run_len(s.skip(1), space)
    } else {
        0
    }
}

/// A run never extends past the end of the sequence, every character inside
/// it has the requested class, and the character that follows it does not.
pub proof fn lemma_run_len(s: Seq<char>, space: bool)
    ensures
        run_len(s, space) <= s.len(),
        forall|i: int| 0 <= i < run_len(s, space) ==> is_space(#[trigger] s[i]) == space,
        run_len(s, space) < s.len() ==> is_space(s[run_len(s, space) as int]) != space,
    decreases s.len(),
{
    if s.len() > 0 && is_space(s[0]) == space {
        lemma_run_len(s.skip(1), space);
        assert forall|i: int| 0 <= i < run_len(s, space) implies is_space(#[trigger] s[i])
            == space by {
            if i > 0 {
                assert(s[i] == s.skip(1)[i - 1]);
            }
        }
    }
}

/// Scans `v` from `start` over a run of whitespace (`space` true) or of
/// non-whitespace (`space` false) and returns the index just past it.
fn scan_run(v: &Vec<char>, start: usize, space: bool) -> (end: usize)
    requires
        start <= v.len(),
    ensures
        end == start + run_len(v@.skip(start as int), space),
        start <= end <= v.len(),
{
    let mut i: usize = start;
    while i < v.len() && is_whitespace(v[i]) == space
        invariant
            start <= i <= v.len(),
            run_len(v@.skip(start as int), space) == (i - start) + run_len(
                v@.skip(i as int),
                space,
            ),
        decreases v.len() - i,
    {
        assert(v@.skip(i as int).skip(1) =~= v@.skip(i + 1));
        i += 1;
    }
    i
}

/// The character sequences of a sequence of strings.
pub open spec fn views(v: Seq<&str>) -> Seq<Seq<char>> {
    Seq::new(v.len(), |i: int| v[i]@)
}

/// The whitespace-separated tokens of `s`: its maximal runs of
/// non-whitespace characters, in order.
pub open spec fn tokens(s: Seq<char>) -> Seq<Seq<char>>
    decreases s.len(),
    via tokens_decreases
{
    let rest = s.skip(run_len(s, true) as int);
    let word = run_len(rest, false);
    if word == 0 {
        Seq::empty()
    } else {
        seq![rest.take(word as int)] + tokens(rest.skip(word as int))
    }
}

#[via_fn]
proof fn tokens_decreases(s: Seq<char>) {
    lemma_run_len(s, true);
    lemma_run_len(s.skip(run_len(s, true) as int), false);
}

/// Splits `line` into its whitespace-separated tokens.
pub fn split_whitespace<'a>(line: &'a str) -> (out: Vec<&'a str>)
    ensures
        views(out@) == tokens(line@),
{
    let chars = to_chars(line);
    let mut out: Vec<&'a str> = Vec::new();
    let mut pos: usize = 0;
    proof {
        assert(line@.skip(0) =~= line@);
        assert(views(out@) + tokens(line@) =~= tokens(line@));
    }
    loop
        invariant
            pos <= chars.len(),
            chars@ == line@,
            views(out@) + tokens(line@.skip(pos as int)) == tokens(line@),
        ensures
            views(out@) == tokens(line@),
        decreases chars.len() - pos,
    {
        let a = scan_run(&chars, pos, true);
        let b = scan_run(&chars, a, false);
        proof {
            let tail = line@.skip(pos as int);
            assert(tail.skip(run_len(tail, true) as int) =~= line@.skip(a as int));
            let rest = line@.skip(a as int);
            assert(rest.take((b - a) as int) =~= line@.subrange(a as int, b as int));
            assert(rest.skip((b - a) as int) =~= line@.skip(b as int));
        }
        if b == a {
            assert(views(out@) + Seq::<Seq<char>>::empty() =~= views(out@));
            break ;
        }
        let token = line.substring_char(a, b);
        proof {
            let rest = line@.skip(a as int);
            assert(views(out@.push(token)) =~= views(out@) + seq![token@]);
            assert(views(out@.push(token)) + tokens(line@.skip(b as int)) =~= views(out@)
                + (seq![rest.take((b - a) as int)] + tokens(rest.skip((b - a) as int))));
        }
        out.push(token);
        pos = b;
    }
    out
}

/// Whether `word` can stand as one token: it is not empty and holds no
/// whitespace.
pub open spec fn is_word(word: Seq<char>) -> bool {
    word.len() > 0 && forall|i: int| 0 <= i < word.len() ==> !is_space(#[trigger] word[i])
}

/// A run over `a + b` covers all of `a`, where every character of `a` has
/// the class of the run, and goes on in `b`.
pub proof fn lemma_run_len_concat(a: Seq<char>, b: Seq<char>, space: bool)
    requires
        forall|i: int| 0 <= i < a.len() ==> is_space(#[trigger] a[i]) == space,
    ensures
        run_len(a + b, space) == a.len() + run_len(b, space),
    decreases a.len(),
{
    if a.len() == 0 {
        assert(a + b =~= b);
    } else {
        assert((a + b)[0] == a[0]);
        assert((a + b).skip(1) =~= a.skip(1) + b);
        assert forall|i: int| 0 <= i < a.skip(1).len() implies is_space(#[trigger] a.skip(1)[i])
            == space by {
            assert(a.skip(1)[i] == a[i + 1]);
        }
        lemma_run_len_concat(a.skip(1), b, space);
    }
}

/// Every token is a word.
pub proof fn lemma_tokens_are_words(s: Seq<char>)
    ensures
        forall|k: int| 0 <= k < tokens(s).len() ==> is_word(#[trigger] tokens(s)[k]),
    decreases s.len(),
{
    lemma_run_len(s, true);
    let rest = s.skip(run_len(s, true) as int);
    lemma_run_len(rest, false);
    let word = run_len(rest, false);
    if word > 0 {
        lemma_tokens_are_words(rest.skip(word as int));
        let first = rest.take(word as int);
        assert(is_word(first)) by {
            assert forall|i: int| 0 <= i < first.len() implies !is_space(#[trigger] first[i]) by {
                assert(first[i] == rest[i]);
            }
        }
        assert forall|k: int| 0 <= k < tokens(s).len() implies is_word(#[trigger] tokens(s)[k]) by {
            if k > 0 {
                assert(tokens(s)[k] == tokens(rest.skip(word as int))[k - 1]);
            }
        }
    }
}

/// Whitespace before a text adds no token.
pub proof fn lemma_tokens_after_spaces(gap: Seq<char>, s: Seq<char>)
    requires
        forall|i: int| 0 <= i < gap.len() ==> is_space(#[trigger] gap[i]),
    ensures
        tokens(gap + s) == tokens(s),
{
    lemma_run_len_concat(gap, s, true);
    lemma_run_len(s, true);
    let k = run_len(s, true);
    assert((gap + s).skip((gap.len() + k) as int) =~= s.skip(k as int));
}

/// A word at the end of a text is its only token.
pub proof fn lemma_tokens_of_word(word: Seq<char>)
    requires
        is_word(word),
    ensures
        tokens(word) == seq![word],
{
    lemma_run_len_concat(word, Seq::<char>::empty(), false);
    assert(word.take(word.len() as int) =~= word);
    let after = word.skip(word.len() as int);
    assert(tokens(after) =~= Seq::<Seq<char>>::empty());
}

/// A word that is followed by whitespace is the first token, and the tokens
/// of what follows come after it.
pub proof fn lemma_tokens_word_first(word: Seq<char>, rest: Seq<char>)
    requires
        is_word(word),
        rest.len() > 0,
        is_space(rest[0]),
    ensures
        tokens(word + rest) == seq![word] + tokens(rest),
{
    let s = word + rest;
    assert(s.skip(0) =~= s);
    lemma_run_len_concat(word, rest, false);
    assert(s.take(word.len() as int) =~= word);
    assert(s.skip(word.len() as int) =~= rest);
}

/// Three words with a space between them make three tokens: themselves.
pub proof fn lemma_tokens_of_three_words(a: Seq<char>, b: Seq<char>, c: Seq<char>)
    requires
        is_word(a),
        is_word(b),
        is_word(c),
    ensures
        tokens(a + seq![' '] + b + seq![' '] + c) == seq![a, b, c],
{
    let gap = seq![' '];
    lemma_tokens_of_word(c);
    lemma_tokens_after_spaces(gap, c);
    lemma_tokens_word_first(b, gap + c);
    lemma_tokens_after_spaces(gap, b + (gap + c));
    lemma_tokens_word_first(a, gap + (b + (gap + c)));
    assert(a + gap + b + gap + c =~= a + (gap + (b + (gap + c))));
}

/// The length of the longest prefix of `s` that does not contain `c`.
pub open spec fn prefix_without(s: Seq<char>, c: char) -> nat
    decreases s.len(),
{
    if s.len() > 0 && s[0] != c {
        1 + prefix_without(s.skip(1), c)
    } else {
        0
    }
}

/// `prefix_without` is the index of the first occurrence of `c`, or the
/// length of `s` where `c` does not occur.
pub proof fn lemma_prefix_without(s: Seq<char>, c: char)
    ensures
        prefix_without(s, c) <= s.len(),
        forall|i: int| 0 <= i < prefix_without(s, c) ==> #[trigger] s[i] != c,
        prefix_without(s, c) < s.len() ==> s[prefix_without(s, c) as int] == c,
    decreases s.len(),
{
    if s.len() > 0 && s[0] != c {
        lemma_prefix_without(s.skip(1), c);
        assert forall|i: int| 0 <= i < prefix_without(s, c) implies #[trigger] s[i] != c by {
            if i > 0 {
                assert(s[i] == s.skip(1)[i - 1]);
            }
        }
    }
}

/// Scans `v` from `start` to the first occurrence of `c` and returns its
/// index, or the length of `v` where there is none.
fn scan_until(v: &Vec<char>, start: usize, c: char) -> (end: usize)
    requires
        start <= v.len(),
    ensures
        end == start + prefix_without(v@.skip(start as int), c),
        start <= end <= v.len(),
{
    let mut i: usize = start;
    while i < v.len() && v[i] != c
        invariant
            start <= i <= v.len(),
            prefix_without(v@.skip(start as int), c) == (i - start) + prefix_without(
                v@.skip(i as int),
                c,
            ),
        decreases v.len() - i,
    {
        assert(v@.skip(i as int).skip(1) =~= v@.skip(i + 1));
        i += 1;
    }
    i
}

/// `line` without one trailing carriage return, if it has one.
pub open spec fn strip_cr(line: Seq<char>) -> Seq<char> {
    if line.len() > 0 && line.last() == '\r' {
        line.drop_last()
    } else {
        line
    }
}

/// The lines of `s`. A line ends at a line feed, or at the end of `s`; the
/// line feed, and a carriage return directly before it, are not part of the
/// line. Text that ends in a line feed has no further, empty line after it.
pub open spec fn lines(s: Seq<char>) -> Seq<Seq<char>>
    decreases s.len(),
{
    let n = prefix_without(s, '\n');
    if s.len() == 0 {
        Seq::empty()
    } else if n >= s.len() {
        seq![s]
    } else {
        seq![strip_cr(s.take(n as int))] + lines(s.skip(n as int + 1))
    }
}

/// Splits `text` into its lines.
pub fn split_lines<'a>(text: &'a str) -> (out: Vec<&'a str>)
    ensures
        views(out@) == lines(text@),
{
    let chars = to_chars(text);
    let mut out: Vec<&'a str> = Vec::new();
    let mut pos: usize = 0;
    proof {
        assert(text@.skip(0) =~= text@);
    }
    while pos < chars.len()
        invariant
            pos <= chars.len(),
            chars@ == text@,
            views(out@) + lines(text@.skip(pos as int)) == lines(text@),
        decreases chars.len() - pos,
    {
        let end = scan_until(&chars, pos, '\n');
        let ghost tail = text@.skip(pos as int);
        if end == chars.len() {
            let line = text.substring_char(pos, end);
            out.push(line);
            pos = end;
        } else {
            let stop = if end > pos && chars[end - 1] == '\r' {
                end - 1
            } else {
                end
            };
            let line = text.substring_char(pos, stop);
            proof {
                let raw = tail.take((end - pos) as int);
                assert(line@ =~= strip_cr(raw));
                assert(tail.skip((end - pos) + 1) =~= text@.skip(end + 1));
            }
            out.push(line);
            pos = end + 1;
        }
    }
    out
}

/// Whether `line` can stand as one line: it holds no line feed.
pub open spec fn is_line(line: Seq<char>) -> bool {
    forall|i: int| 0 <= i < line.len() ==> #[trigger] line[i] != '\n'
}

/// The text that `all` make when a line terminator, a carriage return and a
/// line feed, is put between them.
pub open spec fn joined_lines(all: Seq<Seq<char>>) -> Seq<char>
    decreases all.len(),
{
    if all.len() == 0 {
        Seq::empty()
    } else if all.len() == 1 {
        all[0]
    } else {
        all[0] + seq!['\r', '\n'] + joined_lines(all.skip(1))
    }
}

/// Lines that are joined are read back as they were, where the last of them
/// is not empty.
pub proof fn lemma_lines_of_joined(all: Seq<Seq<char>>)
    requires
        all.len() > 0,
        forall|i: int| 0 <= i < all.len() ==> is_line(#[trigger] all[i]),
        all.last().len() > 0,
    ensures
        lines(joined_lines(all)) == all,
    decreases all.len(),
{
    let first = all[0];
    if all.len() == 1 {
        lemma_prefix_without(first, '\n');
    } else {
        let rest = all.skip(1);
        let text = joined_lines(all);
        lemma_lines_of_joined(rest);
        let before = first + seq!['\r'];
        let after = seq!['\n'] + joined_lines(rest);
        assert(text =~= before + after);
        lemma_prefix_without_concat(before, after, '\n');
        let n = prefix_without(text, '\n');
        assert(text.take(n as int) =~= before);
        assert(strip_cr(before) =~= first);
        assert(text.skip(n as int + 1) =~= joined_lines(rest));
    }
}

/// The number of whitespace characters at the end of `s`.
pub open spec fn trailing_space(s: Seq<char>) -> nat
    decreases s.len(),
{
    if s.len() > 0 && is_space(s.last()) {
        1 + trailing_space(s.drop_last())
    } else {
        0
    }
}

/// `s` without its leading and trailing whitespace.
pub open spec fn trimmed(s: Seq<char>) -> Seq<char> {
    let rest = s.skip(run_len(s, true) as int);
    rest.take(rest.len() - trailing_space(rest))
}

/// Trimming changes nothing in a text that neither begins nor ends with
/// whitespace.
pub proof fn lemma_trimmed_word(s: Seq<char>)
    requires
        s.len() == 0 || (!is_space(s[0]) && !is_space(s.last())),
    ensures
        trimmed(s) == s,
{
    assert(s.skip(0) =~= s);
    assert(s.take(s.len() as int) =~= s);
}

/// The part of `s` that is left when leading and trailing whitespace are
/// removed.
pub fn trim<'a>(s: &'a str) -> (out: &'a str)
    ensures
        out@ == trimmed(s@),
{
    let chars = to_chars(s);
    let a = scan_run(&chars, 0, true);
    let ghost rest = s@.skip(a as int);
    let mut b: usize = chars.len();
    assert(s@.skip(0) =~= s@);
    assert(rest.take((b - a) as int) =~= rest);
    while b > a && is_whitespace(chars[b - 1])
        invariant
            a <= b <= chars.len(),
            chars@ == s@,
            rest == s@.skip(a as int),
            trailing_space(rest) == (chars.len() - b) + trailing_space(rest.take((b - a) as int)),
        decreases b,
    {
        assert(rest.take((b - a) as int).drop_last() =~= rest.take((b - a) - 1));
        b -= 1;
    }
    s.substring_char(a, b)
}

/// Whether `pattern` stands in `s` at index `i`.
pub open spec fn occurs_at<T>(s: Seq<T>, pattern: Seq<T>, i: int) -> bool {
    0 <= i && i + pattern.len() <= s.len() && s.subrange(i, i + pattern.len()) == pattern
}

/// Whether `i` is the index of the first occurrence of `pattern` in `s`.
pub open spec fn is_first_occurrence<T>(s: Seq<T>, pattern: Seq<T>, i: int) -> bool {
    occurs_at(s, pattern, i) && forall|j: int| 0 <= j < i ==> !occurs_at(s, pattern, j)
}

/// The index of the first occurrence of `pattern` in `s`, if it occurs.
pub open spec fn first_occurrence<T>(s: Seq<T>, pattern: Seq<T>) -> Option<int> {
    if exists|i: int| occurs_at(s, pattern, i) {
        Some(choose|i: int| is_first_occurrence(s, pattern, i))
    } else {
        None
    }
}

/// An index that is a first occurrence is the first occurrence.
pub proof fn lemma_first_occurrence<T>(s: Seq<T>, pattern: Seq<T>, i: int)
    requires
        is_first_occurrence(s, pattern, i),
    ensures
        first_occurrence(s, pattern) == Some(i),
{
    let k = choose|k: int| is_first_occurrence(s, pattern, k);
    assert(occurs_at(s, pattern, k));
    if k < i {
        assert(!occurs_at(s, pattern, k));
    }
    if i < k {
        assert(!occurs_at(s, pattern, i));
    }
}

proof fn lemma_least_occurrence<T>(s: Seq<T>, pattern: Seq<T>, k: int)
    requires
        occurs_at(s, pattern, k),
    ensures
        exists|i: int| is_first_occurrence(s, pattern, i),
    decreases k,
{
    if exists|j: int| 0 <= j < k && occurs_at(s, pattern, j) {
        let j = choose|j: int| 0 <= j < k && occurs_at(s, pattern, j);
        lemma_least_occurrence(s, pattern, j);
    } else {
        assert(is_first_occurrence(s, pattern, k));
    }
}

/// Where `first_occurrence` gives an index, the pattern stands there and
/// nowhere before; where it gives none, the pattern stands nowhere.
pub proof fn lemma_first_occurrence_found<T>(s: Seq<T>, pattern: Seq<T>)
    ensures
        match first_occurrence(s, pattern) {
            Some(i) => is_first_occurrence(s, pattern, i),
            None => forall|j: int| !occurs_at(s, pattern, j),
        },
{
    if exists|k: int| occurs_at(s, pattern, k) {
        let k = choose|k: int| occurs_at(s, pattern, k);
        lemma_least_occurrence(s, pattern, k);
    }
}

/// The separator between a header's name and its value: a colon and a space.
pub open spec fn name_value_separator() -> Seq<char> {
    seq![':', ' ']
}

/// Finds the first colon that is directly followed by a space.
pub fn find_separator(line: &Vec<char>) -> (at: Option<usize>)
    ensures
        match at {
            Some(i) => first_occurrence(line@, name_value_separator()) == Some(i as int) && i + 2
                <= line.len(),
            None => first_occurrence(line@, name_value_separator()) is None,
        },
{
    let mut i: usize = 0;
    while i < line.len() && i + 1 < line.len()
        invariant
            i <= line.len(),
            forall|j: int| 0 <= j < i ==> !occurs_at(line@, name_value_separator(), j),
        decreases line.len() - i,
    {
        if line[i] == ':' && line[i + 1] == ' ' {
            proof {
                assert(line@.subrange(i as int, i + 2) =~= name_value_separator());
                lemma_first_occurrence(line@, name_value_separator(), i as int);
            }
            return Some(i);
        }
        proof {
            let found = line@.subrange(i as int, i + 2);
            assert(found[0] == line@[i as int] && found[1] == line@[i + 1]);
        }
        i += 1;
    }
    assert forall|j: int| !occurs_at(line@, name_value_separator(), j) by {
        if occurs_at(line@, name_value_separator(), j) {
            assert(0 <= j < i);
        }
    }
    None
}

/// The code point of `c`, with an ASCII capital letter replaced by its small
/// letter.
pub open spec fn folded(c: char) -> u32 {
    let u = c as u32;
    if 0x41 <= u <= 0x5A {
        (u + 0x20) as u32
    } else {
        u
    }
}

/// Whether `a` and `b` are equal up to the case of ASCII letters.
pub open spec fn same_ignoring_case(a: Seq<char>, b: Seq<char>) -> bool {
    a.len() == b.len() && forall|i: int| 0 <= i < a.len() ==> folded(a[i]) == folded(b[i])
}

fn fold_case(c: char) -> (u: u32)
    ensures
        u == folded(c),
{
    let u: u32 = c as u32;
    if 0x41 <= u && u <= 0x5A {
        u + 0x20
    } else {
        u
    }
}

/// Compares two strings without regard to the case of ASCII letters.
pub fn eq_ignore_case(a: &str, b: &str) -> (same: bool)
    ensures
        same == same_ignoring_case(a@, b@),
{
    let x = to_chars(a);
    let y = to_chars(b);
    if x.len() != y.len() {
        return false;
    }
    let mut i: usize = 0;
    while i < x.len()
        invariant
            i <= x.len(),
            x.len() == y.len(),
            x@ == a@,
            y@ == b@,
            forall|j: int| 0 <= j < i ==> folded(x@[j]) == folded(y@[j]),
        decreases x.len() - i,
    {
        if fold_case(x[i]) != fold_case(y[i]) {
            return false;
        }
        i += 1;
    }
    true
}

/// Whether `s` begins with `prefix`.
pub fn starts_with(s: &str, prefix: &str) -> (b: bool)
    ensures
        b == prefix@.is_prefix_of(s@),
{
    let x = to_chars(s);
    let y = to_chars(prefix);
    if y.len() > x.len() {
        return false;
    }
    let mut i: usize = 0;
    while i < y.len()
        invariant
            i <= y.len() <= x.len(),
            x@ == s@,
            y@ == prefix@,
            forall|j: int| 0 <= j < i ==> x@[j] == y@[j],
        decreases y.len() - i,
    {
        if x[i] != y[i] {
            return false;
        }
        i += 1;
    }
    true
}

/// What follows the second slash of `path`; empty where `path` has fewer
/// than two slashes. For a path made of segments divided by slashes, this
/// is the path without its first two segments and their slashes.
pub open spec fn after_two_segments(path: Seq<char>) -> Seq<char> {
    let first = prefix_without(path, '/');
    let rest = path.skip(first as int + 1);
    let second = prefix_without(rest, '/');
    if first >= path.len() || second >= rest.len() {
        Seq::empty()
    } else {
        rest.skip(second as int + 1)
    }
}

/// The segments of `path`: the parts that its slashes divide it into.
pub open spec fn segments(path: Seq<char>) -> Seq<Seq<char>>
    decreases path.len(),
{
    let n = prefix_without(path, '/');
    if n >= path.len() {
        seq![path]
    } else {
        seq![path.take(n as int)] + segments(path.skip(n as int + 1))
    }
}

/// The path that `parts` make when a slash is put between them.
pub open spec fn joined(parts: Seq<Seq<char>>) -> Seq<char>
    decreases parts.len(),
{
    if parts.len() == 0 {
        Seq::empty()
    } else if parts.len() == 1 {
        parts[0]
    } else {
        parts[0] + seq!['/'] + joined(parts.skip(1))
    }
}

/// A path has at least one segment.
pub proof fn lemma_segments_not_empty(path: Seq<char>)
    ensures
        segments(path).len() >= 1,
{
}

/// Joining the segments of a path gives the path back.
pub proof fn lemma_join_segments(path: Seq<char>)
    ensures
        joined(segments(path)) == path,
    decreases path.len(),
{
    lemma_prefix_without(path, '/');
    let n = prefix_without(path, '/');
    if n < path.len() {
        let rest = path.skip(n as int + 1);
        lemma_join_segments(rest);
        lemma_segments_not_empty(rest);
        assert(segments(path).skip(1) =~= segments(rest));
    }
}

/// What stands after the second slash of a path is what its segments make
/// when the first two are left out and the others are joined again; a path
/// of one or two segments has nothing there.
pub proof fn lemma_after_two_segments(path: Seq<char>)
    ensures
        after_two_segments(path) == if segments(path).len() > 2 {
            joined(segments(path).skip(2))
        } else {
            Seq::empty()
        },
{
    lemma_prefix_without(path, '/');
    let first = prefix_without(path, '/');
    if first < path.len() {
        let rest = path.skip(first as int + 1);
        lemma_prefix_without(rest, '/');
        let second = prefix_without(rest, '/');
        if second < rest.len() {
            let tail = rest.skip(second as int + 1);
            lemma_segments_not_empty(tail);
            assert(segments(rest).skip(1) =~= segments(tail));
            assert(segments(path).skip(2) =~= segments(tail));
            lemma_join_segments(tail);
        }
    }
}

/// The first occurrence of `c` in `a + b` lies in `b`, where `a` does not
/// hold `c`.
pub proof fn lemma_prefix_without_concat(a: Seq<char>, b: Seq<char>, c: char)
    requires
        forall|i: int| 0 <= i < a.len() ==> #[trigger] a[i] != c,
    ensures
        prefix_without(a + b, c) == a.len() + prefix_without(b, c),
    decreases a.len(),
{
    if a.len() == 0 {
        assert(a + b =~= b);
    } else {
        assert((a + b)[0] == a[0]);
        assert((a + b).skip(1) =~= a.skip(1) + b);
        assert forall|i: int| 0 <= i < a.skip(1).len() implies #[trigger] a.skip(1)[i] != c by {
            assert(a.skip(1)[i] == a[i + 1]);
        }
        lemma_prefix_without_concat(a.skip(1), b, c);
    }
}

/// A path that begins with two segments, each closed by a slash, holds
/// after them exactly what follows the second slash.
pub proof fn lemma_after_two_given_segments(a: Seq<char>, b: Seq<char>, rest: Seq<char>)
    requires
        forall|i: int| 0 <= i < a.len() ==> #[trigger] a[i] != '/',
        forall|i: int| 0 <= i < b.len() ==> #[trigger] b[i] != '/',
    ensures
        after_two_segments(a + seq!['/'] + b + seq!['/'] + rest) == rest,
{
    let slash = seq!['/'];
    let path = a + slash + b + slash + rest;
    let second_part = b + (slash + rest);
    assert(path =~= a + (slash + second_part));
    lemma_prefix_without_concat(a, slash + second_part, '/');
    assert(path.skip(a.len() as int + 1) =~= second_part);
    lemma_prefix_without_concat(b, slash + rest, '/');
}

/// The part of `path` after its first two segments.
pub fn skip_two_segments<'a>(path: &'a str) -> (out: &'a str)
    ensures
        out@ == after_two_segments(path@),
{
    let chars = to_chars(path);
    let n = chars.len();
    assert(path@.skip(0) =~= path@);
    let first = scan_until(&chars, 0, '/');
    if first >= n {
        let out = path.substring_char(0, 0);
        return out;
    }
    let second = scan_until(&chars, first + 1, '/');
    if second >= n {
        let out = path.substring_char(0, 0);
        return out;
    }
    path.substring_char(second + 1, n)
}

/// The decimal digit for `d`.
pub open spec fn digit(d: nat) -> char {
    if d == 0 {
        '0'
    } else if d == 1 {
        '1'
    } else if d == 2 {
        '2'
    } else if d == 3 {
        '3'
    } else if d == 4 {
        '4'
    } else if d == 5 {
        '5'
    } else if d == 6 {
        '6'
    } else if d == 7 {
        '7'
    } else if d == 8 {
        '8'
    } else {
        '9'
    }
}

/// The decimal numeral of `n`, without leading zeros.
pub open spec fn decimal(n: nat) -> Seq<char>
    decreases n,
{
    if n < 10 {
        seq![digit(n)]
    } else {
        decimal(n / 10) + seq![digit(n % 10)]
    }
}

fn digit_str(d: usize) -> (s: &'static str)
    requires
        d < 10,
    ensures
        s@ == seq![digit(d as nat)],
{
    proof {
        reveal_strlit("0");
        reveal_strlit("1");
        reveal_strlit("2");
        reveal_strlit("3");
        reveal_strlit("4");
        reveal_strlit("5");
        reveal_strlit("6");
        reveal_strlit("7");
        reveal_strlit("8");
        reveal_strlit("9");
    }
    let s = if d == 0 {
        "0"
    } else if d == 1 {
        "1"
    } else if d == 2 {
        "2"
    } else if d == 3 {
        "3"
    } else if d == 4 {
        "4"
    } else if d == 5 {
        "5"
    } else if d == 6 {
        "6"
    } else if d == 7 {
        "7"
    } else if d == 8 {
        "8"
    } else {
        "9"
    };
    s
}

/// Appends the decimal numeral of `n` to `out`.
pub fn push_decimal(out: &mut String, n: usize)
    ensures
        final(out)@ == old(out)@ + decimal(n as nat),
    decreases n,
{
    if n >= 10 {
        push_decimal(out, n / 10);
    }
    out.append(digit_str(n % 10));
}

/// The decimal numeral of `n`.
pub fn to_decimal(n: usize) -> (s: String)
    ensures
        s@ == decimal(n as nat),
{
    let mut s = String::new();
    push_decimal(&mut s, n);
    s
}

} // verus!
