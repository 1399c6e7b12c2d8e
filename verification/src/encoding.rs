//! Facts about UTF-8 that the laws of the wire format rest on.

use vstd::prelude::*;
use vstd::utf8::{char_u32_cast, encode_scalar, encode_utf8};

verus! {

/// The encoding of a text in two parts is the encoding of the first part
/// followed by that of the second.
pub proof fn lemma_encode_concat(a: Seq<char>, b: Seq<char>)
    ensures
        encode_utf8(a + b) == encode_utf8(a) + encode_utf8(b),
    decreases a.len(),
{
    if a.len() == 0 {
        assert(a + b =~= b);
        assert(encode_utf8(a) + encode_utf8(b) =~= encode_utf8(b));
    } else {
        assert((a + b).drop_first() =~= a.drop_first() + b);
        lemma_encode_concat(a.drop_first(), b);
        assert(encode_utf8(a + b) =~= encode_utf8(a) + encode_utf8(b));
    }
}

/// The encoding of a single character is not empty, and it holds the byte
/// of a line feed only where the character is a line feed.
pub proof fn lemma_scalar_bytes(scalar: u32)
    ensures
        encode_scalar(scalar).len() >= 1,
        forall|k: int|
            0 <= k < encode_scalar(scalar).len() && #[trigger] encode_scalar(scalar)[k] == 10u8
                ==> scalar == 10,
{
    assert(scalar <= 0x7F && (scalar & 0x7F) as u8 == 10u8 ==> scalar == 10) by (bit_vector);
    assert(0xC0u8 | ((scalar >> 6) & 0x1F) as u8 >= 0x80u8) by (bit_vector);
    assert(0xE0u8 | ((scalar >> 12) & 0x0F) as u8 >= 0x80u8) by (bit_vector);
    assert(0xF0u8 | ((scalar >> 18) & 0x7) as u8 >= 0x80u8) by (bit_vector);
    assert(0x80u8 | (scalar & 0x3F) as u8 >= 0x80u8) by (bit_vector);
    assert(0x80u8 | ((scalar >> 6) & 0x3F) as u8 >= 0x80u8) by (bit_vector);
    assert(0x80u8 | ((scalar >> 12) & 0x3F) as u8 >= 0x80u8) by (bit_vector);
}

/// The encoding of a text without a line feed holds no byte of a line
/// feed, and the encoding of a text that is not empty is not empty.
pub proof fn lemma_encoded_line(line: Seq<char>)
    requires
        forall|i: int| 0 <= i < line.len() ==> #[trigger] line[i] != '\n',
    ensures
        forall|k: int| 0 <= k < encode_utf8(line).len() ==> #[trigger] encode_utf8(line)[k] != 10u8,
        line.len() > 0 ==> encode_utf8(line).len() > 0,
    decreases line.len(),
{
    if line.len() > 0 {
        let rest = line.drop_first();
        assert forall|i: int| 0 <= i < rest.len() implies #[trigger] rest[i] != '\n' by {
            assert(rest[i] == line[i + 1]);
        }
        lemma_encoded_line(rest);
        lemma_scalar_bytes(line[0] as u32);
        let first = encode_scalar(line[0] as u32);
        assert(line[0] as u32 != 10) by {
            char_u32_cast(line[0], line[0] as u32);
            char_u32_cast('\n', 10u32);
        }
        assert(encode_utf8(line) == first + encode_utf8(rest));
        assert forall|k: int| 0 <= k < encode_utf8(line).len() implies #[trigger] encode_utf8(
            line,
        )[k] != 10u8 by {
            if k < first.len() {
                assert(encode_utf8(line)[k] == first[k]);
            } else {
                assert(encode_utf8(line)[k] == encode_utf8(rest)[k - first.len()]);
            }
        }
    }
}

/// The encoding of a line terminator is the byte of a carriage return and
/// the byte of a line feed.
pub proof fn lemma_encoded_line_terminator()
    ensures
        encode_utf8(seq!['\r', '\n']) == seq![13u8, 10u8],
{
    let text = seq!['\r', '\n'];
    assert((13u32 & 0x7F) as u8 == 13u8) by (bit_vector);
    assert((10u32 & 0x7F) as u8 == 10u8) by (bit_vector);
    assert(text.drop_first() =~= seq!['\n']);
    assert(seq!['\n'].drop_first() =~= Seq::<char>::empty());
    reveal_with_fuel(encode_utf8, 3);
    assert(encode_utf8(text) =~= seq![13u8, 10u8]);
}

} // verus!
