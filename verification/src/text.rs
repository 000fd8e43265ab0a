//! Text addressed by byte offsets.
//!
//! A string is seen as its sequence of characters; positions in it are
//! counted in bytes of its UTF-8 encoding, as `str` does. Only offsets that
//! fall between two characters can be used to cut a string.

use vstd::prelude::*;
use vstd::utf8::*;

verus! {

/// The number of bytes that `text` occupies.
pub open spec fn byte_len(text: Seq<char>) -> nat {
    encode_utf8(text).len()
}

/// `at` lies between two characters of `text`, or at one of its ends.
pub open spec fn is_boundary(text: Seq<char>, at: int) -> bool {
    is_char_boundary(encode_utf8(text), at)
}

/// The part of `text` that starts at byte offset `at`.
pub open spec fn suffix(text: Seq<char>, at: int) -> Seq<char> {
    decode_utf8(encode_utf8(text).subrange(at, encode_utf8(text).len() as int))
}

/// The part of `text` that ends before byte offset `to`.
pub open spec fn prefix(text: Seq<char>, to: int) -> Seq<char> {
    decode_utf8(encode_utf8(text).subrange(0, to))
}

/// A boundary is an offset within the text.
pub proof fn lemma_boundary_in_range(text: Seq<char>, at: int)
    requires
        is_boundary(text, at),
    ensures
        0 <= at <= byte_len(text),
{
    encode_utf8_valid_utf8(text);
}

/// Both ends of a text are boundaries.
pub proof fn lemma_ends_are_boundaries(text: Seq<char>)
    ensures
        is_boundary(text, 0),
        is_boundary(text, byte_len(text) as int),
{
    encode_utf8_valid_utf8(text);
    is_char_boundary_start_end_of_seq(encode_utf8(text));
}

/// Cutting at a boundary cuts the bytes at that offset.
pub proof fn lemma_cut_bytes(text: Seq<char>, at: int)
    requires
        is_boundary(text, at),
    ensures
        encode_utf8(prefix(text, at)) == encode_utf8(text).subrange(0, at),
        encode_utf8(suffix(text, at)) == encode_utf8(text).subrange(at, byte_len(text) as int),
        byte_len(prefix(text, at)) == at,
        byte_len(suffix(text, at)) == byte_len(text) - at,
        prefix(text, at) + suffix(text, at) == text,
{
    let bytes = encode_utf8(text);
    encode_utf8_valid_utf8(text);
    lemma_boundary_in_range(text, at);
    valid_utf8_split(bytes, at);
    decode_utf8_encode_utf8(bytes.subrange(0, at));
    decode_utf8_encode_utf8(bytes.subrange(at, bytes.len() as int));
    decode_utf8_split(bytes, at);
    encode_utf8_decode_utf8(text);
}

/// Nothing is cut off at offset 0.
pub proof fn lemma_suffix_at_start(text: Seq<char>)
    ensures
        suffix(text, 0) == text,
{
    let bytes = encode_utf8(text);
    assert(bytes.subrange(0, bytes.len() as int) == bytes);
    encode_utf8_decode_utf8(text);
}

/// A boundary of the rest of a text, counted from where the rest begins, is a
/// boundary of the whole text; cutting twice is cutting once at the sum.
pub proof fn lemma_boundary_advance(text: Seq<char>, at: int, step: int)
    requires
        is_boundary(text, at),
        is_boundary(suffix(text, at), step),
    ensures
        is_boundary(text, at + step),
        0 <= at <= at + step <= byte_len(text),
        suffix(suffix(text, at), step) == suffix(text, at + step),
{
    let bytes = encode_utf8(text);
    let rest = encode_utf8(suffix(text, at));
    let end = bytes.len() as int;
    encode_utf8_valid_utf8(text);
    encode_utf8_valid_utf8(suffix(text, at));
    lemma_cut_bytes(text, at);
    lemma_boundary_in_range(text, at);
    lemma_boundary_in_range(suffix(text, at), step);
    if at + step == end {
        is_char_boundary_start_end_of_seq(bytes);
    } else {
        is_char_boundary_iff_not_is_continuation_byte(rest, step);
        is_char_boundary_iff_not_is_continuation_byte(bytes, at + step);
    }
    assert(rest.subrange(step, rest.len() as int) == bytes.subrange(at + step, end));
}

/// A text with a character in it has a byte in it.
pub proof fn lemma_nonempty_has_bytes(text: Seq<char>)
    requires
        text.len() > 0,
    ensures
        byte_len(text) > 0,
{
    encode_utf8_first_scalar(text);
}

/// The length of `s` in bytes.
pub fn byte_length(s: &str) -> (n: usize)
    ensures
        n == byte_len(s@),
{
    s.as_bytes().len()
}

/// The part of `s` from byte offset `at` on.
pub fn tail<'a>(s: &'a str, at: usize) -> (rest: &'a str)
    requires
        is_boundary(s@, at as int),
    ensures
        rest@ == suffix(s@, at as int),
{
    let (_, rest) = s.split_at(at);
    proof {
        encode_utf8_decode_utf8(rest@);
    }
    rest
}

/// The part of `s` before byte offset `to`.
pub fn head<'a>(s: &'a str, to: usize) -> (start: &'a str)
    requires
        is_boundary(s@, to as int),
    ensures
        start@ == prefix(s@, to as int),
{
    let (start, _) = s.split_at(to);
    proof {
        encode_utf8_decode_utf8(start@);
    }
    start
}

} // verus!
