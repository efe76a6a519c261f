//! Trusted boundary between the verified engine and `ropey`.
//!
//! The text of a document is held in a `ropey::Rope`. The rope is opaque to
//! the verifier; its contents are modelled by the uninterpreted function
//! [`rope_bytes`], the UTF-8 encoding of the text it holds. Every rope
//! operation the engine uses goes through exactly one wrapper below, whose
//! contract states what `ropey`'s documentation and source promise in terms
//! of that model. `ropey` mutates at char indices, so the mutating wrappers
//! first convert the byte offset with `Rope::byte_to_char`; on a character
//! boundary the two indexings coincide.

use vstd::prelude::*;
use vstd::string::StringSliceAdditionalSpecFns;
use vstd::utf8::is_char_boundary;
use vstd::utf8::valid_utf8;

verus! {

#[verifier::external_type_specification]
#[verifier::external_body]
pub struct ExRope(ropey::Rope);

/// The UTF-8 encoding of the text held by a rope.
pub uninterp spec fn rope_bytes(r: ropey::Rope) -> Seq<u8>;

/// Relies on `ropey::Rope::new`: a fresh rope holds no text.
#[verifier::external_body]
pub(crate) fn rope_new() -> (r: ropey::Rope)
    ensures
        rope_bytes(r) == Seq::<u8>::empty(),
{
    ropey::Rope::new()
}

/// Relies on `ropey::Rope::from_str`: the rope holds exactly the given text.
/// Its UTF-8 length equals the slice's `len`, hence fits in a `usize`.
#[verifier::external_body]
pub(crate) fn rope_from_str(text: &str) -> (r: ropey::Rope)
    ensures
        rope_bytes(r) == text.spec_bytes(),
        rope_bytes(r).len() <= usize::MAX,
{
    ropey::Rope::from_str(text)
}

/// Relies on `ropey::Rope::len_bytes`: the total UTF-8 length of the text.
#[verifier::external_body]
pub(crate) fn rope_len_bytes(r: &ropey::Rope) -> (n: usize)
    ensures
        n == rope_bytes(*r).len(),
{
    r.len_bytes()
}

/// Relies on `ropey::Rope::len_chars`: the number of chars in the text, which
/// for valid UTF-8 is the length of its decoding.
#[verifier::external_body]
pub(crate) fn rope_len_chars(r: &ropey::Rope) -> (n: usize)
    requires
        valid_utf8(rope_bytes(*r)),
    ensures
        n == vstd::utf8::decode_utf8(rope_bytes(*r)).len(),
{
    r.len_chars()
}

/// Relies on `ropey::Rope::byte`: the byte at the given index of the text's
/// UTF-8 encoding.
#[verifier::external_body]
pub(crate) fn rope_byte_at(r: &ropey::Rope, i: usize) -> (b: u8)
    requires
        i < rope_bytes(*r).len(),
    ensures
        b == rope_bytes(*r)[i as int],
{
    r.byte(i)
}

/// Relies on `ropey::Rope::byte_to_char` and `Rope::insert`: inserting at the
/// char index of a byte offset that lies on a character boundary splices the
/// text's UTF-8 encoding at that byte offset.
#[verifier::external_body]
pub(crate) fn rope_insert_at(r: &mut ropey::Rope, at: usize, text: &str)
    requires
        valid_utf8(rope_bytes(*old(r))),
        is_char_boundary(rope_bytes(*old(r)), at as int),
        rope_bytes(*old(r)).len() + text.spec_bytes().len() <= usize::MAX,
    ensures
        rope_bytes(*final(r)) == rope_bytes(*old(r)).subrange(0, at as int) + text.spec_bytes()
            + rope_bytes(*old(r)).subrange(at as int, rope_bytes(*old(r)).len() as int),
{
    let char_idx = r.byte_to_char(at);
    r.insert(char_idx, text);
}

/// Relies on `ropey::Rope::byte_to_char` and `Rope::remove`: removing the char
/// range between two byte offsets on character boundaries removes exactly that
/// byte range from the text's UTF-8 encoding.
#[verifier::external_body]
pub(crate) fn rope_remove_range(r: &mut ropey::Rope, start: usize, end: usize)
    requires
        valid_utf8(rope_bytes(*old(r))),
        start <= end <= rope_bytes(*old(r)).len(),
        is_char_boundary(rope_bytes(*old(r)), start as int),
        is_char_boundary(rope_bytes(*old(r)), end as int),
    ensures
        rope_bytes(*final(r)) == rope_bytes(*old(r)).subrange(0, start as int) + rope_bytes(
            *old(r),
        ).subrange(end as int, rope_bytes(*old(r)).len() as int),
{
    let char_start = r.byte_to_char(start);
    let char_end = r.byte_to_char(end);
    r.remove(char_start..char_end);
}

/// Relies on `ropey::Rope::byte_slice` and `RopeSlice`'s `Display`: the
/// returned string is exactly the text between two byte offsets on character
/// boundaries.
#[verifier::external_body]
pub(crate) fn rope_slice_to_string(r: &ropey::Rope, start: usize, end: usize) -> (s: String)
    requires
        valid_utf8(rope_bytes(*r)),
        start <= end <= rope_bytes(*r).len(),
        is_char_boundary(rope_bytes(*r), start as int),
        is_char_boundary(rope_bytes(*r), end as int),
    ensures
        vstd::utf8::encode_utf8(s@) == rope_bytes(*r).subrange(start as int, end as int),
{
    r.byte_slice(start..end).to_string()
}

/// Relies on `Rope`'s `Display`: writing every chunk in order yields the whole
/// text.
#[verifier::external_body]
pub(crate) fn rope_to_string(r: &ropey::Rope) -> (s: String)
    ensures
        vstd::utf8::encode_utf8(s@) == rope_bytes(*r),
{
    r.to_string()
}

/// Relies on `char::to_string`: the resulting string holds exactly the one
/// char.
#[verifier::external_body]
pub(crate) fn char_to_string(ch: char) -> (s: String)
    ensures
        s@ == seq![ch],
{
    ch.to_string()
}

} // verus!
