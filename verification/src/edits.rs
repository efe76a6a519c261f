//! The mathematical model of edits.
//!
//! Content is modelled as the UTF-8 encoding of the document's text, a
//! `Seq<u8>` satisfying `valid_utf8`. An edit is an invertible record of a
//! single insertion or removal at a byte offset on a character boundary.
//! This module defines when an edit applies to a content value, what applying
//! or undoing it yields, when a whole history stack can be replayed, and the
//! round-trip laws the engine's undo/redo rest on.

use vstd::prelude::*;
use vstd::utf8::encode_utf8;
use vstd::utf8::encode_utf8_valid_utf8;
use vstd::utf8::is_char_boundary;
use vstd::utf8::is_char_boundary_iff_not_is_continuation_byte;
use vstd::utf8::is_char_boundary_start_end_of_seq;
use vstd::utf8::is_continuation_byte;
use vstd::utf8::valid_utf8;
use vstd::utf8::valid_utf8_concat;
use vstd::utf8::valid_utf8_split;

verus! {

/// A record of one edit, sufficient to replay it forward or to construct its
/// inverse: the byte offset it happened at and the exact text involved.
#[derive(Debug)]
pub enum Edit {
    Insert { pos: usize, text: String },
    Remove { pos: usize, text: String },
}

/// The byte offset an edit happened at.
pub open spec fn edit_pos(e: Edit) -> int {
    match e {
        Edit::Insert { pos, .. } => pos as int,
        Edit::Remove { pos, .. } => pos as int,
    }
}

/// The UTF-8 encoding of the text an edit inserted or removed.
pub open spec fn edit_bytes(e: Edit) -> Seq<u8> {
    match e {
        Edit::Insert { text, .. } => encode_utf8(text@),
        Edit::Remove { text, .. } => encode_utf8(text@),
    }
}

/// Text `t` can be inserted into `c` at byte offset `pos`: the offset lies on
/// a character boundary and the result still fits in a `usize` byte count.
pub open spec fn can_insert(c: Seq<u8>, pos: int, t: Seq<u8>) -> bool {
    &&& is_char_boundary(c, pos)
    &&& c.len() + t.len() <= usize::MAX
}

/// `c` with `t` spliced in at byte offset `pos`.
pub open spec fn inserted(c: Seq<u8>, pos: int, t: Seq<u8>) -> Seq<u8>
    recommends
        0 <= pos <= c.len(),
{
    c.subrange(0, pos) + t + c.subrange(pos, c.len() as int)
}

/// Text `t` can be removed from `c` at byte offset `pos`: `t` stands there
/// verbatim and both ends of the range lie on character boundaries.
pub open spec fn can_remove(c: Seq<u8>, pos: int, t: Seq<u8>) -> bool {
    &&& 0 <= pos
    &&& pos + t.len() <= c.len()
    &&& c.subrange(pos, pos + t.len()) == t
    &&& is_char_boundary(c, pos)
    &&& is_char_boundary(c, pos + t.len())
}

/// `c` with the `t.len()` bytes at byte offset `pos` removed.
pub open spec fn removed(c: Seq<u8>, pos: int, t: Seq<u8>) -> Seq<u8>
    recommends
        0 <= pos,
        pos + t.len() <= c.len(),
{
    c.subrange(0, pos) + c.subrange(pos + t.len(), c.len() as int)
}

/// The inverse of edit `e` applies to content `c`.
pub open spec fn undo_enabled(c: Seq<u8>, e: Edit) -> bool {
    match e {
        Edit::Insert { .. } => can_remove(c, edit_pos(e), edit_bytes(e)),
        Edit::Remove { .. } => can_insert(c, edit_pos(e), edit_bytes(e)),
    }
}

/// Content after replaying the inverse of edit `e` on `c`.
pub open spec fn undone(c: Seq<u8>, e: Edit) -> Seq<u8> {
    match e {
        Edit::Insert { .. } => removed(c, edit_pos(e), edit_bytes(e)),
        Edit::Remove { .. } => inserted(c, edit_pos(e), edit_bytes(e)),
    }
}

/// Edit `e` applies forward to content `c`.
pub open spec fn redo_enabled(c: Seq<u8>, e: Edit) -> bool {
    match e {
        Edit::Insert { .. } => can_insert(c, edit_pos(e), edit_bytes(e)),
        Edit::Remove { .. } => can_remove(c, edit_pos(e), edit_bytes(e)),
    }
}

/// Content after replaying edit `e` forward on `c`.
pub open spec fn redone(c: Seq<u8>, e: Edit) -> Seq<u8> {
    match e {
        Edit::Insert { .. } => inserted(c, edit_pos(e), edit_bytes(e)),
        Edit::Remove { .. } => removed(c, edit_pos(e), edit_bytes(e)),
    }
}

/// The cursor position reported after undoing `e`: the edit's offset.
pub open spec fn undo_cursor(e: Edit) -> int {
    edit_pos(e)
}

/// The cursor position reported after redoing `e`: past the re-inserted text
/// for an insertion, at the offset for a removal.
pub open spec fn redo_cursor(e: Edit) -> int {
    match e {
        Edit::Insert { .. } => edit_pos(e) + edit_bytes(e).len(),
        Edit::Remove { .. } => edit_pos(e),
    }
}

/// Every edit on the stack can be undone in turn, most recent first, starting
/// from content `c`.
pub open spec fn undo_chain_ok(c: Seq<u8>, stack: Seq<Edit>) -> bool
    decreases stack.len(),
{
    stack.len() == 0 || {
        &&& undo_enabled(c, stack.last())
        &&& undo_chain_ok(undone(c, stack.last()), stack.drop_last())
    }
}

/// Every edit on the stack can be replayed forward in turn, most recent
/// first, starting from content `c`.
pub open spec fn redo_chain_ok(c: Seq<u8>, stack: Seq<Edit>) -> bool
    decreases stack.len(),
{
    stack.len() == 0 || {
        &&& redo_enabled(c, stack.last())
        &&& redo_chain_ok(redone(c, stack.last()), stack.drop_last())
    }
}

/// Under `valid_utf8`, a position is a character boundary exactly when it is
/// the end of the sequence or its byte is not a continuation byte.
pub proof fn lemma_boundary_via_byte(c: Seq<u8>, i: int)
    requires
        valid_utf8(c),
        0 <= i <= c.len(),
    ensures
        is_char_boundary(c, i) <==> (i == c.len() || !is_continuation_byte(c[i])),
{
    if i < c.len() {
        is_char_boundary_iff_not_is_continuation_byte(c, i);
    } else {
        is_char_boundary_start_end_of_seq(c);
    }
}

/// A single char encodes to between one and four bytes.
pub proof fn lemma_encode_one_char_len(ch: char)
    ensures
        1 <= encode_utf8(seq![ch]).len() <= 4,
{
    reveal_with_fuel(encode_utf8, 2);
    assert(seq![ch].drop_first() =~= Seq::<char>::empty());
    assert(seq![ch][0] == ch);
    vstd::utf8::char_is_scalar(ch);
}

/// Round trip: removing just-inserted text restores the content, byte for
/// byte. The insertion stays valid UTF-8 and both ends of the inserted range
/// lie on character boundaries, so the inverse edit applies.
pub proof fn lemma_insert_then_remove(c: Seq<u8>, pos: int, t: Seq<u8>)
    requires
        valid_utf8(c),
        valid_utf8(t),
        can_insert(c, pos, t),
    ensures
        valid_utf8(inserted(c, pos, t)),
        can_remove(inserted(c, pos, t), pos, t),
        removed(inserted(c, pos, t), pos, t) == c,
{
    lemma_boundary_via_byte(c, pos);
    let a = c.subrange(0, pos);
    let b = c.subrange(pos, c.len() as int);
    let c2 = inserted(c, pos, t);
    valid_utf8_split(c, pos);
    valid_utf8_concat(t, b);
    valid_utf8_concat(a, t + b);
    assert(c2 =~= a + (t + b));
    assert(valid_utf8(c2));
    assert(c2.subrange(pos, pos + t.len()) =~= t);
    // the start of the spliced range is still a boundary
    if pos < c2.len() {
        if t.len() > 0 {
            is_char_boundary_start_end_of_seq(t);
            lemma_boundary_via_byte(t, 0);
            assert(c2[pos] == t[0]);
        } else {
            assert(c2[pos] == c[pos]);
        }
        lemma_boundary_via_byte(c2, pos);
    } else {
        is_char_boundary_start_end_of_seq(c2);
    }
    // so is its end, whose byte, if any, is the old boundary byte at `pos`
    if pos + t.len() < c2.len() {
        assert(c2[pos + t.len()] == c[pos]);
        lemma_boundary_via_byte(c2, pos + t.len());
    } else {
        is_char_boundary_start_end_of_seq(c2);
    }
    assert(removed(c2, pos, t) =~= c);
}

/// Round trip: re-inserting just-removed text restores the content, byte for
/// byte. The removed slice and the remainder are valid UTF-8 and the offset
/// stays on a character boundary, so the inverse edit applies.
pub proof fn lemma_remove_then_insert(c: Seq<u8>, pos: int, t: Seq<u8>)
    requires
        valid_utf8(c),
        c.len() <= usize::MAX,
        can_remove(c, pos, t),
    ensures
        valid_utf8(removed(c, pos, t)),
        valid_utf8(t),
        can_insert(removed(c, pos, t), pos, t),
        inserted(removed(c, pos, t), pos, t) == c,
{
    let a = c.subrange(0, pos);
    let b = c.subrange(pos + t.len(), c.len() as int);
    let s2 = c.subrange(pos, c.len() as int);
    let c3 = removed(c, pos, t);
    valid_utf8_split(c, pos);
    // the end of the removed range is a boundary of the suffix as well
    lemma_boundary_via_byte(c, pos + t.len());
    if pos + t.len() < c.len() {
        assert(s2[t.len() as int] == c[pos + t.len()]);
    }
    lemma_boundary_via_byte(s2, t.len() as int);
    valid_utf8_split(s2, t.len() as int);
    assert(s2.subrange(0, t.len() as int) =~= t);
    assert(s2.subrange(t.len() as int, s2.len() as int) =~= b);
    valid_utf8_concat(a, b);
    assert(c3 == a + b);
    // the offset is still a boundary: its byte, if any, ended the removed range
    if pos < c3.len() {
        assert(c3[pos] == c[pos + t.len()]);
        lemma_boundary_via_byte(c3, pos);
    } else {
        is_char_boundary_start_end_of_seq(c3);
    }
    assert(inserted(c3, pos, t) =~= c);
}

/// Round trip: after an insertion is applied to any content it can be
/// inserted into, the inverse of its record applies, restores byte-identical
/// content, and undoing reports the cursor at the insertion offset.
pub proof fn lemma_undo_reverses_insert(c: Seq<u8>, e: Edit)
    requires
        valid_utf8(c),
        e is Insert,
        can_insert(c, edit_pos(e), edit_bytes(e)),
    ensures
        undo_enabled(inserted(c, edit_pos(e), edit_bytes(e)), e),
        undone(inserted(c, edit_pos(e), edit_bytes(e)), e) == c,
        undo_cursor(e) == edit_pos(e),
{
    match e {
        Edit::Insert { pos, text } => {
            encode_utf8_valid_utf8(text@);
            lemma_insert_then_remove(c, pos as int, encode_utf8(text@));
        },
        Edit::Remove { .. } => {},
    }
}

/// Round trip: after a removal is applied to any content it can remove from,
/// the inverse of its record applies, restores byte-identical content, and
/// undoing reports the cursor at the removal's start offset.
pub proof fn lemma_undo_reverses_remove(c: Seq<u8>, e: Edit)
    requires
        valid_utf8(c),
        c.len() <= usize::MAX,
        e is Remove,
        can_remove(c, edit_pos(e), edit_bytes(e)),
    ensures
        undo_enabled(removed(c, edit_pos(e), edit_bytes(e)), e),
        undone(removed(c, edit_pos(e), edit_bytes(e)), e) == c,
        undo_cursor(e) == edit_pos(e),
{
    match e {
        Edit::Insert { .. } => {},
        Edit::Remove { pos, text } => {
            lemma_remove_then_insert(c, pos as int, encode_utf8(text@));
        },
    }
}

/// Symmetry: undoing any single edit and then redoing it restores the content
/// exactly as it was before the undo, and the redo applies whenever the undo
/// did.
pub proof fn lemma_undo_then_redo(c: Seq<u8>, e: Edit)
    requires
        valid_utf8(c),
        c.len() <= usize::MAX,
        undo_enabled(c, e),
    ensures
        valid_utf8(undone(c, e)),
        undone(c, e).len() <= usize::MAX,
        redo_enabled(undone(c, e), e),
        redone(undone(c, e), e) == c,
{
    match e {
        Edit::Insert { pos, text } => {
            lemma_remove_then_insert(c, pos as int, encode_utf8(text@));
        },
        Edit::Remove { pos, text } => {
            encode_utf8_valid_utf8(text@);
            lemma_insert_then_remove(c, pos as int, encode_utf8(text@));
        },
    }
}

/// Symmetry: redoing any single edit and then undoing it restores the content
/// exactly as it was before the redo, and the undo applies whenever the redo
/// did.
pub proof fn lemma_redo_then_undo(c: Seq<u8>, e: Edit)
    requires
        valid_utf8(c),
        c.len() <= usize::MAX,
        redo_enabled(c, e),
    ensures
        valid_utf8(redone(c, e)),
        redone(c, e).len() <= usize::MAX,
        undo_enabled(redone(c, e), e),
        undone(redone(c, e), e) == c,
{
    match e {
        Edit::Insert { pos, text } => {
            encode_utf8_valid_utf8(text@);
            lemma_insert_then_remove(c, pos as int, encode_utf8(text@));
        },
        Edit::Remove { pos, text } => {
            lemma_remove_then_insert(c, pos as int, encode_utf8(text@));
        },
    }
}

} // verus!
