//! The document buffer: one file's text, its dirty flag, and its edit
//! history.
//!
//! Content is addressed by byte offsets into its UTF-8 encoding; every offset
//! handed to a mutating operation must lie on a character boundary, which
//! callers can test with [`Buffer::is_char_boundary_at`]. Each successful
//! `insert`/`remove` pushes its record onto the undo stack and clears the
//! redo stack; `undo` and `redo` move records between the two stacks without
//! altering them. The dirty flag rises on every mutation and falls only on
//! [`Buffer::mark_saved`] or a fresh load.
//!
//! The buffer itself never touches the filesystem: loading hands in the text
//! read from disk, saving hands out the path to write the current text to.

use crate::edits::Edit;
use crate::edits::can_remove;
use crate::edits::inserted;
use crate::edits::lemma_boundary_via_byte;
use crate::edits::lemma_encode_one_char_len;
use crate::edits::lemma_insert_then_remove;
use crate::edits::lemma_redo_then_undo;
use crate::edits::lemma_undo_then_redo;
use crate::edits::lemma_remove_then_insert;
use crate::edits::redo_chain_ok;
use crate::edits::redo_cursor;
use crate::edits::redone;
use crate::edits::removed;
use crate::edits::undo_chain_ok;
use crate::edits::undo_cursor;
use crate::edits::undone;
use crate::rope_text::char_to_string;
use crate::rope_text::rope_byte_at;
use crate::rope_text::rope_bytes;
use crate::rope_text::rope_from_str;
use crate::rope_text::rope_insert_at;
use crate::rope_text::rope_len_bytes;
use crate::rope_text::rope_len_chars;
use crate::rope_text::rope_new;
use crate::rope_text::rope_remove_range;
use crate::rope_text::rope_slice_to_string;
use crate::rope_text::rope_to_string;
use vstd::prelude::*;
use vstd::string::StringSliceAdditionalSpecFns;
use vstd::utf8::decode_utf8;
use vstd::utf8::encode_utf8;
use vstd::utf8::encode_utf8_decode_utf8;
use vstd::utf8::encode_utf8_valid_utf8;
use vstd::utf8::is_char_boundary;
use vstd::utf8::is_char_boundary_start_end_of_seq;
use vstd::utf8::valid_utf8;

verus! {

/// Returned by [`Buffer::save_path`] when the buffer has no associated file.
#[derive(Debug, PartialEq, Eq, Structural)]
pub struct NoPathError;

/// A buffer holds a document's content, the path it is associated with (none
/// for a new, unsaved document), whether it has unsaved changes, and its undo
/// and redo histories.
pub struct Buffer {
    rope: ropey::Rope,
    file_path: Option<String>,
    is_dirty: bool,
    undo_stack: Vec<Edit>,
    redo_stack: Vec<Edit>,
}

impl View for Buffer {
    type V = Seq<u8>;

    /// The content, as the UTF-8 encoding of the document's text.
    closed spec fn view(&self) -> Seq<u8> {
        rope_bytes(self.rope)
    }
}

impl Buffer {
    /// The associated path, as a character sequence.
    pub closed spec fn path(self) -> Option<Seq<char>> {
        match self.file_path {
            Some(p) => Some(p@),
            None => None,
        }
    }

    /// Whether the content has changed since the last load or save.
    pub closed spec fn dirty(self) -> bool {
        self.is_dirty
    }

    /// The undo history, most recent edit last.
    pub closed spec fn undo_edits(self) -> Seq<Edit> {
        self.undo_stack@
    }

    /// The redo history, most recent edit last.
    pub closed spec fn redo_edits(self) -> Seq<Edit> {
        self.redo_stack@
    }

    /// Well-formedness: the content is valid UTF-8 whose length fits a
    /// `usize`, and both histories replay cleanly from the current content —
    /// every undo in turn applies, and so does every redo.
    pub closed spec fn wf(self) -> bool {
        &&& valid_utf8(self@)
        &&& self@.len() <= usize::MAX
        &&& undo_chain_ok(self@, self.undo_edits())
        &&& redo_chain_ok(self@, self.redo_edits())
    }

    /// A new empty buffer: no content, no path, clean, empty histories.
    pub fn new() -> (b: Buffer)
        ensures
            b.wf(),
            b@ == Seq::<u8>::empty(),
            b.path() is None,
            !b.dirty(),
            b.undo_edits() == Seq::<Edit>::empty(),
            b.redo_edits() == Seq::<Edit>::empty(),
    {
        Buffer {
            rope: rope_new(),
            file_path: None,
            is_dirty: false,
            undo_stack: Vec::new(),
            redo_stack: Vec::new(),
        }
    }

    /// A buffer with the given initial text: no path, clean, empty histories.
    pub fn with_text(text: &str) -> (b: Buffer)
        ensures
            b.wf(),
            b@ == text.spec_bytes(),
            b.path() is None,
            !b.dirty(),
            b.undo_edits() == Seq::<Edit>::empty(),
            b.redo_edits() == Seq::<Edit>::empty(),
    {
        proof {
            encode_utf8_valid_utf8(text@);
        }
        Buffer {
            rope: rope_from_str(text),
            file_path: None,
            is_dirty: false,
            undo_stack: Vec::new(),
            redo_stack: Vec::new(),
        }
    }

    /// A buffer freshly loaded from a file: the text read from `path`,
    /// associated with it, clean, empty histories.
    pub fn loaded(path: String, text: &str) -> (b: Buffer)
        ensures
            b.wf(),
            b@ == text.spec_bytes(),
            b.path() == Some(path@),
            !b.dirty(),
            b.undo_edits() == Seq::<Edit>::empty(),
            b.redo_edits() == Seq::<Edit>::empty(),
    {
        proof {
            encode_utf8_valid_utf8(text@);
        }
        Buffer {
            rope: rope_from_str(text),
            file_path: Some(path),
            is_dirty: false,
            undo_stack: Vec::new(),
            redo_stack: Vec::new(),
        }
    }

    /// Re-open: replace content and path with a freshly read file. This is a
    /// hard reset, not an undoable edit — both histories are cleared and the
    /// buffer is clean.
    pub fn reload(&mut self, path: String, text: &str)
        ensures
            final(self).wf(),
            final(self)@ == text.spec_bytes(),
            final(self).path() == Some(path@),
            !final(self).dirty(),
            final(self).undo_edits() == Seq::<Edit>::empty(),
            final(self).redo_edits() == Seq::<Edit>::empty(),
    {
        proof {
            encode_utf8_valid_utf8(text@);
        }
        self.rope = rope_from_str(text);
        self.file_path = Some(path);
        self.is_dirty = false;
        self.undo_stack.clear();
        self.redo_stack.clear();
    }

    /// Replace the entire content. A full replace bypasses the edit records,
    /// so it cannot be undone; to keep every remaining record replayable,
    /// both histories are cleared. The path is kept and the buffer is dirty.
    pub fn set_text(&mut self, text: &str)
        ensures
            final(self).wf(),
            final(self)@ == text.spec_bytes(),
            final(self).path() == old(self).path(),
            final(self).dirty(),
            final(self).undo_edits() == Seq::<Edit>::empty(),
            final(self).redo_edits() == Seq::<Edit>::empty(),
    {
        proof {
            encode_utf8_valid_utf8(text@);
        }
        self.rope = rope_from_str(text);
        self.is_dirty = true;
        self.undo_stack.clear();
        self.redo_stack.clear();
    }

    /// Insert `text` at byte offset `pos`, which must lie on a character
    /// boundary. Records the edit, clears the redo history, marks the buffer
    /// dirty.
    pub fn insert(&mut self, pos: usize, text: &str)
        requires
            old(self).wf(),
            is_char_boundary(old(self)@, pos as int),
            old(self)@.len() + text.spec_bytes().len() <= usize::MAX,
        ensures
            final(self).wf(),
            final(self)@ == inserted(old(self)@, pos as int, text.spec_bytes()),
            final(self).undo_edits().len() == old(self).undo_edits().len() + 1,
            final(self).undo_edits().drop_last() == old(self).undo_edits(),
            (final(self).undo_edits().last() matches Edit::Insert { pos: p, text: t } && p == pos
                && t@ == text@),
            final(self).redo_edits() == Seq::<Edit>::empty(),
            final(self).dirty(),
            final(self).path() == old(self).path(),
    {
        proof {
            encode_utf8_valid_utf8(text@);
            lemma_insert_then_remove(old(self)@, pos as int, text.spec_bytes());
        }
        rope_insert_at(&mut self.rope, pos, text);
        self.undo_stack.push(Edit::Insert { pos, text: text.to_owned() });
        self.redo_stack.clear();
        self.is_dirty = true;
        proof {
            assert(self.undo_stack@.drop_last() =~= old(self).undo_stack@);
        }
    }

    /// Insert a single char at byte offset `pos`, which must lie on a
    /// character boundary. Records the edit, clears the redo history, marks
    /// the buffer dirty.
    pub fn insert_char(&mut self, pos: usize, ch: char)
        requires
            old(self).wf(),
            is_char_boundary(old(self)@, pos as int),
            old(self)@.len() + 4 <= usize::MAX,
        ensures
            final(self).wf(),
            final(self)@ == inserted(old(self)@, pos as int, encode_utf8(seq![ch])),
            final(self).undo_edits().len() == old(self).undo_edits().len() + 1,
            final(self).undo_edits().drop_last() == old(self).undo_edits(),
            (final(self).undo_edits().last() matches Edit::Insert { pos: p, text: t } && p == pos
                && t@ == seq![ch]),
            final(self).redo_edits() == Seq::<Edit>::empty(),
            final(self).dirty(),
            final(self).path() == old(self).path(),
    {
        proof {
            lemma_encode_one_char_len(ch);
        }
        let text = char_to_string(ch);
        self.insert(pos, text.as_str());
    }

    /// Remove the byte range `[range.start, range.end)`, whose ends must lie
    /// on character boundaries. Captures the removed slice in the edit
    /// record, clears the redo history, marks the buffer dirty.
    pub fn remove(&mut self, range: core::ops::Range<usize>)
        requires
            old(self).wf(),
            range.start <= range.end <= old(self)@.len(),
            is_char_boundary(old(self)@, range.start as int),
            is_char_boundary(old(self)@, range.end as int),
        ensures
            final(self).wf(),
            final(self)@ == removed(
                old(self)@,
                range.start as int,
                old(self)@.subrange(range.start as int, range.end as int),
            ),
            final(self).undo_edits().len() == old(self).undo_edits().len() + 1,
            final(self).undo_edits().drop_last() == old(self).undo_edits(),
            (final(self).undo_edits().last() matches Edit::Remove { pos: p, text: t } && p
                == range.start && encode_utf8(t@) == old(self)@.subrange(
                range.start as int,
                range.end as int,
            )),
            final(self).redo_edits() == Seq::<Edit>::empty(),
            final(self).dirty(),
            final(self).path() == old(self).path(),
    {
        let start = range.start;
        let end = range.end;
        let ghost t = old(self)@.subrange(start as int, end as int);
        proof {
            assert(can_remove(old(self)@, start as int, t));
            lemma_remove_then_insert(old(self)@, start as int, t);
        }
        let removed_text = rope_slice_to_string(&self.rope, start, end);
        rope_remove_range(&mut self.rope, start, end);
        self.undo_stack.push(Edit::Remove { pos: start, text: removed_text });
        self.redo_stack.clear();
        self.is_dirty = true;
        proof {
            assert(final(self)@ =~= removed(old(self)@, start as int, t));
            assert(self.undo_stack@.drop_last() =~= old(self).undo_stack@);
        }
    }

    /// Undo the most recent edit, if any: replay its inverse on the content
    /// and move its record to the redo history. Returns the resulting cursor
    /// position — the edit's offset — or nothing if there is no history.
    /// Does not change the dirty flag.
    pub fn undo(&mut self) -> (r: Option<usize>)
        requires
            old(self).wf(),
        ensures
            final(self).wf(),
            old(self).undo_edits().len() == 0 ==> {
                &&& r is None
                &&& final(self)@ == old(self)@
                &&& final(self).undo_edits() == old(self).undo_edits()
                &&& final(self).redo_edits() == old(self).redo_edits()
                &&& final(self).dirty() == old(self).dirty()
                &&& final(self).path() == old(self).path()
            },
            old(self).undo_edits().len() > 0 ==> {
                let e = old(self).undo_edits().last();
                &&& (r matches Some(p) && p == undo_cursor(e))
                &&& final(self)@ == undone(old(self)@, e)
                &&& final(self).undo_edits() == old(self).undo_edits().drop_last()
                &&& final(self).redo_edits() == old(self).redo_edits().push(e)
                &&& final(self).dirty() == old(self).dirty()
                &&& final(self).path() == old(self).path()
            },
    {
        match self.undo_stack.pop() {
            None => None,
            Some(e) => {
                proof {
                    assert(old(self).undo_edits().len() > 0);
                    assert(e == old(self).undo_edits().last());
                    assert(self.undo_stack@ =~= old(self).undo_edits().drop_last());
                    lemma_undo_then_redo(old(self)@, e);
                }
                let cursor: usize = match &e {
                    Edit::Insert { pos, text } => {
                        let end = *pos + text.as_str().len();
                        rope_remove_range(&mut self.rope, *pos, end);
                        *pos
                    },
                    Edit::Remove { pos, text } => {
                        rope_insert_at(&mut self.rope, *pos, text.as_str());
                        *pos
                    },
                };
                self.redo_stack.push(e);
                proof {
                    let e0 = old(self).undo_edits().last();
                    assert(final(self)@ == undone(old(self)@, e0));
                    assert(undo_chain_ok(final(self)@, final(self).undo_edits()));
                    assert(final(self).redo_edits().last() == e0);
                    assert(final(self).redo_edits().drop_last() =~= old(self).redo_edits());
                    assert(redone(final(self)@, e0) == old(self)@);
                    assert(redo_chain_ok(final(self)@, final(self).redo_edits()));
                }
                Some(cursor)
            },
        }
    }

    /// Redo the most recently undone edit, if any: replay it forward on the
    /// content and move its record back to the undo history. Returns the
    /// resulting cursor position — past the re-inserted text for an
    /// insertion, at the offset for a removal — or nothing if there is no
    /// redo history. Does not change the dirty flag.
    pub fn redo(&mut self) -> (r: Option<usize>)
        requires
            old(self).wf(),
        ensures
            final(self).wf(),
            old(self).redo_edits().len() == 0 ==> {
                &&& r is None
                &&& final(self)@ == old(self)@
                &&& final(self).undo_edits() == old(self).undo_edits()
                &&& final(self).redo_edits() == old(self).redo_edits()
                &&& final(self).dirty() == old(self).dirty()
                &&& final(self).path() == old(self).path()
            },
            old(self).redo_edits().len() > 0 ==> {
                let e = old(self).redo_edits().last();
                &&& (r matches Some(p) && p == redo_cursor(e))
                &&& final(self)@ == redone(old(self)@, e)
                &&& final(self).undo_edits() == old(self).undo_edits().push(e)
                &&& final(self).redo_edits() == old(self).redo_edits().drop_last()
                &&& final(self).dirty() == old(self).dirty()
                &&& final(self).path() == old(self).path()
            },
    {
        match self.redo_stack.pop() {
            None => None,
            Some(e) => {
                proof {
                    assert(old(self).redo_edits().len() > 0);
                    assert(e == old(self).redo_edits().last());
                    assert(self.redo_stack@ =~= old(self).redo_edits().drop_last());
                    lemma_redo_then_undo(old(self)@, e);
                }
                let cursor: usize = match &e {
                    Edit::Insert { pos, text } => {
                        rope_insert_at(&mut self.rope, *pos, text.as_str());
                        *pos + text.as_str().len()
                    },
                    Edit::Remove { pos, text } => {
                        let end = *pos + text.as_str().len();
                        rope_remove_range(&mut self.rope, *pos, end);
                        *pos
                    },
                };
                self.undo_stack.push(e);
                proof {
                    let e0 = old(self).redo_edits().last();
                    assert(final(self)@ == redone(old(self)@, e0));
                    assert(redo_chain_ok(final(self)@, final(self).redo_edits()));
                    assert(final(self).undo_edits().last() == e0);
                    assert(final(self).undo_edits().drop_last() =~= old(self).undo_edits());
                    assert(undone(final(self)@, e0) == old(self)@);
                    assert(undo_chain_ok(final(self)@, final(self).undo_edits()));
                }
                Some(cursor)
            },
        }
    }

    /// Whether there is an edit to undo.
    pub fn can_undo(&self) -> (b: bool)
        ensures
            b == (self.undo_edits().len() > 0),
    {
        self.undo_stack.len() > 0
    }

    /// Whether there is an undone edit to redo.
    pub fn can_redo(&self) -> (b: bool)
        ensures
            b == (self.redo_edits().len() > 0),
    {
        self.redo_stack.len() > 0
    }

    /// The path to save to: the associated path, or `NoPathError` if the
    /// buffer has none. Never changes the buffer.
    pub fn save_path(&self) -> (r: Result<String, NoPathError>)
        ensures
            (r matches Ok(p) && self.path() == Some(p@)) || (r matches Err(_) && self.path()
                is None),
    {
        match &self.file_path {
            Some(p) => Ok(p.clone()),
            None => Err(NoPathError),
        }
    }

    /// Record a successful save of the current content to `path`: associate
    /// the buffer with it and mark it clean. Content and histories are
    /// untouched.
    pub fn mark_saved(&mut self, path: String)
        requires
            old(self).wf(),
        ensures
            final(self).wf(),
            final(self)@ == old(self)@,
            final(self).path() == Some(path@),
            !final(self).dirty(),
            final(self).undo_edits() == old(self).undo_edits(),
            final(self).redo_edits() == old(self).redo_edits(),
    {
        self.file_path = Some(path);
        self.is_dirty = false;
    }

    /// Whether the buffer has unsaved changes.
    pub fn is_dirty(&self) -> (b: bool)
        ensures
            b == self.dirty(),
    {
        self.is_dirty
    }

    /// The associated path, if any.
    pub fn file_path(&self) -> (p: Option<String>)
        ensures
            (p matches Some(s) && self.path() == Some(s@)) || (p matches None && self.path()
                is None),
    {
        match &self.file_path {
            Some(p) => Some(p.clone()),
            None => None,
        }
    }

    /// The content as a `String`.
    pub fn to_string(&self) -> (s: String)
        requires
            self.wf(),
        ensures
            encode_utf8(s@) == self@,
            s@ == decode_utf8(self@),
    {
        let s = rope_to_string(&self.rope);
        proof {
            encode_utf8_decode_utf8(s@);
        }
        s
    }

    /// The content length in bytes.
    pub fn len_bytes(&self) -> (n: usize)
        ensures
            n == self@.len(),
    {
        rope_len_bytes(&self.rope)
    }

    /// The content length in chars.
    pub fn len_chars(&self) -> (n: usize)
        requires
            self.wf(),
        ensures
            n == decode_utf8(self@).len(),
    {
        rope_len_chars(&self.rope)
    }

    /// The underlying rope.
    pub fn rope(&self) -> (r: &ropey::Rope)
        ensures
            rope_bytes(*r) == self@,
    {
        &self.rope
    }

    /// Whether `pos` lies on a character boundary of the content (its end
    /// included). Offsets beyond the end are on no boundary.
    pub fn is_char_boundary_at(&self, pos: usize) -> (b: bool)
        requires
            self.wf(),
        ensures
            b == is_char_boundary(self@, pos as int),
    {
        let n = rope_len_bytes(&self.rope);
        if pos > n {
            proof {
                assert(!is_char_boundary(self@, pos as int));
            }
            false
        } else if pos == n {
            proof {
                is_char_boundary_start_end_of_seq(self@);
            }
            true
        } else {
            let byte = rope_byte_at(&self.rope, pos);
            proof {
                lemma_boundary_via_byte(self@, pos as int);
            }
            !(0x80 <= byte && byte <= 0xbf)
        }
    }

    /// The greatest character boundary strictly before `pos`: where the
    /// cursor lands when moving one char to the left.
    pub fn prev_char_boundary(&self, pos: usize) -> (r: usize)
        requires
            self.wf(),
            0 < pos <= self@.len(),
        ensures
            r < pos,
            is_char_boundary(self@, r as int),
            forall|j: int| r < j < pos ==> !is_char_boundary(self@, j),
    {
        let mut i: usize = pos - 1;
        loop
            invariant
                self.wf(),
                i < pos <= self@.len(),
                forall|j: int| i < j < pos ==> !is_char_boundary(self@, j),
            decreases i,
        {
            let byte = rope_byte_at(&self.rope, i);
            proof {
                lemma_boundary_via_byte(self@, i as int);
            }
            if !(0x80 <= byte && byte <= 0xbf) {
                return i;
            }
            proof {
                assert(is_char_boundary(self@, 0));
            }
            i = i - 1;
        }
    }

    /// The least character boundary strictly after `pos`: where the cursor
    /// lands when moving one char to the right.
    pub fn next_char_boundary(&self, pos: usize) -> (r: usize)
        requires
            self.wf(),
            pos < self@.len(),
        ensures
            pos < r <= self@.len(),
            is_char_boundary(self@, r as int),
            forall|j: int| pos < j < r ==> !is_char_boundary(self@, j),
    {
        let n = rope_len_bytes(&self.rope);
        let mut i: usize = pos + 1;
        loop
            invariant
                self.wf(),
                pos < i <= n,
                n == self@.len(),
                forall|j: int| pos < j < i ==> !is_char_boundary(self@, j),
            decreases n - i,
        {
            if i == n {
                proof {
                    is_char_boundary_start_end_of_seq(self@);
                }
                return i;
            }
            let byte = rope_byte_at(&self.rope, i);
            proof {
                lemma_boundary_via_byte(self@, i as int);
            }
            if !(0x80 <= byte && byte <= 0xbf) {
                return i;
            }
            i = i + 1;
        }
    }
}

} // verus!
