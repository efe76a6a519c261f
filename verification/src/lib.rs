//! A verified text-buffer engine.
//!
//! One document's text is held in a rope, mutable at byte offsets that lie on
//! UTF-8 character boundaries. The engine tracks whether the content differs
//! from its backing file and keeps a linear edit history: undo replays the
//! inverse of the most recent edit and moves its record to the redo stack,
//! redo replays it forward and moves it back. File I/O lives outside the
//! engine; callers hand in loaded text and are handed back text to write.

pub mod buffer;
pub mod edits;
pub mod rope_text;
