use text_buffer::buffer::Buffer;
use text_buffer::buffer::NoPathError;

#[test]
fn empty_buffer_is_clean_and_empty() {
    let b = Buffer::new();
    assert_eq!(b.to_string(), "");
    assert_eq!(b.len_bytes(), 0);
    assert_eq!(b.len_chars(), 0);
    assert!(!b.is_dirty());
    assert!(b.file_path().is_none());
    assert!(!b.can_undo());
    assert!(!b.can_redo());
}

#[test]
fn with_text_holds_the_text() {
    let b = Buffer::with_text("hello");
    assert_eq!(b.to_string(), "hello");
    assert_eq!(b.len_bytes(), 5);
    assert_eq!(b.len_chars(), 5);
    assert!(!b.is_dirty());
    assert!(b.file_path().is_none());
}

#[test]
fn insert_splices_at_byte_offset() {
    let mut b = Buffer::with_text("hello world");
    b.insert(5, ", there");
    assert_eq!(b.to_string(), "hello, there world");
    assert!(b.is_dirty());
    assert!(b.can_undo());
    assert!(!b.can_redo());
}

#[test]
fn insert_then_undo_restores_content_and_cursor() {
    let mut b = Buffer::with_text("hello world");
    b.insert(5, ", there");
    assert_eq!(b.undo(), Some(5));
    assert_eq!(b.to_string(), "hello world");
    assert!(!b.can_undo());
    assert!(b.can_redo());
}

#[test]
fn remove_captures_the_removed_slice() {
    let mut b = Buffer::with_text("hello world");
    b.remove(2..5);
    assert_eq!(b.to_string(), "he world");
    assert!(b.is_dirty());
}

#[test]
fn remove_then_undo_restores_content_and_cursor() {
    let mut b = Buffer::with_text("hello world");
    b.remove(2..5);
    assert_eq!(b.undo(), Some(2));
    assert_eq!(b.to_string(), "hello world");
}

#[test]
fn undo_then_redo_restores_content_exactly() {
    let mut b = Buffer::with_text("hello world");
    b.insert(5, ", there");
    let edited = b.to_string();
    b.undo();
    assert_eq!(b.redo(), Some(5 + ", there".len()));
    assert_eq!(b.to_string(), edited);

    b.remove(0..5);
    let cut = b.to_string();
    b.undo();
    assert_eq!(b.redo(), Some(0));
    assert_eq!(b.to_string(), cut);
}

#[test]
fn repeated_undo_redo_cycles_are_stable() {
    let mut b = Buffer::with_text("ab");
    b.insert(2, "c");
    for _ in 0..3 {
        assert_eq!(b.undo(), Some(2));
        assert_eq!(b.to_string(), "ab");
        assert_eq!(b.redo(), Some(3));
        assert_eq!(b.to_string(), "abc");
    }
}

#[test]
fn new_edit_clears_redo_history() {
    let mut b = Buffer::with_text("hello");
    b.insert(5, " world");
    b.undo();
    assert!(b.can_redo());
    b.insert(5, "!");
    assert!(!b.can_redo());
    assert_eq!(b.redo(), None);
    assert_eq!(b.to_string(), "hello!");
}

#[test]
fn undo_redo_on_empty_history_are_no_ops() {
    let mut b = Buffer::with_text("abc");
    assert_eq!(b.undo(), None);
    assert_eq!(b.redo(), None);
    assert_eq!(b.to_string(), "abc");
    assert!(!b.is_dirty());
}

#[test]
fn scenario_insert_remove_undo_undo_redo_redo() {
    let mut b = Buffer::new();
    b.insert(0, "hello");
    assert_eq!(b.to_string(), "hello");
    b.remove(0..1);
    assert_eq!(b.to_string(), "ello");
    assert_eq!(b.undo(), Some(0));
    assert_eq!(b.to_string(), "hello");
    assert_eq!(b.undo(), Some(0));
    assert_eq!(b.to_string(), "");
    assert!(!b.can_undo());
    assert_eq!(b.redo(), Some(5));
    assert_eq!(b.redo(), Some(0));
    assert_eq!(b.to_string(), "ello");
}

#[test]
fn dirty_rises_on_edits_and_falls_only_on_save() {
    let mut b = Buffer::with_text("abc");
    assert!(!b.is_dirty());
    b.insert(3, "d");
    assert!(b.is_dirty());
    b.undo();
    assert!(b.is_dirty());
    b.mark_saved(String::from("/tmp/x.txt"));
    assert!(!b.is_dirty());
    b.remove(0..1);
    assert!(b.is_dirty());
}

#[test]
fn save_path_without_a_path_is_an_error_and_changes_nothing() {
    let b = Buffer::with_text("abc");
    assert_eq!(b.save_path(), Err(NoPathError));
    assert_eq!(b.to_string(), "abc");
    assert!(!b.is_dirty());
}

#[test]
fn mark_saved_associates_the_path() {
    let mut b = Buffer::with_text("abc");
    b.insert(3, "d");
    assert!(b.is_dirty());
    b.mark_saved(String::from("/tmp/x.txt"));
    assert!(!b.is_dirty());
    assert_eq!(b.file_path(), Some(String::from("/tmp/x.txt")));
    assert_eq!(b.save_path(), Ok(String::from("/tmp/x.txt")));
    assert_eq!(b.to_string(), "abcd");
}

#[test]
fn loaded_buffer_is_clean_with_path() {
    let b = Buffer::loaded(String::from("/tmp/notes.txt"), "one\ntwo\n");
    assert_eq!(b.to_string(), "one\ntwo\n");
    assert!(!b.is_dirty());
    assert_eq!(b.file_path(), Some(String::from("/tmp/notes.txt")));
    assert!(!b.can_undo());
}

#[test]
fn reload_is_a_hard_reset() {
    let mut b = Buffer::loaded(String::from("/tmp/a.txt"), "one");
    b.insert(3, "!");
    b.undo();
    assert!(b.can_redo());
    b.reload(String::from("/tmp/b.txt"), "two");
    assert_eq!(b.to_string(), "two");
    assert!(!b.is_dirty());
    assert_eq!(b.file_path(), Some(String::from("/tmp/b.txt")));
    assert!(!b.can_undo());
    assert!(!b.can_redo());
}

#[test]
fn set_text_replaces_content_and_clears_history() {
    let mut b = Buffer::with_text("hello");
    b.insert(5, " world");
    b.set_text("fresh");
    assert_eq!(b.to_string(), "fresh");
    assert!(b.is_dirty());
    assert!(!b.can_undo());
    assert!(!b.can_redo());
    assert_eq!(b.undo(), None);
}

#[test]
fn insert_char_inserts_one_char() {
    let mut b = Buffer::new();
    b.insert_char(0, 'a');
    b.insert_char(1, 'b');
    b.insert_char(1, '\n');
    assert_eq!(b.to_string(), "a\nb");
    assert_eq!(b.undo(), Some(1));
    assert_eq!(b.to_string(), "ab");
}

#[test]
fn multibyte_lengths_and_boundaries() {
    let b = Buffer::with_text("h\u{e9}llo");
    assert_eq!(b.len_bytes(), 6);
    assert_eq!(b.len_chars(), 5);
    assert!(b.is_char_boundary_at(0));
    assert!(b.is_char_boundary_at(1));
    assert!(!b.is_char_boundary_at(2));
    assert!(b.is_char_boundary_at(3));
    assert!(b.is_char_boundary_at(6));
    assert!(!b.is_char_boundary_at(7));
}

#[test]
fn multibyte_remove_and_undo() {
    let mut b = Buffer::with_text("h\u{e9}llo");
    b.remove(1..3);
    assert_eq!(b.to_string(), "hllo");
    assert_eq!(b.undo(), Some(1));
    assert_eq!(b.to_string(), "h\u{e9}llo");
}

#[test]
fn multibyte_insert_char_and_undo() {
    let mut b = Buffer::with_text("ab");
    b.insert_char(1, '\u{1f600}');
    assert_eq!(b.to_string(), "a\u{1f600}b");
    assert_eq!(b.len_bytes(), 6);
    assert_eq!(b.len_chars(), 3);
    assert_eq!(b.undo(), Some(1));
    assert_eq!(b.to_string(), "ab");
    assert_eq!(b.redo(), Some(5));
    assert_eq!(b.to_string(), "a\u{1f600}b");
}

#[test]
fn boundary_neighbours_step_one_char() {
    let b = Buffer::with_text("h\u{e9}llo");
    assert_eq!(b.prev_char_boundary(3), 1);
    assert_eq!(b.prev_char_boundary(1), 0);
    assert_eq!(b.next_char_boundary(0), 1);
    assert_eq!(b.next_char_boundary(1), 3);
    assert_eq!(b.next_char_boundary(5), 6);
}

#[test]
fn rope_getter_exposes_the_text() {
    let mut b = Buffer::with_text("hello");
    b.insert(5, " rope");
    assert_eq!(b.rope().to_string(), "hello rope");
    assert_eq!(b.rope().len_bytes(), 10);
}

#[test]
fn undo_reports_edit_offsets_in_the_middle() {
    let mut b = Buffer::with_text("abcdef");
    b.insert(3, "XY");
    b.remove(1..2);
    assert_eq!(b.undo(), Some(1));
    assert_eq!(b.to_string(), "abcXYdef");
    assert_eq!(b.undo(), Some(3));
    assert_eq!(b.to_string(), "abcdef");
}
