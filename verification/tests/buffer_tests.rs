use pound::buffer::{EditorError, LineBuffer};

fn text(s: &str) -> Vec<char> {
    s.chars().collect()
}

fn row(buffer: &LineBuffer, at: usize) -> String {
    buffer.row_text(at).iter().collect()
}

#[test]
fn load_splits_on_line_boundaries() {
    let b = LineBuffer::from_text(&text("a\nb\nc"));
    assert_eq!(b.line_count(), 3);
    assert_eq!(row(&b, 0), "a");
    assert_eq!(row(&b, 1), "b");
    assert_eq!(row(&b, 2), "c");
}

#[test]
fn load_trailing_newline_yields_no_phantom_line() {
    let b = LineBuffer::from_text(&text("a\nb\n"));
    assert_eq!(b.line_count(), 2);
    assert_eq!(row(&b, 0), "a");
    assert_eq!(row(&b, 1), "b");
}

#[test]
fn load_empty_text_yields_zero_lines() {
    let b = LineBuffer::from_text(&text(""));
    assert_eq!(b.line_count(), 0);
}

#[test]
fn load_lone_newline_yields_one_empty_line() {
    let b = LineBuffer::from_text(&text("\n"));
    assert_eq!(b.line_count(), 1);
    assert_eq!(row(&b, 0), "");
}

#[test]
fn load_save_round_trip_is_byte_identical() {
    let mut b = LineBuffer::from_text(&text("a\nb\nc"));
    b.set_path("notes.txt".to_string());
    let saved = b.save_content().unwrap();
    assert_eq!(saved, text("a\nb\nc"));
}

#[test]
fn save_without_path_reports_no_file_name() {
    let b = LineBuffer::from_text(&text("a"));
    assert_eq!(b.save_content().unwrap_err(), EditorError::NoFileName);
}

#[test]
fn save_after_set_path_succeeds() {
    let mut b = LineBuffer::new();
    assert!(!b.has_path());
    b.set_path("out.txt".to_string());
    assert!(b.has_path());
    assert!(b.save_content().is_ok());
}

#[test]
fn serialize_joins_lines_without_final_newline() {
    let b = LineBuffer::from_text(&text("one\ntwo"));
    let s: String = b.serialize().iter().collect();
    assert_eq!(s, "one\ntwo");
}

#[test]
fn serialize_empty_buffer_is_empty() {
    let b = LineBuffer::new();
    assert_eq!(b.serialize(), Vec::<char>::new());
}

#[test]
fn insert_then_delete_restores_line_content() {
    let mut b = LineBuffer::from_text(&text("hello"));
    b.insert_char(0, 2, 'X');
    assert_eq!(row(&b, 0), "heXllo");
    b.delete_char(0, 3);
    assert_eq!(row(&b, 0), "hello");
}

#[test]
fn split_then_join_restores_line_content() {
    let mut b = LineBuffer::from_text(&text("hello world"));
    b.split_line(0, 5);
    assert_eq!(b.line_count(), 2);
    assert_eq!(row(&b, 0), "hello");
    assert_eq!(row(&b, 1), " world");
    b.delete_char(1, 0);
    assert_eq!(b.line_count(), 1);
    assert_eq!(row(&b, 0), "hello world");
}

#[test]
fn split_at_column_zero_leaves_empty_line_above() {
    let mut b = LineBuffer::from_text(&text("abc"));
    b.split_line(0, 0);
    assert_eq!(b.line_count(), 2);
    assert_eq!(row(&b, 0), "");
    assert_eq!(row(&b, 1), "abc");
}

#[test]
fn delete_at_origin_does_nothing() {
    let mut b = LineBuffer::from_text(&text("abc"));
    let dirty_before = b.dirty();
    b.delete_char(0, 0);
    assert_eq!(b.line_count(), 1);
    assert_eq!(row(&b, 0), "abc");
    assert_eq!(b.dirty(), dirty_before);
}

#[test]
fn insert_at_virtual_row_appends_fresh_line() {
    let mut b = LineBuffer::new();
    b.insert_char(0, 0, 'x');
    assert_eq!(b.line_count(), 1);
    assert_eq!(row(&b, 0), "x");
}

#[test]
fn insert_line_shifts_following_lines_down() {
    let mut b = LineBuffer::from_text(&text("a\nc"));
    b.insert_line(1, text("b"));
    assert_eq!(b.line_count(), 3);
    assert_eq!(row(&b, 1), "b");
    assert_eq!(row(&b, 2), "c");
}

#[test]
fn dirty_counts_edits_and_save_resets_it() {
    let mut b = LineBuffer::from_text(&text("ab"));
    assert_eq!(b.dirty(), 0);
    b.insert_char(0, 0, 'x');
    assert_eq!(b.dirty(), 1);
    b.delete_char(0, 1);
    assert_eq!(b.dirty(), 2);
    b.mark_saved();
    assert_eq!(b.dirty(), 0);
}

#[test]
fn rendered_cache_expands_tabs_after_edit() {
    let mut b = LineBuffer::from_text(&text("x"));
    b.insert_char(0, 0, '\t');
    let rendered: String = b.rendered_row(0).iter().collect();
    assert_eq!(rendered, "        x");
}
