use pound::buffer::LineBuffer;
use pound::editor::Editor;
use pound::search::SearchKey;
use pound::viewport::Direction;

fn text(s: &str) -> Vec<char> {
    s.chars().collect()
}

fn editor_of(content: &str, rows: usize, cols: usize) -> Editor {
    Editor::open(LineBuffer::from_text(&text(content)), rows, cols)
}

fn row(e: &Editor, at: usize) -> String {
    e.buffer.row_text(at).iter().collect()
}

#[test]
fn typing_into_empty_buffer_creates_a_line() {
    let mut e = Editor::new(10, 10);
    e.insert_char('h');
    e.insert_char('i');
    assert_eq!(e.buffer.line_count(), 1);
    assert_eq!(row(&e, 0), "hi");
    assert_eq!((e.view.cursor_x, e.view.cursor_y), (2, 0));
}

#[test]
fn newline_splits_the_current_line() {
    let mut e = editor_of("ab", 10, 10);
    e.move_cursor(Direction::Right);
    e.insert_newline();
    assert_eq!(e.buffer.line_count(), 2);
    assert_eq!(row(&e, 0), "a");
    assert_eq!(row(&e, 1), "b");
    assert_eq!((e.view.cursor_x, e.view.cursor_y), (0, 1));
}

#[test]
fn newline_at_virtual_row_appends_empty_line() {
    let mut e = editor_of("a", 10, 10);
    e.move_cursor(Direction::Down);
    assert_eq!(e.view.cursor_y, 1);
    e.insert_newline();
    assert_eq!(e.buffer.line_count(), 2);
    assert_eq!(row(&e, 1), "");
}

#[test]
fn delete_backward_removes_left_of_cursor() {
    let mut e = editor_of("abc", 10, 10);
    e.move_cursor(Direction::Right);
    e.move_cursor(Direction::Right);
    e.delete_backward();
    assert_eq!(row(&e, 0), "ac");
    assert_eq!(e.view.cursor_x, 1);
}

#[test]
fn delete_backward_at_line_start_joins_lines() {
    let mut e = editor_of("ab\ncd", 10, 10);
    e.move_cursor(Direction::Down);
    assert_eq!((e.view.cursor_x, e.view.cursor_y), (0, 1));
    e.delete_backward();
    assert_eq!(e.buffer.line_count(), 1);
    assert_eq!(row(&e, 0), "abcd");
    assert_eq!((e.view.cursor_x, e.view.cursor_y), (2, 0));
}

#[test]
fn delete_forward_removes_under_cursor() {
    let mut e = editor_of("abc", 10, 10);
    e.delete_forward();
    assert_eq!(row(&e, 0), "bc");
    assert_eq!((e.view.cursor_x, e.view.cursor_y), (0, 0));
}

#[test]
fn delete_forward_at_line_end_joins_next_line() {
    let mut e = editor_of("ab\ncd", 10, 10);
    e.move_cursor(Direction::End);
    e.delete_forward();
    assert_eq!(e.buffer.line_count(), 1);
    assert_eq!(row(&e, 0), "abcd");
    assert_eq!((e.view.cursor_x, e.view.cursor_y), (2, 0));
}

#[test]
fn insert_then_delete_restores_line_and_column() {
    let mut e = editor_of("hello", 10, 10);
    e.move_cursor(Direction::Right);
    e.move_cursor(Direction::Right);
    e.insert_char('X');
    e.delete_backward();
    assert_eq!(row(&e, 0), "hello");
    assert_eq!((e.view.cursor_x, e.view.cursor_y), (2, 0));
}

#[test]
fn split_then_join_restores_the_line() {
    let mut e = editor_of("hello world", 10, 10);
    for _ in 0..5 {
        e.move_cursor(Direction::Right);
    }
    e.insert_newline();
    e.delete_backward();
    assert_eq!(e.buffer.line_count(), 1);
    assert_eq!(row(&e, 0), "hello world");
    assert_eq!((e.view.cursor_x, e.view.cursor_y), (5, 0));
}

#[test]
fn cancel_search_restores_saved_cursor() {
    let mut e = editor_of("hello\nworld", 10, 40);
    e.start_search();
    e.search.keystroke(SearchKey::Other, &text("world"), &e.buffer, &mut e.view);
    assert_eq!((e.view.cursor_y, e.view.cursor_x), (1, 0));
    e.cancel_search();
    assert_eq!((e.view.cursor_y, e.view.cursor_x), (0, 0));
    assert!(e.saved_view.is_none());
}

#[test]
fn accept_search_keeps_cursor_on_match() {
    let mut e = editor_of("hello\nworld", 10, 40);
    e.start_search();
    e.search.keystroke(SearchKey::Other, &text("world"), &e.buffer, &mut e.view);
    e.accept_search();
    assert_eq!((e.view.cursor_y, e.view.cursor_x), (1, 0));
    assert_eq!((e.search.y_index, e.search.x_index), (0, 0));
}

#[test]
fn visible_row_clamps_to_window() {
    let mut e = editor_of("abcdef", 10, 3);
    e.view.column_offset = 2;
    assert_eq!(e.visible_row(0), Some(text("cde")));
    assert_eq!(e.visible_row(1), None);
}

#[test]
fn visible_row_past_line_end_is_empty() {
    let mut e = editor_of("ab", 10, 3);
    e.view.column_offset = 5;
    assert_eq!(e.visible_row(0), Some(Vec::new()));
}

#[test]
fn visible_row_shows_rendered_tabs() {
    let e = editor_of("\tz", 10, 12);
    assert_eq!(e.visible_row(0), Some(text("        z")));
}

#[test]
fn cursor_screen_position_is_window_relative() {
    let mut e = editor_of("x\ny\nz", 10, 10);
    e.view.cursor_y = 2;
    e.view.cursor_x = 1;
    e.scroll();
    let (col, row) = e.cursor_screen_position();
    assert_eq!((col, row), (1, 2));
}

#[test]
fn page_moves_track_window_edges() {
    let mut e = editor_of(&"x\n".repeat(30), 10, 10);
    e.view.cursor_y = 17;
    e.scroll();
    e.page_move(pound::viewport::PageDirection::Up);
    assert_eq!(e.view.cursor_y, e.view.row_offset);
    e.page_move(pound::viewport::PageDirection::Down);
    assert_eq!(e.view.cursor_y, e.view.row_offset + 9);
}

#[test]
fn dirty_flag_follows_edits_and_save() {
    let mut e = editor_of("a", 10, 10);
    assert_eq!(e.buffer.dirty(), 0);
    e.insert_char('b');
    assert!(e.buffer.dirty() > 0);
    e.buffer.set_path("f.txt".to_string());
    assert!(e.buffer.save_content().is_ok());
    e.buffer.mark_saved();
    assert_eq!(e.buffer.dirty(), 0);
}
