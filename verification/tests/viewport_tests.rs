use pound::buffer::LineBuffer;
use pound::viewport::{Direction, PageDirection, Viewport};

fn text(s: &str) -> Vec<char> {
    s.chars().collect()
}

fn buffer_of(lines: &[&str]) -> LineBuffer {
    LineBuffer::from_text(&text(&lines.join("\n")))
}

#[test]
fn left_at_column_zero_wraps_to_previous_line_end() {
    let b = buffer_of(&["abc", "de"]);
    let mut v = Viewport::new(10, 10);
    v.cursor_y = 1;
    v.move_cursor(Direction::Left, &b);
    assert_eq!((v.cursor_x, v.cursor_y), (3, 0));
}

#[test]
fn left_at_origin_stays_put() {
    let b = buffer_of(&["abc"]);
    let mut v = Viewport::new(10, 10);
    v.move_cursor(Direction::Left, &b);
    assert_eq!((v.cursor_x, v.cursor_y), (0, 0));
}

#[test]
fn right_at_line_end_wraps_to_next_line_start() {
    let b = buffer_of(&["abc", "de"]);
    let mut v = Viewport::new(10, 10);
    v.cursor_x = 3;
    v.move_cursor(Direction::Right, &b);
    assert_eq!((v.cursor_x, v.cursor_y), (0, 1));
}

#[test]
fn up_onto_shorter_line_clamps_column() {
    let b = buffer_of(&["ab", "abcdef"]);
    let mut v = Viewport::new(10, 10);
    v.cursor_y = 1;
    v.cursor_x = 5;
    v.move_cursor(Direction::Up, &b);
    assert_eq!((v.cursor_x, v.cursor_y), (2, 0));
}

#[test]
fn down_saturates_at_virtual_row() {
    let b = buffer_of(&["a"]);
    let mut v = Viewport::new(10, 10);
    v.move_cursor(Direction::Down, &b);
    assert_eq!(v.cursor_y, 1);
    v.move_cursor(Direction::Down, &b);
    assert_eq!(v.cursor_y, 1);
}

#[test]
fn home_and_end_jump_within_line() {
    let b = buffer_of(&["abcdef"]);
    let mut v = Viewport::new(10, 10);
    v.move_cursor(Direction::End, &b);
    assert_eq!(v.cursor_x, 6);
    v.move_cursor(Direction::Home, &b);
    assert_eq!(v.cursor_x, 0);
}

#[test]
fn scroll_moves_window_down_to_cursor() {
    let b = buffer_of(&["x"; 20]);
    let mut v = Viewport::new(5, 10);
    v.cursor_y = 12;
    v.scroll(&b);
    assert_eq!(v.row_offset, 8);
    assert!(v.row_offset <= v.cursor_y && v.cursor_y < v.row_offset + v.screen_rows);
}

#[test]
fn scroll_moves_window_back_up_to_cursor() {
    let b = buffer_of(&["x"; 20]);
    let mut v = Viewport::new(5, 10);
    v.row_offset = 9;
    v.cursor_y = 2;
    v.scroll(&b);
    assert_eq!(v.row_offset, 2);
}

#[test]
fn scroll_keeps_window_when_cursor_visible() {
    let b = buffer_of(&["x"; 20]);
    let mut v = Viewport::new(5, 10);
    v.row_offset = 3;
    v.cursor_y = 5;
    v.scroll(&b);
    assert_eq!(v.row_offset, 3);
}

#[test]
fn scroll_follows_cursor_horizontally() {
    let b = buffer_of(&["abcdefghijklmnop"]);
    let mut v = Viewport::new(5, 4);
    v.cursor_x = 9;
    v.scroll(&b);
    assert_eq!(v.render_x, 9);
    assert_eq!(v.column_offset, 6);
    assert!(v.column_offset <= v.render_x && v.render_x < v.column_offset + v.screen_columns);
}

#[test]
fn scroll_derives_rendered_column_from_tabs() {
    let b = buffer_of(&["\tabc"]);
    let mut v = Viewport::new(5, 4);
    v.cursor_x = 1;
    v.scroll(&b);
    assert_eq!(v.render_x, 8);
    assert_eq!(v.column_offset, 5);
}

#[test]
fn page_up_jumps_to_window_top() {
    let b = buffer_of(&["x"; 30]);
    let mut v = Viewport::new(10, 10);
    v.cursor_y = 17;
    v.scroll(&b);
    v.page_move(PageDirection::Up, &b);
    assert_eq!(v.cursor_y, v.row_offset);
}

#[test]
fn page_down_jumps_to_window_bottom_clamped() {
    let b = buffer_of(&["x"; 30]);
    let mut v = Viewport::new(10, 10);
    v.row_offset = 5;
    v.page_move(PageDirection::Down, &b);
    assert_eq!(v.cursor_y, 14);
    v.row_offset = 25;
    v.page_move(PageDirection::Down, &b);
    assert_eq!(v.cursor_y, 30);
}
