use pound::buffer::LineBuffer;
use pound::search::{find_from, rfind_within, ScanDirection, SearchKey, SearchState};
use pound::viewport::Viewport;

fn text(s: &str) -> Vec<char> {
    s.chars().collect()
}

fn buffer_of(lines: &[&str]) -> LineBuffer {
    LineBuffer::from_text(&text(&lines.join("\n")))
}

#[test]
fn find_from_returns_first_occurrence() {
    let t = text("abcabc");
    let p = text("bc");
    assert_eq!(find_from(&t, &p, 0), Some(1));
    assert_eq!(find_from(&t, &p, 2), Some(4));
    assert_eq!(find_from(&t, &p, 5), None);
}

#[test]
fn find_from_empty_pattern_matches_at_start() {
    let t = text("abc");
    assert_eq!(find_from(&t, &text(""), 0), Some(0));
    assert_eq!(find_from(&t, &text(""), 2), Some(2));
}

#[test]
fn rfind_within_returns_last_occurrence_before_end() {
    let t = text("abcabc");
    let p = text("bc");
    assert_eq!(rfind_within(&t, &p, 6), Some(4));
    assert_eq!(rfind_within(&t, &p, 4), Some(1));
    assert_eq!(rfind_within(&t, &p, 2), None);
}

#[test]
fn search_scenario_steps_rows_both_ways() {
    let b = buffer_of(&["hello world", "goodbye world"]);
    let mut v = Viewport::new(10, 40);
    let mut s = SearchState::new();
    let q = text("world");

    s.keystroke(SearchKey::Other, &q, &b, &mut v);
    assert_eq!((v.cursor_y, v.cursor_x), (0, 6));
    assert_eq!((s.y_index, s.x_index), (0, 6));

    s.keystroke(SearchKey::Down, &q, &b, &mut v);
    assert_eq!((v.cursor_y, v.cursor_x), (1, 8));
    assert_eq!((s.y_index, s.x_index), (1, 8));

    s.keystroke(SearchKey::Up, &q, &b, &mut v);
    assert_eq!((v.cursor_y, v.cursor_x), (0, 6));
    assert_eq!((s.y_index, s.x_index), (0, 6));
}

#[test]
fn search_sets_direction_flags_per_key() {
    let b = buffer_of(&["a"]);
    let mut v = Viewport::new(10, 40);
    let mut s = SearchState::new();
    let q = text("a");
    s.keystroke(SearchKey::Down, &q, &b, &mut v);
    assert_eq!(s.y_direction, ScanDirection::Forward);
    assert_eq!(s.x_direction, ScanDirection::Neutral);
    s.keystroke(SearchKey::Left, &q, &b, &mut v);
    assert_eq!(s.x_direction, ScanDirection::Backward);
    assert_eq!(s.y_direction, ScanDirection::Neutral);
}

#[test]
fn search_without_match_leaves_state_sticky() {
    let b = buffer_of(&["hello world", "goodbye world"]);
    let mut v = Viewport::new(10, 40);
    let mut s = SearchState::new();
    s.keystroke(SearchKey::Other, &text("world"), &b, &mut v);
    assert_eq!((v.cursor_y, v.cursor_x), (0, 6));
    s.keystroke(SearchKey::Other, &text("worldz"), &b, &mut v);
    assert_eq!((v.cursor_y, v.cursor_x), (0, 6));
    assert_eq!((s.y_index, s.x_index), (0, 6));
}

#[test]
fn search_forward_past_last_match_is_sticky() {
    let b = buffer_of(&["world", "world"]);
    let mut v = Viewport::new(10, 40);
    let mut s = SearchState::new();
    let q = text("world");
    s.keystroke(SearchKey::Other, &q, &b, &mut v);
    s.keystroke(SearchKey::Down, &q, &b, &mut v);
    assert_eq!(s.y_index, 1);
    s.keystroke(SearchKey::Down, &q, &b, &mut v);
    assert_eq!(s.y_index, 1);
    assert_eq!(v.cursor_y, 1);
}

#[test]
fn search_steps_within_row_both_ways() {
    let b = buffer_of(&["a b a b"]);
    let mut v = Viewport::new(10, 40);
    let mut s = SearchState::new();
    let q = text("b");

    s.keystroke(SearchKey::Other, &q, &b, &mut v);
    assert_eq!((s.y_index, s.x_index), (0, 2));

    s.keystroke(SearchKey::Right, &q, &b, &mut v);
    assert_eq!((s.y_index, s.x_index), (0, 6));

    s.keystroke(SearchKey::Right, &q, &b, &mut v);
    assert_eq!((s.y_index, s.x_index), (0, 6));

    s.keystroke(SearchKey::Left, &q, &b, &mut v);
    assert_eq!((s.y_index, s.x_index), (0, 2));

    s.keystroke(SearchKey::Left, &q, &b, &mut v);
    assert_eq!((s.y_index, s.x_index), (0, 2));
}

#[test]
fn search_match_in_rendered_space_converts_to_logical_column() {
    let b = buffer_of(&["\tworld"]);
    let mut v = Viewport::new(10, 40);
    let mut s = SearchState::new();
    s.keystroke(SearchKey::Other, &text("world"), &b, &mut v);
    assert_eq!(s.x_index, 8);
    assert_eq!(v.cursor_x, 1);
}

#[test]
fn search_match_invalidates_row_offset() {
    let b = buffer_of(&["hello"]);
    let mut v = Viewport::new(10, 40);
    let mut s = SearchState::new();
    s.keystroke(SearchKey::Other, &text("hello"), &b, &mut v);
    assert_eq!(v.row_offset, b.line_count());
    v.scroll(&b);
    assert!(v.row_offset <= v.cursor_y && v.cursor_y < v.row_offset + v.screen_rows);
}

#[test]
fn enter_and_escape_reset_search_state() {
    let b = buffer_of(&["hello"]);
    let mut v = Viewport::new(10, 40);
    let mut s = SearchState::new();
    s.keystroke(SearchKey::Other, &text("llo"), &b, &mut v);
    let cursor = (v.cursor_y, v.cursor_x);
    s.keystroke(SearchKey::Enter, &text("llo"), &b, &mut v);
    assert_eq!((s.y_index, s.x_index), (0, 0));
    assert_eq!(s.x_direction, ScanDirection::Neutral);
    assert_eq!(s.y_direction, ScanDirection::Neutral);
    assert_eq!((v.cursor_y, v.cursor_x), cursor);
}
