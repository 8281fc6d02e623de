use pound::render::{logical_to_rendered, render_line, rendered_to_logical};

fn chars(s: &str) -> Vec<char> {
    s.chars().collect()
}

#[test]
fn tab_renders_to_eight_spaces() {
    assert_eq!(render_line(&chars("\t")), chars("        "));
}

#[test]
fn tab_after_char_pads_to_next_stop() {
    assert_eq!(render_line(&chars("a\t")), chars("a       "));
}

#[test]
fn mixed_tabs_render_to_stops() {
    assert_eq!(render_line(&chars("ab\tc\td")), chars("ab      c       d"));
}

#[test]
fn plain_text_renders_unchanged() {
    assert_eq!(render_line(&chars("hello world")), chars("hello world"));
}

#[test]
fn empty_line_renders_empty() {
    assert_eq!(render_line(&chars("")), Vec::<char>::new());
}

#[test]
fn no_tabs_logical_equals_rendered() {
    let content = chars("hello");
    for k in 0..=5 {
        assert_eq!(logical_to_rendered(&content, k), k);
    }
}

#[test]
fn logical_to_rendered_sums_tab_widths() {
    let content = chars("a\tb");
    assert_eq!(logical_to_rendered(&content, 0), 0);
    assert_eq!(logical_to_rendered(&content, 1), 1);
    assert_eq!(logical_to_rendered(&content, 2), 8);
    assert_eq!(logical_to_rendered(&content, 3), 9);
}

#[test]
fn rendered_to_logical_round_trip() {
    let content = chars("a\tb\tc");
    for k in 0..=5 {
        let r = logical_to_rendered(&content, k);
        assert_eq!(rendered_to_logical(&content, r), k);
    }
}

#[test]
fn inside_tab_expansion_resolves_to_tab_column() {
    let content = chars("a\tb");
    for target in 1..8 {
        assert_eq!(rendered_to_logical(&content, target), 1);
    }
}

#[test]
fn beyond_rendered_width_resolves_to_line_length() {
    let content = chars("ab");
    assert_eq!(rendered_to_logical(&content, 99), 2);
}

#[test]
fn rendered_to_logical_on_empty_line_is_zero() {
    assert_eq!(rendered_to_logical(&chars(""), 5), 0);
}
