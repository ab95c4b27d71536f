use rat_widget_core::textarea_core::{StyledRange, TextAreaCore, TextPosition, TextRange};

fn pos(x: usize, y: usize) -> TextPosition {
    TextPosition::new(x, y)
}

fn area(text: &str) -> TextAreaCore {
    let mut c = TextAreaCore::new();
    c.set_value(text);
    c
}

#[test]
fn char_at_counts_graphemes() {
    let c = area("ab\ncd");
    assert_eq!(c.char_at(pos(0, 0)), Some(0));
    assert_eq!(c.char_at(pos(2, 0)), Some(2));
    assert_eq!(c.char_at(pos(3, 0)), None);
    assert_eq!(c.char_at(pos(1, 1)), Some(4));
    assert_eq!(c.char_at(pos(2, 1)), Some(5));
    assert_eq!(c.char_at(pos(3, 1)), None);
    let c = area("e\u{301}x");
    assert_eq!(c.char_at(pos(1, 0)), Some(2));
}

#[test]
fn line_width_excludes_the_line_break() {
    let c = area("ab\r\ncde\n");
    assert_eq!(c.line_width(0), Some(2));
    assert_eq!(c.line_width(1), Some(3));
    assert_eq!(c.line_width(2), Some(0));
    assert_eq!(c.line_width(3), Some(0));
    assert_eq!(c.line_width(4), None);
    assert_eq!(area("e\u{301}x").line_width(0), Some(2));
}

#[test]
fn cursor_is_capped_to_the_text() {
    let mut c = area("ab\ncd");
    assert!(c.set_cursor(pos(10, 5), false));
    assert_eq!(c.cursor(), pos(2, 1));
    assert_eq!(c.anchor(), pos(2, 1));
    assert!(c.set_cursor(pos(1, 0), true));
    assert_eq!(c.anchor(), pos(2, 1));
    assert_eq!(c.selection(), TextRange::new(pos(1, 0), pos(2, 1)));
    assert!(!c.set_cursor(pos(1, 0), true));
    assert!(!c.set_cursor(pos(1, 0), false));
    assert_eq!(c.anchor(), pos(1, 0));
    assert!(!c.has_selection());
}

#[test]
fn select_all_spans_the_text() {
    let mut c = area("ab\ncde");
    assert!(c.select_all());
    assert_eq!(c.selection(), TextRange::new(pos(0, 0), pos(3, 1)));
    assert!(!c.select_all());
    assert!(c.set_selection(TextRange::new(pos(1, 0), pos(1, 1))));
    assert_eq!(c.anchor(), pos(1, 0));
    assert_eq!(c.cursor(), pos(1, 1));
}

#[test]
fn insert_moves_cursor_and_styles() {
    let mut c = area("hello");
    c.set_cursor(pos(5, 0), false);
    c.add_style(TextRange::new(pos(1, 0), pos(4, 0)), 7);
    c.insert_str(pos(0, 0), "XY");
    assert_eq!(c.value(), "XYhello");
    assert_eq!(c.cursor(), pos(7, 0));
    assert_eq!(c.styles(), &[StyledRange { range: TextRange::new(pos(3, 0), pos(6, 0)), style: 7 }]);
}

#[test]
fn insert_with_line_breaks() {
    let mut c = area("hello");
    c.set_cursor(pos(5, 0), false);
    c.insert_str(pos(2, 0), "a\nb");
    assert_eq!(c.value(), "hea\nbllo");
    assert_eq!(c.cursor(), pos(4, 1));
    assert_eq!(c.len_lines(), 2);
}

#[test]
fn insert_at_the_end_of_the_text() {
    let mut c = area("ab");
    c.insert_str(pos(2, 0), "x");
    assert_eq!(c.value(), "abx");
    assert!(c.undo());
    assert_eq!(c.value(), "ab");
    assert!(!c.undo());
}

#[test]
fn remove_range_removes_and_reports() {
    let mut c = area("hello world");
    c.add_style(TextRange::new(pos(0, 0), pos(5, 0)), 1);
    c.add_style(TextRange::new(pos(6, 0), pos(11, 0)), 2);
    c.set_cursor(pos(11, 0), false);
    assert!(c.remove_range(TextRange::new(pos(0, 0), pos(6, 0))));
    assert_eq!(c.value(), "world");
    assert_eq!(c.cursor(), pos(5, 0));
    assert_eq!(c.styles(), &[StyledRange { range: TextRange::new(pos(0, 0), pos(5, 0)), style: 2 }]);
    assert!(!c.remove_range(TextRange::new(pos(2, 0), pos(2, 0))));
    assert_eq!(c.value(), "world");
}

#[test]
fn undo_and_redo_replay_the_edits() {
    let mut c = area("hello");
    c.set_cursor(pos(5, 0), false);
    c.insert_str(pos(5, 0), " world");
    assert_eq!(c.value(), "hello world");
    assert!(c.remove_range(TextRange::new(pos(0, 0), pos(6, 0))));
    assert_eq!(c.value(), "world");
    assert!(c.undo());
    assert_eq!(c.value(), "hello world");
    assert!(c.undo());
    assert_eq!(c.value(), "hello");
    assert_eq!(c.cursor(), pos(5, 0));
    assert!(!c.undo());
    assert!(c.redo());
    assert_eq!(c.value(), "hello world");
    assert_eq!(c.cursor(), pos(11, 0));
    assert!(c.redo());
    assert_eq!(c.value(), "world");
    assert!(!c.redo());
}

#[test]
fn remove_prev_and_next_char_join_lines() {
    let mut c = area("ab\ncd");
    assert!(c.remove_prev_char(pos(0, 1)));
    assert_eq!(c.value(), "abcd");
    let mut c = area("ab\ncd");
    assert!(c.remove_next_char(pos(2, 0)));
    assert_eq!(c.value(), "abcd");
    assert!(c.remove_next_char(pos(0, 0)));
    assert_eq!(c.value(), "bcd");
    assert!(!c.remove_next_char(pos(3, 0)));
    assert!(!c.remove_prev_char(pos(0, 0)));
}

#[test]
fn tabs_and_newlines_are_inserted_as_chars() {
    let mut c = area("abc");
    c.insert_tab(pos(3, 0));
    assert_eq!(c.value(), "abc     ");
    c.set_expand_tabs(false);
    c.insert_tab(pos(0, 0));
    assert_eq!(c.value(), "\tabc     ");
    let mut c = area("ab");
    c.insert_newline(pos(1, 0));
    assert_eq!(c.value(), "a\nb");
    c.insert_char(pos(0, 1), 'x');
    assert_eq!(c.value(), "a\nxb");
}

#[test]
fn char_pos_finds_row_and_grapheme() {
    let c = area("ab\ncd");
    assert_eq!(c.char_pos(0), Some(pos(0, 0)));
    assert_eq!(c.char_pos(2), Some(pos(2, 0)));
    assert_eq!(c.char_pos(4), Some(pos(1, 1)));
    assert_eq!(c.char_pos(5), Some(pos(2, 1)));
    assert_eq!(c.char_pos(6), None);
    let c = area("e\u{301}x");
    assert_eq!(c.char_pos(1), Some(pos(0, 0)));
    assert_eq!(c.char_pos(2), Some(pos(1, 0)));
    assert_eq!(c.char_pos(3), Some(pos(2, 0)));
}

#[test]
fn lines_and_slices_of_the_text() {
    let c = area("ab\ncd");
    assert_eq!(c.line_at(0), Some("ab\n".to_string()));
    assert_eq!(c.line_at(1), Some("cd".to_string()));
    assert_eq!(c.line_at(2), None);
    assert_eq!(
        c.line_graphemes(0),
        Some(vec!["a".to_string(), "b".to_string(), "\n".to_string()])
    );
    assert_eq!(c.line_graphemes(2), None);
    assert_eq!(
        c.text_slice(TextRange::new(pos(1, 0), pos(1, 1))),
        Some("b\nc".to_string())
    );
    assert_eq!(c.text_slice(TextRange::new(pos(2, 1), pos(2, 1))), Some(String::new()));
    assert_eq!(c.text_slice(TextRange::new(pos(0, 0), pos(5, 0))), None);
}

#[test]
fn byte_positions_follow_utf8() {
    let c = area("a\u{e9}\ncd");
    assert_eq!(c.byte_at(pos(0, 0)), Some(0..1));
    assert_eq!(c.byte_at(pos(1, 0)), Some(1..3));
    assert_eq!(c.byte_at(pos(2, 0)), Some(3..4));
    assert_eq!(c.byte_at(pos(3, 0)), None);
    assert_eq!(c.byte_at(pos(2, 1)), Some(6..6));
    assert_eq!(c.byte_at(pos(3, 1)), None);
    assert_eq!(c.byte_pos(0), Some(pos(0, 0)));
    assert_eq!(c.byte_pos(1), Some(pos(1, 0)));
    assert_eq!(c.byte_pos(2), Some(pos(1, 0)));
    assert_eq!(c.byte_pos(3), Some(pos(2, 0)));
    assert_eq!(c.byte_pos(4), Some(pos(0, 1)));
    assert_eq!(c.byte_pos(6), Some(pos(2, 1)));
    assert_eq!(c.byte_pos(7), None);
    let c = area("e\u{301}");
    assert_eq!(c.byte_pos(1), Some(pos(0, 0)));
    assert_eq!(c.byte_pos(2), Some(pos(0, 0)));
    assert_eq!(c.byte_pos(3), Some(pos(1, 0)));
}

#[test]
fn chars_of_the_text_and_its_lines() {
    let c = area("ab\ncd");
    assert_eq!(c.chars(), vec!['a', 'b', '\n', 'c', 'd']);
    assert_eq!(c.line_chars(0), Some(vec!['a', 'b', '\n']));
    assert_eq!(c.line_chars(1), Some(vec!['c', 'd']));
    assert_eq!(c.line_chars(2), None);
    assert_eq!(c.char_slice(1..4), "b\nc".to_string());
    assert_eq!(c.char_slice(5..5), String::new());
}

#[test]
fn bytes_of_the_text_and_its_lines() {
    let c = area("a\u{e9}\ncd");
    assert_eq!(c.bytes(), vec![0x61, 0xC3, 0xA9, 0x0A, 0x63, 0x64]);
    assert_eq!(c.line_bytes(0), Some(vec![0x61, 0xC3, 0xA9, 0x0A]));
    assert_eq!(c.line_bytes(1), Some(vec![0x63, 0x64]));
    assert_eq!(c.line_bytes(2), None);
    assert_eq!(c.byte_slice(1..4), "\u{e9}\n".to_string());
    assert_eq!(c.byte_slice(0..6), "a\u{e9}\ncd".to_string());
    assert_eq!(c.byte_slice(6..6), String::new());
}

#[test]
fn lines_from_an_offset() {
    let c = area("ab\ncd");
    assert_eq!(c.lines_at(0), vec!["ab\n".to_string(), "cd".to_string()]);
    assert_eq!(c.lines_at(1), vec!["cd".to_string()]);
    assert_eq!(c.lines_at(2), Vec::<String>::new());
}
