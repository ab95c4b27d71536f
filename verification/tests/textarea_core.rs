use rat_widget_core::textarea_core::{StyledRange, TextAreaCore, TextPosition, TextRange};

fn pos(x: usize, y: usize) -> TextPosition {
    TextPosition::new(x, y)
}

#[test]
fn new_core_is_empty_with_defaults() {
    let mut core = TextAreaCore::new();
    assert!(core.is_empty());
    assert_eq!(core.value(), "");
    assert_eq!(core.len_lines(), 1);
    assert_eq!(core.len_chars(), 0);
    assert_eq!(core.len_bytes(), 0);
    assert_eq!(core.newline(), "\n");
    assert_eq!(core.tab_width(), 8);
    assert!(core.expand_tabs());
    assert_eq!(core.move_col(), None);
    assert_eq!(core.cursor(), pos(0, 0));
    assert_eq!(core.anchor(), pos(0, 0));
    assert!(!core.has_selection());
    assert!(core.styles().is_empty());
}

#[test]
fn settings_are_kept() {
    let mut core = TextAreaCore::default();
    core.set_newline("\r\n".to_string());
    core.set_tab_width(4);
    core.set_expand_tabs(false);
    core.set_move_col(Some(7));
    assert_eq!(core.newline(), "\r\n");
    assert_eq!(core.tab_width(), 4);
    assert!(!core.expand_tabs());
    assert_eq!(core.move_col(), Some(7));
}

#[test]
fn set_value_counts_lines_chars_and_bytes() {
    let mut core = TextAreaCore::new();
    core.set_value("ab\ncä\r\nx\n");
    assert_eq!(core.value(), "ab\ncä\r\nx\n");
    assert_eq!(core.len_lines(), 4);
    assert_eq!(core.len_chars(), 9);
    assert_eq!(core.len_bytes(), 10);
    assert!(!core.is_empty());
    assert_eq!(core.rope().len_chars(), 9);
}

#[test]
fn set_value_resets_cursor_and_styles() {
    let mut core = TextAreaCore::new();
    core.set_value("hello");
    core.add_style(TextRange::new(pos(0, 0), pos(2, 0)), 1);
    core.set_move_col(Some(3));
    core.set_value("world");
    assert!(core.styles().is_empty());
    assert_eq!(core.move_col(), None);
    assert_eq!(core.cursor(), pos(0, 0));
}

#[test]
fn clear_reports_whether_there_was_text() {
    let mut core = TextAreaCore::new();
    assert!(!core.clear());
    core.set_value("x");
    assert!(core.clear());
    assert!(core.is_empty());
    core.set_rope(ropey::Rope::from_str("rope text"));
    assert_eq!(core.value(), "rope text");
}

#[test]
fn styles_are_added_in_order_and_found() {
    let mut core = TextAreaCore::new();
    core.set_value("0123456789");
    core.add_style(TextRange::new(pos(4, 0), pos(8, 0)), 2);
    core.add_style(TextRange::new(pos(0, 0), pos(5, 0)), 1);
    core.add_style(TextRange::new(pos(0, 0), pos(5, 0)), 1);
    assert_eq!(
        core.styles(),
        &[
            StyledRange { range: TextRange::new(pos(0, 0), pos(5, 0)), style: 1 },
            StyledRange { range: TextRange::new(pos(4, 0), pos(8, 0)), style: 2 },
        ]
    );
    let mut it = core.styles_at(pos(4, 0));
    assert_eq!(it.next(), Some(1));
    assert_eq!(it.next(), Some(2));
    assert_eq!(it.next(), None);
    core.remove_style(TextRange::new(pos(0, 0), pos(5, 0)), 1);
    assert_eq!(core.styles().len(), 1);
    core.clear_styles();
    assert!(core.styles().is_empty());
}

#[test]
fn selection_orders_cursor_and_anchor() {
    let core = TextAreaCore::new();
    assert_eq!(core.selection(), TextRange::new(pos(0, 0), pos(0, 0)));
}
