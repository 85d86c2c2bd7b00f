use fire_notes_core::visual::{
    char_col_to_visual_col, get_char_visual_width, get_cursor_line_col, visual_col_to_char_col,
    VisualLine, TAB_WIDTH,
};

#[test]
fn test_char_to_visual_no_tabs() {
    assert_eq!(char_col_to_visual_col("hello", 0), 0);
    assert_eq!(char_col_to_visual_col("hello", 3), 3);
    assert_eq!(char_col_to_visual_col("hello", 5), 5);
}

#[test]
fn test_char_to_visual_with_tabs() {
    assert_eq!(char_col_to_visual_col("\thello", 0), 0);
    assert_eq!(char_col_to_visual_col("\thello", 1), 4); // After tab
    assert_eq!(char_col_to_visual_col("\thello", 2), 5); // After tab + 'h'
    assert_eq!(char_col_to_visual_col("a\tb", 1), 1); // After 'a'
    assert_eq!(char_col_to_visual_col("a\tb", 2), 5); // After 'a' + tab
}

#[test]
fn test_visual_to_char_no_tabs() {
    assert_eq!(visual_col_to_char_col("hello", 0), 0);
    assert_eq!(visual_col_to_char_col("hello", 3), 3);
    assert_eq!(visual_col_to_char_col("hello", 5), 5);
}

#[test]
fn test_visual_to_char_with_tabs() {
    assert_eq!(visual_col_to_char_col("\thello", 0), 0);
    assert_eq!(visual_col_to_char_col("\thello", 3), 0); // Still on tab
    assert_eq!(visual_col_to_char_col("\thello", 4), 1); // After tab
    assert_eq!(visual_col_to_char_col("\thello", 5), 2); // After tab + 'h'
}

#[test]
fn test_char_widths() {
    assert_eq!(get_char_visual_width('\t'), TAB_WIDTH);
    assert_eq!(get_char_visual_width('\n'), 0);
    assert_eq!(get_char_visual_width('x'), 1);
}

#[test]
fn test_visual_line_queries() {
    let line = VisualLine::new("a\tbc");
    assert_eq!(line.char_count(), 4);
    assert_eq!(line.visual_width(), 1 + TAB_WIDTH + 2);
    assert_eq!(line.char_at(1), Some('\t'));
    assert_eq!(line.char_at(4), None);
    assert_eq!(line.char_visual_width_at(1), TAB_WIDTH);
    assert_eq!(line.char_visual_width_at(9), 1);
    assert_eq!(line.char_col_to_visual_col(2), 5);
    assert_eq!(line.visual_col_to_char_col(5), 2);
}

#[test]
fn test_cursor_line_col() {
    assert_eq!(get_cursor_line_col("", 0), (0, 0));
    assert_eq!(get_cursor_line_col("abc", 2), (0, 2));
    assert_eq!(get_cursor_line_col("ab\ncd", 3), (1, 0));
    assert_eq!(get_cursor_line_col("ab\ncd", 5), (1, 2));
    assert_eq!(get_cursor_line_col("ab\ncd", 99), (1, 2)); // clamped to the end
    assert_eq!(get_cursor_line_col("a\n\nb", 2), (1, 0));
}
