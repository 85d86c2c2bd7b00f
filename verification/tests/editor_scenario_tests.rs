use fire_notes_core::buffer::TextBuffer;

#[test]
fn test_insert_str_then_undo_restores() {
    let mut buf = TextBuffer::from_str("one two");
    buf.set_cursor_by_line_col(0, 3, false);
    buf.insert_str("XYZ");
    assert_eq!(buf.content(), "oneXYZ two");
    buf.undo();
    assert_eq!(buf.content(), "one two");
    assert_eq!(buf.cursor(), 3);
}

#[test]
fn test_insert_str_then_backspaces_restore() {
    let mut buf = TextBuffer::from_str("abcd");
    buf.set_cursor_by_line_col(0, 2, false);
    buf.insert_str("123");
    assert_eq!(buf.content(), "ab123cd");
    buf.backspace();
    buf.backspace();
    buf.backspace();
    assert_eq!(buf.content(), "abcd");
    assert_eq!(buf.cursor(), 2);
}

#[test]
fn test_replace_selection_on_insert() {
    let mut buf = TextBuffer::from_str("hello world");
    // select "hello"
    for _ in 0..5 {
        buf.move_right(true);
    }
    buf.insert('H');
    assert_eq!(buf.content(), "H world");
    assert_eq!(buf.cursor(), 1);
}

#[test]
fn test_delete_word_left_takes_word_and_one_space() {
    let mut buf = TextBuffer::from_str("one two");
    buf.move_to_end(false);
    buf.delete_word_left();
    assert_eq!(buf.content(), "one ");
    // a single space before the cursor is deleted together with the word
    buf.delete_word_left();
    assert_eq!(buf.content(), "");
}

#[test]
fn test_delete_word_left_space_run_is_its_own_unit() {
    let mut buf = TextBuffer::from_str("one   ");
    buf.move_to_end(false);
    buf.delete_word_left();
    // a run of two or more spaces goes alone
    assert_eq!(buf.content(), "one");
    buf.undo();
    assert_eq!(buf.content(), "one   ");
}

#[test]
fn test_delete_word_left_with_selection() {
    let mut buf = TextBuffer::from_str("one two");
    buf.move_right(true);
    buf.move_right(true);
    buf.delete_word_left();
    assert_eq!(buf.content(), "e two");
}

#[test]
fn test_cut_and_paste() {
    let mut buf = TextBuffer::from_str("hello world");
    for _ in 0..5 {
        buf.move_right(true);
    }
    let cut = buf.cut();
    assert_eq!(cut.as_deref(), Some("hello"));
    assert_eq!(buf.content(), " world");
    buf.move_to_end(false);
    assert!(buf.paste("hello"));
    assert_eq!(buf.content(), " worldhello");
    assert!(!buf.paste(""));
    assert_eq!(buf.content(), " worldhello");
    let empty_cut = buf.cut();
    assert_eq!(empty_cut, None);
}

#[test]
fn test_select_word_at_cursor() {
    let mut buf = TextBuffer::from_str("foo bar_baz qux");
    buf.set_cursor_by_line_col(0, 6, false);
    buf.select_word_at_cursor();
    assert_eq!(buf.selected_text(), "bar_baz");
    // at the very end the last character's run is taken
    buf.move_to_end(false);
    buf.select_word_at_cursor();
    assert_eq!(buf.selected_text(), "qux");
}

#[test]
fn test_select_line_at_cursor() {
    let mut buf = TextBuffer::from_str("ab\ncd\nef");
    buf.set_cursor_by_line_col(1, 1, false);
    buf.select_line_at_cursor();
    assert_eq!(buf.selected_text(), "cd\n");
    buf.set_cursor_by_line_col(2, 0, false);
    buf.select_line_at_cursor();
    assert_eq!(buf.selected_text(), "ef");
}

#[test]
fn test_select_all() {
    let mut buf = TextBuffer::from_str("ab\ncd");
    buf.select_all();
    assert_eq!(buf.selection_range(), Some((0, 5)));
    assert_eq!(buf.selected_text(), "ab\ncd");
}

#[test]
fn test_move_to_line_end_stops_before_newline() {
    let mut buf = TextBuffer::from_str("ab\ncd");
    buf.move_to_line_end(false);
    assert_eq!(buf.cursor(), 2);
    buf.set_cursor_by_line_col(1, 0, false);
    buf.move_to_line_end(false);
    assert_eq!(buf.cursor(), 5);
    buf.move_to_line_start(false);
    assert_eq!(buf.cursor(), 3);
}

#[test]
fn test_set_cursor_clamps_line_and_col() {
    let mut buf = TextBuffer::from_str("ab\ncd");
    buf.set_cursor_by_line_col(9, 9, false);
    assert_eq!(buf.cursor(), 5); // clamped to the last line's end
    buf.set_cursor_by_line_col(0, 9, false);
    assert_eq!(buf.cursor(), 2); // clamped before the newline
    let (line, col) = buf.char_to_line_col(buf.cursor());
    assert_eq!((line, col), (0, 2));
}

#[test]
fn test_char_to_line_col_clamps_past_end() {
    let buf = TextBuffer::from_str("ab\ncd");
    assert_eq!(buf.char_to_line_col(99), (1, 2));
    assert_eq!(buf.char_to_line_col(3), (1, 0));
}

#[test]
fn test_move_up_down_clamp_to_document_edges() {
    let mut buf = TextBuffer::from_str("ab\ncd");
    buf.set_cursor_by_line_col(0, 1, false);
    buf.move_up(false);
    assert_eq!(buf.cursor(), 0);
    buf.set_cursor_by_line_col(1, 1, false);
    buf.move_down(false);
    assert_eq!(buf.cursor(), 5);
}

#[test]
fn test_move_up_down_keep_column_where_possible() {
    let mut buf = TextBuffer::from_str("long line\nab\nanother");
    buf.set_cursor_by_line_col(0, 7, false);
    buf.move_down(false);
    let (line, col) = buf.char_to_line_col(buf.cursor());
    assert_eq!((line, col), (1, 2)); // clamped to the short line
    buf.move_up(false);
    let (line, col) = buf.char_to_line_col(buf.cursor());
    assert_eq!((line, col), (0, 2));
}

#[test]
fn test_undo_redo_empty_stacks_are_no_ops() {
    let mut buf = TextBuffer::from_str("ab");
    buf.undo();
    assert_eq!(buf.content(), "ab");
    buf.redo();
    assert_eq!(buf.content(), "ab");
}

#[test]
fn test_new_edit_clears_redo() {
    let mut buf = TextBuffer::new();
    buf.insert('a');
    buf.undo();
    buf.insert('b');
    buf.redo(); // nothing to redo: the edit cleared the stack
    assert_eq!(buf.content(), "b");
}

#[test]
fn test_move_lines_round_trip() {
    let mut buf = TextBuffer::from_str("aa\nbb\ncc\n");
    buf.set_cursor_by_line_col(1, 1, false);
    buf.move_lines_up();
    assert_eq!(buf.content(), "bb\naa\ncc\n");
    buf.move_lines_down();
    assert_eq!(buf.content(), "aa\nbb\ncc\n");
    let (line, col) = buf.char_to_line_col(buf.cursor());
    assert_eq!((line, col), (1, 1));
}

#[test]
fn test_move_lines_round_trip_gains_trailing_newline() {
    let mut buf = TextBuffer::from_str("aa\nbb");
    buf.set_cursor_by_line_col(1, 0, false);
    buf.move_lines_up();
    assert_eq!(buf.content(), "bb\naa\n");
    buf.move_lines_down();
    assert_eq!(buf.content(), "aa\nbb\n");
}

#[test]
fn test_move_lines_up_with_selection() {
    let mut buf = TextBuffer::from_str("aa\nbb\ncc\ndd");
    buf.set_cursor_by_line_col(1, 0, false);
    buf.move_down(true);
    buf.move_down(true);
    // selection spans lines 1..=2: it ends at the start of line 3, which
    // stays put
    buf.move_lines_up();
    assert_eq!(buf.content(), "bb\ncc\naa\ndd\n");
}

#[test]
fn test_move_lines_round_trip_with_selection() {
    let mut buf = TextBuffer::from_str("aa\nbb\ncc\ndd");
    buf.set_cursor_by_line_col(1, 1, false);
    buf.move_down(true); // select from (1,1) to (2,1)
    buf.move_lines_up();
    assert_eq!(buf.content(), "bb\ncc\naa\ndd\n");
    buf.move_lines_down();
    assert_eq!(buf.content(), "aa\nbb\ncc\ndd\n");
    assert_eq!(buf.selected_text(), "b\nc"); // the selection moved back with its lines
}

#[test]
fn test_move_top_line_up_is_a_no_op() {
    let mut buf = TextBuffer::from_str("aa\nbb");
    buf.move_lines_up();
    assert_eq!(buf.content(), "aa\nbb");
}

#[test]
fn test_move_last_line_down_is_a_no_op() {
    let mut buf = TextBuffer::from_str("aa\nbb");
    buf.set_cursor_by_line_col(1, 0, false);
    buf.move_lines_down();
    assert_eq!(buf.content(), "aa\nbb");
}

#[test]
fn test_non_ascii_text_counts_characters() {
    let mut buf = TextBuffer::from_str("héllo wörld");
    assert_eq!(buf.len(), 11); // characters, not bytes
    buf.move_word_right(false);
    assert_eq!(buf.cursor(), 5);
    buf.backspace();
    assert_eq!(buf.content(), "héll wörld");
    buf.undo();
    assert_eq!(buf.content(), "héllo wörld");
    buf.move_to_end(false);
    buf.insert('é');
    assert_eq!(buf.content(), "héllo wörldé");
    assert_eq!(buf.cursor(), 12);
}

#[test]
fn test_len_lines() {
    assert_eq!(TextBuffer::new().len_lines(), 1);
    assert_eq!(TextBuffer::from_str("ab").len_lines(), 1);
    assert_eq!(TextBuffer::from_str("ab\n").len_lines(), 2);
    assert_eq!(TextBuffer::from_str("ab\ncd").len_lines(), 2);
}
