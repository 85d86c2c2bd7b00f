use fire_notes_core::buffer::TextBuffer;

#[test]
fn test_new_buffer() {
    let buf = TextBuffer::new();
    assert!(buf.is_empty());
    assert_eq!(buf.cursor(), 0);
}

#[test]
fn test_insert_single() {
    let mut buf = TextBuffer::new();
    buf.insert('a');
    assert_eq!(buf.content(), "a");
    assert_eq!(buf.cursor(), 1);
}

#[test]
fn test_insert_multiple() {
    let mut buf = TextBuffer::new();
    buf.insert('H');
    buf.insert('e');
    buf.insert('l');
    buf.insert('l');
    buf.insert('o');
    assert_eq!(buf.content(), "Hello");
    assert_eq!(buf.cursor(), 5);
}

#[test]
fn test_insert_str() {
    let mut buf = TextBuffer::new();
    buf.insert_str("Hello World");
    assert_eq!(buf.content(), "Hello World");
    assert_eq!(buf.cursor(), 11);
}

#[test]
fn text_buffer_test_backspace() {
    let mut buf = TextBuffer::from_str("Hello");
    buf.move_to_end(false);
    buf.backspace();
    assert_eq!(buf.content(), "Hell");
    buf.backspace();
    assert_eq!(buf.content(), "Hel");
}

#[test]
fn test_backspace_at_start() {
    let mut buf = TextBuffer::from_str("Hello");
    buf.backspace();
    assert_eq!(buf.content(), "Hello"); // No change
    assert_eq!(buf.cursor(), 0);
}

#[test]
fn test_delete() {
    let mut buf = TextBuffer::from_str("Hello");
    buf.delete();
    assert_eq!(buf.content(), "ello");
}

#[test]
fn test_move_left_right() {
    let mut buf = TextBuffer::from_str("Hello");
    buf.set_cursor_by_line_col(0, 3, false);
    buf.move_left(false);
    assert_eq!(buf.cursor(), 2);
    buf.move_right(false);
    assert_eq!(buf.cursor(), 3);
}

#[test]
fn test_move_left_at_start() {
    let mut buf = TextBuffer::from_str("Hello");
    buf.move_left(false);
    assert_eq!(buf.cursor(), 0); // No change
}

#[test]
fn test_move_right_at_end() {
    let mut buf = TextBuffer::from_str("Hello");
    buf.move_to_end(false);
    buf.move_right(false);
    assert_eq!(buf.cursor(), 5); // No change
}

#[test]
fn test_move_word_jump() {
    let mut buf = TextBuffer::from_str("word1 word2  word3");

    buf.move_word_right(false);
    assert_eq!(buf.cursor(), 5); // "word1|"

    buf.move_word_right(false);
    assert_eq!(buf.cursor(), 11); // "word1 word2|"

    buf.move_word_right(false);
    assert_eq!(buf.cursor(), 18); // "word1 word2  word3|"

    buf.move_word_left(false);
    assert_eq!(buf.cursor(), 13); // "word1 word2  |word3"

    buf.move_word_left(false);
    assert_eq!(buf.cursor(), 6); // "word1 |word2  word3"

    buf.move_word_left(false);
    assert_eq!(buf.cursor(), 0); // "|word1 word2  word3"

    let mut buf2 = TextBuffer::from_str("hello... world!!!");
    buf2.move_word_right(false);
    assert_eq!(buf2.cursor(), 5); // "hello|"
    buf2.move_word_right(false);
    assert_eq!(buf2.cursor(), 8); // "hello...|"
    buf2.move_word_right(false);
    assert_eq!(buf2.cursor(), 14); // "hello... world|"
}

#[test]
fn test_multiline_navigation() {
    let mut buf = TextBuffer::from_str("Line1\nLine2\nLine3");
    buf.set_cursor_by_line_col(1, 1, false); // Position in Line2
    assert_eq!(buf.cursor(), 7);
    buf.move_up(false);
    assert!(buf.cursor() < 6); // Should be in Line1
    buf.move_down(false);
    buf.move_down(false);
    // Should be in Line3 now
    let (line, _) = buf.char_to_line_col(buf.cursor());
    assert_eq!(line, 2);
}

#[test]
fn test_from_str() {
    let buf = TextBuffer::from_str("Initial content");
    assert_eq!(buf.content(), "Initial content");
    assert_eq!(buf.len(), 15);
}

#[test]
fn test_large_text() {
    let large_text = "a".repeat(100_000);
    let mut buf = TextBuffer::from_str(&large_text);
    assert_eq!(buf.len(), 100_000);

    // Insert in middle - should be fast with rope
    buf.set_cursor_by_line_col(0, 50_000, false);
    buf.insert('X');
    assert_eq!(buf.len(), 100_001);
}

#[test]
fn test_selection_basic() {
    let mut buf = TextBuffer::from_str("Hello World");
    buf.move_right(true); // Select 'H'
    buf.move_right(true); // Select 'e'
    assert!(buf.has_selection());
    assert_eq!(buf.selected_text(), "He");

    buf.move_right(false); // Clear selection
    assert!(!buf.has_selection());
    assert_eq!(buf.selected_text(), "");
}

#[test]
fn test_move_line_up() {
    let mut buf = TextBuffer::from_str("Line 1\nLine 2\nLine 3");
    buf.set_cursor_by_line_col(1, 0, false); // Cursor at Line 2
    buf.move_lines_up();
    assert_eq!(buf.content(), "Line 2\nLine 1\nLine 3\n");
    let (line, _) = buf.char_to_line_col(buf.cursor());
    assert_eq!(line, 0); // Should be on top line now
}

#[test]
fn test_move_line_down() {
    let mut buf = TextBuffer::from_str("Line 1\nLine 2\nLine 3");
    buf.set_cursor_by_line_col(1, 0, false); // Cursor at Line 2
    buf.move_lines_down();
    assert_eq!(buf.content(), "Line 1\nLine 3\nLine 2\n");
    let (line, _) = buf.char_to_line_col(buf.cursor());
    assert_eq!(line, 2); // Should be on bottom line now
}

#[test]
fn test_move_line_down_eof_no_newline() {
    // "Line 1\nLine 2" -> Line 2 has no newline
    let mut buf = TextBuffer::from_str("Line 1\nLine 2");
    buf.move_lines_down();
    // Line 2 gains a newline before the swap, then Line 1 moves below it.
    assert_eq!(buf.content(), "Line 2\nLine 1\n");
    let (line, _) = buf.char_to_line_col(buf.cursor());
    assert_eq!(line, 1);
}

#[test]
fn test_undo_redo_insert() {
    let mut buf = TextBuffer::new();
    buf.insert('a');
    buf.insert('b');
    assert_eq!(buf.content(), "ab");

    buf.undo();
    assert_eq!(buf.content(), "a");
    buf.undo();
    assert_eq!(buf.content(), "");

    buf.redo();
    assert_eq!(buf.content(), "a");
    buf.redo();
    assert_eq!(buf.content(), "ab");
}

#[test]
fn test_undo_redo_delete() {
    let mut buf = TextBuffer::from_str("abc");
    buf.move_to_end(false);
    buf.backspace(); // deletes 'c'
    assert_eq!(buf.content(), "ab");

    buf.undo();
    assert_eq!(buf.content(), "abc");

    buf.redo();
    assert_eq!(buf.content(), "ab");
}

#[test]
fn test_undo_selection_delete() {
    let mut buf = TextBuffer::from_str("hello world");
    buf.move_right(true); // 'h'
    buf.move_right(true); // 'e'
    buf.move_right(true); // 'l'
    buf.move_right(true); // 'l'
    buf.move_right(true); // 'o'
    // Selection is "hello"
    buf.delete_selection();
    assert_eq!(buf.content(), " world");

    buf.undo();
    assert_eq!(buf.content(), "hello world");

    buf.redo();
    assert_eq!(buf.content(), " world");
}
