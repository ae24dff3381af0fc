use femto_core::state::BufferState;

fn buf_with(text: &str, cursor: usize) -> BufferState {
    let mut b = BufferState::new();
    b.insert_text(text);
    b.set_cursor(cursor);
    b
}

#[test]
fn move_forward_stops_at_end() {
    let mut b = buf_with("ab", 1);
    b.move_forward();
    assert_eq!(b.cursor, 2);
    b.move_forward();
    assert_eq!(b.cursor, 2);
}

#[test]
fn move_backward_stops_at_start() {
    let mut b = buf_with("ab", 1);
    b.move_backward();
    assert_eq!(b.cursor, 0);
    b.move_backward();
    assert_eq!(b.cursor, 0);
}

#[test]
fn line_start_scans_to_newline_or_buffer_start() {
    let mut b = buf_with("ab\ncd", 4);
    b.move_to_line_start();
    assert_eq!(b.cursor, 3);
    let mut b2 = buf_with("ab\ncd", 2);
    b2.move_to_line_start();
    assert_eq!(b2.cursor, 0);
}

#[test]
fn line_end_scans_to_newline_or_buffer_end() {
    let mut b = buf_with("ab\ncd", 0);
    b.move_to_line_end();
    assert_eq!(b.cursor, 2);
    let mut b2 = buf_with("ab\ncd", 3);
    b2.move_to_line_end();
    assert_eq!(b2.cursor, 5);
}

#[test]
fn next_line_keeps_column() {
    let mut b = buf_with("abcd\nwxyz", 2);
    b.move_next_line();
    assert_eq!(b.cursor, 7);
}

#[test]
fn next_line_clamps_to_short_line() {
    let mut b = buf_with("abcd\nx\nwxyz", 3);
    b.move_next_line();
    // Line two holds a single character; column four clamps to its end.
    assert_eq!(b.cursor, 6);
}

#[test]
fn next_line_without_next_line_stays() {
    let mut b = buf_with("abcd", 2);
    b.move_next_line();
    assert_eq!(b.cursor, 2);
}

#[test]
fn previous_line_keeps_column() {
    let mut b = buf_with("abcd\nwxyz", 7);
    b.move_previous_line();
    assert_eq!(b.cursor, 2);
}

#[test]
fn previous_line_on_first_line_stays() {
    let mut b = buf_with("abcd\nwxyz", 2);
    b.move_previous_line();
    assert_eq!(b.cursor, 2);
}

#[test]
fn forward_word_skips_word_then_separators() {
    let mut b = buf_with("foo  bar", 0);
    b.move_forward_word();
    assert_eq!(b.cursor, 5);
    b.move_forward_word();
    assert_eq!(b.cursor, 8);
}

#[test]
fn forward_word_treats_underscore_as_word() {
    let mut b = buf_with("a_b-c", 0);
    b.move_forward_word();
    assert_eq!(b.cursor, 4);
}

#[test]
fn backward_word_lands_on_word_start() {
    let mut b = buf_with("foo  bar", 8);
    b.move_backward_word();
    assert_eq!(b.cursor, 5);
    b.move_backward_word();
    assert_eq!(b.cursor, 0);
}

#[test]
fn backward_word_at_start_stays() {
    let mut b = buf_with("foo", 0);
    b.move_backward_word();
    assert_eq!(b.cursor, 0);
}

#[test]
fn buffer_start_and_end() {
    let mut b = buf_with("abc\ndef", 3);
    b.move_to_buffer_end();
    assert_eq!(b.cursor, 7);
    b.move_to_buffer_start();
    assert_eq!(b.cursor, 0);
}

#[test]
fn line_col_is_one_based_and_resets_after_newline() {
    let b = buf_with("ab\ncd", 0);
    assert_eq!(b.line_col_at(0), (1, 1));
    assert_eq!(b.line_col_at(2), (1, 3));
    assert_eq!(b.line_col_at(3), (2, 1));
    assert_eq!(b.line_col_at(5), (2, 3));
    assert_eq!(b.line_col_at(99), (2, 3));
}

#[test]
fn line_col_to_cursor_resolves_and_clamps() {
    let b = buf_with("abcd\nx\nwxyz", 0);
    assert_eq!(b.line_col_to_cursor(1, 1), Some(0));
    assert_eq!(b.line_col_to_cursor(1, 4), Some(3));
    assert_eq!(b.line_col_to_cursor(1, 99), Some(4));
    assert_eq!(b.line_col_to_cursor(2, 1), Some(5));
    assert_eq!(b.line_col_to_cursor(3, 2), Some(8));
    assert_eq!(b.line_col_to_cursor(4, 1), None);
    assert_eq!(b.line_col_to_cursor(0, 1), None);
    assert_eq!(b.line_col_to_cursor(1, 0), None);
}

#[test]
fn line_col_to_cursor_reaches_empty_last_line() {
    let b = buf_with("a\n", 0);
    assert_eq!(b.line_col_to_cursor(2, 1), Some(2));
    assert_eq!(b.line_col_to_cursor(3, 1), None);
}
