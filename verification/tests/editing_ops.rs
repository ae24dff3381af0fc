use femto_core::edit::push_kill_ring;
use femto_core::state::BufferState;

fn buf_with(text: &str, cursor: usize) -> BufferState {
    let mut b = BufferState::new();
    b.insert_text(text);
    b.set_cursor(cursor);
    b
}

#[test]
fn insert_advances_cursor_and_marks_modified() {
    let mut b = BufferState::new();
    b.insert_text("héllo");
    assert_eq!(b.buffer.as_str(), "héllo");
    assert_eq!(b.cursor, 5);
    assert!(b.modified);
    assert!(b.status_message.is_none());
}

#[test]
fn insert_empty_is_noop() {
    let mut b = buf_with("ab", 1);
    let modified_before = b.modified;
    b.insert_text("");
    assert_eq!(b.buffer.as_str(), "ab");
    assert_eq!(b.cursor, 1);
    assert_eq!(b.modified, modified_before);
}

#[test]
fn delete_char_at_cursor() {
    let mut b = buf_with("abc", 1);
    b.delete_char();
    assert_eq!(b.buffer.as_str(), "ac");
    assert_eq!(b.cursor, 1);
}

#[test]
fn delete_char_at_end_is_noop() {
    let mut b = buf_with("abc", 3);
    b.delete_char();
    assert_eq!(b.buffer.as_str(), "abc");
}

#[test]
fn delete_backward_char_before_cursor() {
    let mut b = buf_with("abc", 2);
    b.delete_backward_char();
    assert_eq!(b.buffer.as_str(), "ac");
    assert_eq!(b.cursor, 1);
}

#[test]
fn delete_backward_char_at_start_is_noop() {
    let mut b = buf_with("abc", 0);
    b.delete_backward_char();
    assert_eq!(b.buffer.as_str(), "abc");
    assert_eq!(b.cursor, 0);
}

#[test]
fn kill_line_takes_rest_of_line_with_newline() {
    let mut ring: Vec<String> = Vec::new();
    let mut b = buf_with("ab\ncd", 1);
    b.kill_line(&mut ring);
    assert_eq!(b.buffer.as_str(), "acd");
    assert_eq!(ring, vec!["b\n".to_string()]);
    assert_eq!(b.status_message.as_deref(), Some("Killed line"));
}

#[test]
fn kill_line_at_buffer_end_is_noop() {
    let mut ring: Vec<String> = Vec::new();
    let mut b = buf_with("ab", 2);
    b.kill_line(&mut ring);
    assert_eq!(b.buffer.as_str(), "ab");
    assert!(ring.is_empty());
}

#[test]
fn kill_line_on_newline_takes_just_newline() {
    let mut ring: Vec<String> = Vec::new();
    let mut b = buf_with("ab\ncd", 2);
    b.kill_line(&mut ring);
    assert_eq!(b.buffer.as_str(), "abcd");
    assert_eq!(ring, vec!["\n".to_string()]);
}

#[test]
fn copy_region_leaves_buffer_untouched() {
    let mut ring: Vec<String> = Vec::new();
    let mut b = buf_with("abcdef", 0);
    b.mark_saved();
    b.copy_region(1, 4, &mut ring);
    assert_eq!(b.buffer.as_str(), "abcdef");
    assert!(!b.modified);
    assert_eq!(ring, vec!["bcd".to_string()]);
    assert_eq!(b.status_message.as_deref(), Some("Copied region"));
}

#[test]
fn copy_region_empty_range_is_noop() {
    let mut ring: Vec<String> = Vec::new();
    let mut b = buf_with("abc", 0);
    b.copy_region(2, 2, &mut ring);
    assert!(ring.is_empty());
}

#[test]
fn kill_region_removes_and_relocates_cursor() {
    let mut ring: Vec<String> = Vec::new();
    let mut b = buf_with("abcdef", 5);
    b.kill_region(1, 4, &mut ring);
    assert_eq!(b.buffer.as_str(), "aef");
    assert_eq!(b.cursor, 1);
    assert_eq!(ring, vec!["bcd".to_string()]);
    assert_eq!(b.status_message.as_deref(), Some("Killed region"));
}

#[test]
fn kill_region_end_beyond_length_clamps() {
    let mut ring1: Vec<String> = Vec::new();
    let mut b1 = buf_with("abcdef", 0);
    b1.kill_region(2, 999, &mut ring1);

    let mut ring2: Vec<String> = Vec::new();
    let mut b2 = buf_with("abcdef", 0);
    b2.kill_region(2, 6, &mut ring2);

    assert_eq!(b1.buffer.as_str(), b2.buffer.as_str());
    assert_eq!(b1.cursor, b2.cursor);
    assert_eq!(ring1, ring2);
}

#[test]
fn yank_with_empty_ring_sets_status_only() {
    let ring: Vec<String> = Vec::new();
    let mut b = buf_with("ab", 1);
    b.yank(&ring);
    assert_eq!(b.buffer.as_str(), "ab");
    assert_eq!(b.status_message.as_deref(), Some("Kill ring empty"));
}

#[test]
fn yank_inserts_most_recent_entry() {
    let ring = vec!["XY".to_string(), "old".to_string()];
    let mut b = buf_with("ab", 1);
    b.yank(&ring);
    assert_eq!(b.buffer.as_str(), "aXYb");
    assert_eq!(b.cursor, 3);
    assert_eq!(b.status_message.as_deref(), Some("Yank"));
}

#[test]
fn set_cursor_clamps() {
    let mut b = buf_with("abc", 0);
    b.set_cursor(99);
    assert_eq!(b.cursor, 3);
    b.set_cursor(1);
    assert_eq!(b.cursor, 1);
}

#[test]
fn kill_ring_keeps_at_most_ten_most_recent_first() {
    let mut ring: Vec<String> = Vec::new();
    for i in 0..12 {
        push_kill_ring(&mut ring, format!("entry{}", i));
    }
    assert_eq!(ring.len(), 10);
    assert_eq!(ring[0], "entry11");
    assert_eq!(ring[9], "entry2");
}

#[test]
fn kill_ring_ignores_empty_fragments() {
    let mut ring: Vec<String> = Vec::new();
    push_kill_ring(&mut ring, "a".to_string());
    push_kill_ring(&mut ring, String::new());
    assert_eq!(ring, vec!["a".to_string()]);
}
