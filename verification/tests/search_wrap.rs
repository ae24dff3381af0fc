use femto_core::state::BufferState;

fn buf_with(text: &str, cursor: usize) -> BufferState {
    let mut b = BufferState::new();
    b.insert_text(text);
    b.set_cursor(cursor);
    b
}

#[test]
fn isearch_forward_starts_after_cursor_then_wraps() {
    let mut b = buf_with("abcXabc", 0);
    assert!(b.isearch_forward("abc").is_ok());
    assert_eq!(b.cursor, 4);
    assert_eq!(b.status_message.as_deref(), Some("I-Search forward: abc"));
    assert!(b.isearch_forward("abc").is_ok());
    assert_eq!(b.cursor, 0);
    assert_eq!(b.status_message.as_deref(), Some("I-Search wrapped: abc"));
}

#[test]
fn isearch_forward_empty_query_is_error() {
    let mut b = buf_with("abc", 0);
    assert_eq!(b.isearch_forward(""), Err("search query is empty".to_string()));
    assert_eq!(b.cursor, 0);
}

#[test]
fn isearch_forward_miss_is_error_and_leaves_state() {
    let mut b = buf_with("abc", 1);
    assert_eq!(b.isearch_forward("zzz"), Err("Not found: zzz".to_string()));
    assert_eq!(b.cursor, 1);
    assert!(b.status_message.is_none());
}

#[test]
fn isearch_backward_finds_match_ending_before_cursor() {
    let mut b = buf_with("abcXabc", 7);
    assert!(b.isearch_backward("abc").is_ok());
    assert_eq!(b.cursor, 0);
    assert_eq!(b.status_message.as_deref(), Some("I-Search backward: abc"));
}

#[test]
fn isearch_backward_wraps_from_buffer_end() {
    let mut b = buf_with("abcXabc", 0);
    assert!(b.isearch_backward("abc").is_ok());
    assert_eq!(b.cursor, 4);
    assert_eq!(b.status_message.as_deref(), Some("I-Search wrapped: abc"));
}

#[test]
fn isearch_backward_empty_query_is_error() {
    let mut b = buf_with("abc", 2);
    assert_eq!(b.isearch_backward(""), Err("search query is empty".to_string()));
}

#[test]
fn find_next_match_from_scans_forward() {
    let b = buf_with("xx abab xx", 0);
    assert_eq!(b.find_next_match_from(0, "ab"), Some(3));
    assert_eq!(b.find_next_match_from(4, "ab"), Some(5));
    assert_eq!(b.find_next_match_from(6, "ab"), None);
    assert_eq!(b.find_next_match_from(0, "zz"), None);
}

#[test]
fn find_prev_match_from_needs_match_inside_prefix() {
    let b = buf_with("abab", 0);
    assert_eq!(b.find_prev_match_from(4, "ab"), Some(2));
    assert_eq!(b.find_prev_match_from(3, "ab"), Some(0));
    assert_eq!(b.find_prev_match_from(1, "ab"), None);
}
