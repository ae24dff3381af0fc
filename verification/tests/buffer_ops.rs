use femto_core::text::{TextBuffer, char_to_byte_index, chars_to_string, str_eq, str_to_chars};

#[test]
fn tb_starts_empty() {
    let tb = TextBuffer::new();
    assert_eq!(tb.char_len(), 0);
    assert_eq!(tb.as_str(), "");
}

#[test]
fn tb_from_text_counts_characters() {
    let tb = TextBuffer::from_text("あいう".to_string());
    assert_eq!(tb.char_len(), 3);
    assert_eq!(tb.as_str(), "あいう");
}

#[test]
fn tb_insert_at_character_offset() {
    let mut tb = TextBuffer::from_text("aあb".to_string());
    tb.insert_str(2, "X");
    assert_eq!(tb.as_str(), "aあXb");
}

#[test]
fn tb_insert_past_end_appends() {
    let mut tb = TextBuffer::from_text("ab".to_string());
    tb.insert_str(99, "cd");
    assert_eq!(tb.as_str(), "abcd");
}

#[test]
fn tb_remove_range_basic() {
    let mut tb = TextBuffer::from_text("abcdef".to_string());
    tb.remove_range(1, 4);
    assert_eq!(tb.as_str(), "aef");
}

#[test]
fn tb_remove_range_noop_when_start_not_below_end() {
    let mut tb = TextBuffer::from_text("abc".to_string());
    tb.remove_range(2, 2);
    tb.remove_range(3, 1);
    assert_eq!(tb.as_str(), "abc");
}

#[test]
fn tb_remove_range_clamps_end() {
    let mut tb = TextBuffer::from_text("abc".to_string());
    tb.remove_range(1, 100);
    assert_eq!(tb.as_str(), "a");
}

#[test]
fn char_to_byte_index_multibyte() {
    let text = "aあb";
    assert_eq!(char_to_byte_index(text, 0), 0);
    assert_eq!(char_to_byte_index(text, 1), 1);
    assert_eq!(char_to_byte_index(text, 2), 4);
    assert_eq!(char_to_byte_index(text, 3), 5);
    assert_eq!(char_to_byte_index(text, 99), 5);
}

#[test]
fn chars_round_trip() {
    let v = str_to_chars("héllo\nwörld");
    assert_eq!(v.len(), 11);
    assert_eq!(chars_to_string(&v), "héllo\nwörld");
}

#[test]
fn str_eq_compares_characters() {
    assert!(str_eq("abc", "abc"));
    assert!(!str_eq("abc", "abd"));
    assert!(!str_eq("abc", "ab"));
    assert!(str_eq("", ""));
}
