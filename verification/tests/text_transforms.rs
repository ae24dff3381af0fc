use femto_core::textops::{
    detect_line_ending, normalize_line_endings, normalize_loaded_text, split_path_prefix,
};

#[test]
fn detect_crlf_wins_over_lf() {
    assert_eq!(detect_line_ending(b"a\r\nb\nc"), "CRLF");
}

#[test]
fn detect_lf() {
    assert_eq!(detect_line_ending(b"a\nb"), "LF");
}

#[test]
fn detect_cr() {
    assert_eq!(detect_line_ending(b"a\rb"), "CR");
}

#[test]
fn detect_defaults_to_crlf() {
    assert_eq!(detect_line_ending(b"ab"), "CRLF");
    assert_eq!(detect_line_ending(b""), "CRLF");
}

#[test]
fn normalize_loaded_text_unifies_endings() {
    assert_eq!(normalize_loaded_text("a\r\nb\rc\nd"), "a\nb\nc\nd");
    assert_eq!(normalize_loaded_text("\r\r\n"), "\n\n");
    assert_eq!(normalize_loaded_text("plain"), "plain");
}

#[test]
fn normalize_line_endings_lf() {
    assert_eq!(normalize_line_endings("a\r\nb\rc", "LF"), "a\nb\nc");
}

#[test]
fn normalize_line_endings_cr() {
    assert_eq!(normalize_line_endings("a\nb", "CR"), "a\rb");
}

#[test]
fn normalize_line_endings_default_crlf() {
    assert_eq!(normalize_line_endings("a\nb", "CRLF"), "a\r\nb");
    assert_eq!(normalize_line_endings("a\nb", "anything"), "a\r\nb");
}

#[test]
fn split_path_prefix_cases() {
    assert_eq!(split_path_prefix(""), ("".to_string(), "".to_string()));
    assert_eq!(
        split_path_prefix("dir\\file"),
        ("dir\\".to_string(), "file".to_string())
    );
    assert_eq!(split_path_prefix("dir\\"), ("dir\\".to_string(), "".to_string()));
    assert_eq!(split_path_prefix("file"), ("".to_string(), "file".to_string()));
    assert_eq!(
        split_path_prefix("a\\b\\c"),
        ("a\\b\\".to_string(), "c".to_string())
    );
}
