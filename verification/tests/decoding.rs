use femto_core::decode::{decode_content, decode_with_score};
use femto_core::msg::dec_string;

#[test]
fn decode_plain_utf8() {
    let d = decode_content(b"hi\r\nthere");
    assert_eq!(d.text, "hi\nthere");
    assert_eq!(d.encoding, "UTF-8");
    assert_eq!(d.line_ending, "CRLF");
}

#[test]
fn decode_utf8_bom_is_stripped() {
    let bytes = [0xEF, 0xBB, 0xBF, b'h', b'i'];
    let d = decode_content(&bytes);
    assert_eq!(d.text, "hi");
    assert_eq!(d.encoding, "UTF-8 BOM");
}

#[test]
fn decode_bom_with_invalid_rest_is_lossy() {
    let bytes = [0xEF, 0xBB, 0xBF, 0xFF];
    let d = decode_content(&bytes);
    assert_eq!(d.text, "\u{FFFD}");
    assert_eq!(d.encoding, "UTF-8 BOM");
}

#[test]
fn decode_shift_jis_text() {
    // "日本" in Shift-JIS; not valid UTF-8 and not clean EUC-JP.
    let bytes = [0x93, 0xFA, 0x96, 0x7B];
    let d = decode_content(&bytes);
    assert_eq!(d.encoding, "Shift-JIS");
    assert_eq!(d.text, "日本");
}

#[test]
fn decode_euc_jp_wins_when_shift_jis_errors() {
    // "◇" in EUC-JP; as Shift-JIS the second byte is invalid, so the
    // EUC-JP reading scores better.
    let bytes = [0xA1, 0xFE];
    let d = decode_content(&bytes);
    assert_eq!(d.encoding, "EUC-JP");
    assert_eq!(d.text, "◇");
}

#[test]
fn decode_empty_input() {
    let d = decode_content(b"");
    assert_eq!(d.text, "");
    assert_eq!(d.encoding, "UTF-8");
    assert_eq!(d.line_ending, "CRLF");
}

#[test]
fn score_counts_controls_replacements_and_errors() {
    let clean = decode_with_score("plain text".to_string(), "X".to_string(), false);
    assert_eq!(clean.score, 0);
    let with_control = decode_with_score("a\u{0001}b".to_string(), "X".to_string(), false);
    assert_eq!(with_control.score, 1);
    let with_replacement = decode_with_score("a\u{FFFD}".to_string(), "X".to_string(), false);
    assert_eq!(with_replacement.score, 4);
    let with_errors = decode_with_score("ok".to_string(), "X".to_string(), true);
    assert_eq!(with_errors.score, 10);
    let all = decode_with_score("\u{0002}\u{FFFD}\u{FFFD}".to_string(), "X".to_string(), true);
    assert_eq!(all.score, 1 + 8 + 10);
    // Tab, line feed, and carriage return carry no penalty.
    let whitespace = decode_with_score("a\tb\nc\rd".to_string(), "X".to_string(), false);
    assert_eq!(whitespace.score, 0);
}

#[test]
fn dec_string_renders_decimal() {
    assert_eq!(dec_string(0), "0");
    assert_eq!(dec_string(7), "7");
    assert_eq!(dec_string(90210), "90210");
}
