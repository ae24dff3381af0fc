use femto_core::commands::{
    editor_command, CommandPayload, CursorPayload, InsertPayload, RegionPayload, SearchPayload,
};
use femto_core::state::EditorState;

fn insert_payload(text: &str) -> Option<CommandPayload> {
    Some(CommandPayload::Insert(InsertPayload { text: text.to_string() }))
}

#[test]
fn command_insert_text_returns_snapshot() {
    let mut ed = EditorState::new();
    let snap = editor_command(&mut ed, "insert_text", insert_payload("hi")).unwrap();
    assert_eq!(snap.text, "hi");
    assert_eq!(snap.cursor, 2);
    assert!(snap.modified);
}

#[test]
fn command_noop_changes_nothing() {
    let mut ed = EditorState::new();
    editor_command(&mut ed, "insert_text", insert_payload("ab")).unwrap();
    let snap = editor_command(&mut ed, "noop", None).unwrap();
    assert_eq!(snap.text, "ab");
    assert_eq!(snap.cursor, 2);
}

#[test]
fn command_unknown_is_error() {
    let mut ed = EditorState::new();
    match editor_command(&mut ed, "frobnicate", None) {
        Err(e) => assert_eq!(e, "unknown command: frobnicate"),
        Ok(_) => panic!("expected an error"),
    }
}

#[test]
fn command_payload_mismatch_errors() {
    let mut ed = EditorState::new();
    let cases = [
        ("kill_region", "kill_region requires region payload"),
        ("copy_region", "copy_region requires region payload"),
        ("isearch_forward", "isearch_forward requires search payload"),
        ("isearch_backward", "isearch_backward requires search payload"),
        ("set_cursor", "set_cursor requires cursor payload"),
        ("insert_text", "insert_text requires payload"),
    ];
    for (cmd, msg) in cases {
        match editor_command(&mut ed, cmd, None) {
            Err(e) => assert_eq!(e, msg),
            Ok(_) => panic!("expected an error"),
        }
    }
}

#[test]
fn command_movement_and_deletion() {
    let mut ed = EditorState::new();
    editor_command(&mut ed, "insert_text", insert_payload("ab\ncd")).unwrap();
    let snap = editor_command(&mut ed, "move_to_buffer_start", None).unwrap();
    assert_eq!(snap.cursor, 0);
    let snap = editor_command(&mut ed, "move_to_line_end", None).unwrap();
    assert_eq!(snap.cursor, 2);
    let snap = editor_command(&mut ed, "delete_char", None).unwrap();
    assert_eq!(snap.text, "abcd");
    let snap = editor_command(&mut ed, "delete_backward_char", None).unwrap();
    assert_eq!(snap.text, "acd");
    assert_eq!(snap.cursor, 1);
}

#[test]
fn command_kill_and_yank_region() {
    let mut ed = EditorState::new();
    editor_command(&mut ed, "insert_text", insert_payload("abcdef")).unwrap();
    let region = Some(CommandPayload::Region(RegionPayload { start: 1, end: 4 }));
    let snap = editor_command(&mut ed, "kill_region", region).unwrap();
    assert_eq!(snap.text, "aef");
    assert_eq!(snap.cursor, 1);
    let snap = editor_command(&mut ed, "yank", None).unwrap();
    assert_eq!(snap.text, "abcdef");
}

#[test]
fn command_copy_region_keeps_text() {
    let mut ed = EditorState::new();
    editor_command(&mut ed, "insert_text", insert_payload("abcd")).unwrap();
    let region = Some(CommandPayload::Region(RegionPayload { start: 0, end: 2 }));
    let snap = editor_command(&mut ed, "copy_region", region).unwrap();
    assert_eq!(snap.text, "abcd");
    assert_eq!(snap.status_message.as_deref(), Some("Copied region"));
}

#[test]
fn command_isearch_moves_cursor() {
    let mut ed = EditorState::new();
    editor_command(&mut ed, "insert_text", insert_payload("abcXabc")).unwrap();
    editor_command(
        &mut ed,
        "set_cursor",
        Some(CommandPayload::Cursor(CursorPayload { cursor: 0 })),
    )
    .unwrap();
    let search = Some(CommandPayload::Search(SearchPayload { query: "abc".to_string() }));
    let snap = editor_command(&mut ed, "isearch_forward", search).unwrap();
    assert_eq!(snap.cursor, 4);
    assert_eq!(snap.status_message.as_deref(), Some("I-Search forward: abc"));
}

#[test]
fn command_isearch_miss_reports_error_and_keeps_state() {
    let mut ed = EditorState::new();
    editor_command(&mut ed, "insert_text", insert_payload("abc")).unwrap();
    let search = Some(CommandPayload::Search(SearchPayload { query: "zzz".to_string() }));
    match editor_command(&mut ed, "isearch_forward", search) {
        Err(e) => assert_eq!(e, "Not found: zzz"),
        Ok(_) => panic!("expected an error"),
    }
    assert_eq!(ed.snapshot().text, "abc");
}

#[test]
fn command_keyboard_quit_sets_status_and_ends_session() {
    let mut ed = EditorState::new();
    editor_command(&mut ed, "insert_text", insert_payload("cat")).unwrap();
    ed.start_query_replace("cat".to_string(), "dog".to_string()).unwrap();
    let snap = editor_command(&mut ed, "keyboard_quit", None).unwrap();
    assert_eq!(snap.status_message.as_deref(), Some("Quit"));
    assert!(ed.buffers[0].query_replace_session.is_none());
}

#[test]
fn command_undo_and_redo() {
    let mut ed = EditorState::new();
    editor_command(&mut ed, "insert_text", insert_payload("one")).unwrap();
    let snap = editor_command(&mut ed, "undo", None).unwrap();
    assert_eq!(snap.text, "");
    let snap = editor_command(&mut ed, "redo", None).unwrap();
    assert_eq!(snap.text, "one");
}

#[test]
fn command_kill_line_fills_ring() {
    let mut ed = EditorState::new();
    editor_command(&mut ed, "insert_text", insert_payload("line\nrest")).unwrap();
    editor_command(
        &mut ed,
        "set_cursor",
        Some(CommandPayload::Cursor(CursorPayload { cursor: 0 })),
    )
    .unwrap();
    let snap = editor_command(&mut ed, "kill_line", None).unwrap();
    assert_eq!(snap.text, "rest");
    assert_eq!(ed.kill_ring[0], "line\n");
}
