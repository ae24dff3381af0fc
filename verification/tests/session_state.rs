use femto_core::state::{BufferState, EditorState};

#[test]
fn fresh_session_snapshot() {
    let ed = EditorState::new();
    let snap = ed.snapshot();
    assert_eq!(snap.text, "");
    assert_eq!(snap.cursor, 0);
    assert_eq!(snap.line, 1);
    assert_eq!(snap.col, 1);
    assert_eq!(snap.chars, 0);
    assert!(!snap.modified);
    assert_eq!(snap.encoding, "UTF-8");
    assert_eq!(snap.line_ending, "CRLF");
    assert!(snap.file_path.is_none());
    assert!(snap.status_message.is_none());
}

#[test]
fn snapshot_reports_line_and_column() {
    let mut ed = EditorState::new();
    ed.insert_text("ab\ncd");
    let snap = ed.snapshot();
    assert_eq!(snap.cursor, 5);
    assert_eq!(snap.line, 2);
    assert_eq!(snap.col, 3);
    assert_eq!(snap.chars, 5);
    assert!(snap.modified);
}

#[test]
fn load_content_replaces_document_and_clears_history() {
    let mut ed = EditorState::new();
    ed.insert_text("old");
    let buf = ed.current_mut();
    buf.load_content(
        "new text".to_string(),
        "Shift-JIS".to_string(),
        "LF".to_string(),
        "C:\\docs\\memo.txt".to_string(),
    );
    let snap = ed.snapshot();
    assert_eq!(snap.text, "new text");
    assert_eq!(snap.cursor, 0);
    assert!(!snap.modified);
    assert_eq!(snap.encoding, "Shift-JIS");
    assert_eq!(snap.line_ending, "LF");
    assert_eq!(snap.file_path.as_deref(), Some("C:\\docs\\memo.txt"));
    // The undo history of the old content is gone.
    ed.undo();
    assert_eq!(ed.snapshot().text, "new text");
}

#[test]
fn mark_saved_clears_modified() {
    let mut b = BufferState::new();
    b.insert_text("x");
    assert!(b.modified);
    b.mark_saved();
    assert!(!b.modified);
}

#[test]
fn name_of_scratch_buffer() {
    let b = BufferState::new();
    assert_eq!(b.name(), "*scratch*");
}

#[test]
fn name_is_final_path_segment() {
    let mut b = BufferState::new();
    b.set_file_path("C:\\dir\\file.txt".to_string());
    assert_eq!(b.name(), "file.txt");
    b.set_file_path("dir/sub/".to_string());
    assert_eq!(b.name(), "sub");
    b.set_file_path("notes".to_string());
    assert_eq!(b.name(), "notes");
}

#[test]
fn switch_to_buffer_by_name() {
    let mut ed = EditorState::new();
    let mut second = BufferState::new();
    second.set_file_path("a\\b.txt".to_string());
    ed.buffers.push(second);
    assert!(ed.switch_to_buffer("b.txt").is_ok());
    assert_eq!(ed.current_index, 1);
    assert_eq!(ed.prev_index, 0);
    assert_eq!(
        ed.buffers[1].status_message.as_deref(),
        Some("Switched to b.txt")
    );
}

#[test]
fn switch_to_unknown_buffer_is_error() {
    let mut ed = EditorState::new();
    match ed.switch_to_buffer("nope") {
        Err(e) => assert_eq!(e, "No buffer named 'nope'"),
        Ok(()) => panic!("expected an error"),
    }
    assert_eq!(ed.current_index, 0);
}

#[test]
fn buffer_names_lists_all() {
    let mut ed = EditorState::new();
    let mut second = BufferState::new();
    second.set_file_path("x\\y.rs".to_string());
    ed.buffers.push(second);
    assert_eq!(ed.buffer_names(), vec!["*scratch*".to_string(), "y.rs".to_string()]);
}

#[test]
fn find_buffer_by_path_matches_exactly() {
    let mut ed = EditorState::new();
    let mut second = BufferState::new();
    second.set_file_path("p\\q.txt".to_string());
    ed.buffers.push(second);
    assert_eq!(ed.find_buffer_by_path("p\\q.txt"), Some(1));
    assert_eq!(ed.find_buffer_by_path("other"), None);
}

#[test]
fn switch_to_index_tracks_previous() {
    let mut ed = EditorState::new();
    ed.buffers.push(BufferState::new());
    ed.switch_to_index(1);
    assert_eq!(ed.current_index, 1);
    assert_eq!(ed.prev_index, 0);
    ed.switch_to_index(1);
    assert_eq!(ed.prev_index, 0);
}

#[test]
fn default_switch_name_prefers_previous() {
    let mut ed = EditorState::new();
    let mut second = BufferState::new();
    second.set_file_path("a\\two.txt".to_string());
    ed.buffers.push(second);
    // Only one candidate besides the current buffer.
    assert_eq!(ed.default_switch_name(), "two.txt");
    ed.switch_to_index(1);
    assert_eq!(ed.default_switch_name(), "*scratch*");
}

#[test]
fn default_switch_name_with_single_buffer_names_itself() {
    let ed = EditorState::new();
    assert_eq!(ed.default_switch_name(), "*scratch*");
}

#[test]
fn shared_kill_ring_crosses_buffers() {
    let mut ed = EditorState::new();
    ed.insert_text("hello\n");
    ed.set_cursor(0);
    ed.kill_line();
    ed.buffers.push(BufferState::new());
    ed.switch_to_index(1);
    ed.yank();
    assert_eq!(ed.snapshot().text, "hello\n");
}

#[test]
fn current_and_kill_ring_are_disjoint() {
    let mut ed = EditorState::new();
    ed.push_kill_ring("frag".to_string());
    let (buf, ring) = ed.current_and_kill_ring();
    buf.insert_text("x");
    assert_eq!(ring[0], "frag");
}

#[test]
fn record_undo_snapshot_clears_redo() {
    let mut b = BufferState::new();
    b.insert_text("a");
    b.undo();
    b.record_undo_snapshot();
    b.redo();
    assert_eq!(b.status_message.as_deref(), Some("Redo: no more changes"));
}

#[test]
fn set_status_message_round_trip() {
    let mut b = BufferState::new();
    b.set_status_message(Some("hello".to_string()));
    assert_eq!(b.status_message.as_deref(), Some("hello"));
    b.set_status_message(None);
    assert!(b.status_message.is_none());
}
