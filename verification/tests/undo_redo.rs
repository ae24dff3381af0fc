use femto_core::state::BufferState;
use femto_core::undo::{UndoSnapshot, UndoStack};

#[test]
fn undo_restores_prior_text_and_cursor() {
    let mut b = BufferState::new();
    b.insert_text("abc");
    b.insert_text("def");
    assert_eq!(b.buffer.as_str(), "abcdef");
    b.undo();
    assert_eq!(b.buffer.as_str(), "abc");
    assert_eq!(b.cursor, 3);
    assert_eq!(b.status_message.as_deref(), Some("Undo"));
    b.undo();
    assert_eq!(b.buffer.as_str(), "");
    assert_eq!(b.cursor, 0);
}

#[test]
fn undo_with_no_history_sets_status() {
    let mut b = BufferState::new();
    b.undo();
    assert_eq!(b.buffer.as_str(), "");
    assert_eq!(b.status_message.as_deref(), Some("Undo: no more changes"));
}

#[test]
fn redo_after_undo_restores_state_before_undo() {
    let mut b = BufferState::new();
    b.insert_text("abc");
    b.undo();
    assert_eq!(b.buffer.as_str(), "");
    b.redo();
    assert_eq!(b.buffer.as_str(), "abc");
    assert_eq!(b.cursor, 3);
    assert_eq!(b.status_message.as_deref(), Some("Redo"));
}

#[test]
fn redo_with_no_history_sets_status() {
    let mut b = BufferState::new();
    b.redo();
    assert_eq!(b.status_message.as_deref(), Some("Redo: no more changes"));
}

#[test]
fn new_edit_after_undo_discards_redo() {
    let mut b = BufferState::new();
    b.insert_text("abc");
    b.undo();
    b.insert_text("xyz");
    b.redo();
    assert_eq!(b.buffer.as_str(), "xyz");
    assert_eq!(b.status_message.as_deref(), Some("Redo: no more changes"));
}

#[test]
fn undo_and_redo_mark_modified() {
    let mut b = BufferState::new();
    b.insert_text("abc");
    b.mark_saved();
    assert!(!b.modified);
    b.undo();
    assert!(b.modified);
    b.mark_saved();
    b.redo();
    assert!(b.modified);
}

#[test]
fn undo_depth_caps_at_thousand() {
    let mut b = BufferState::new();
    for _ in 0..1002 {
        b.insert_text("x");
    }
    let mut undos = 0;
    loop {
        b.undo();
        if b.status_message.as_deref() == Some("Undo: no more changes") {
            break;
        }
        undos += 1;
        assert!(undos <= 1000);
    }
    assert_eq!(undos, 1000);
    // The two oldest snapshots were evicted, so two characters remain.
    assert_eq!(b.buffer.as_str(), "xx");
}

#[test]
fn undo_stack_push_pop_order() {
    let mut s = UndoStack::new();
    s.push_undo(UndoSnapshot { text: "one".to_string(), cursor: 1 });
    s.push_undo(UndoSnapshot { text: "two".to_string(), cursor: 2 });
    let top = s.pop_undo().unwrap();
    assert_eq!(top.text, "two");
    assert_eq!(top.cursor, 2);
    let next = s.pop_undo().unwrap();
    assert_eq!(next.text, "one");
    assert!(s.pop_undo().is_none());
}

#[test]
fn undo_stack_clear_all_empties_both() {
    let mut s = UndoStack::new();
    s.push_undo(UndoSnapshot { text: "a".to_string(), cursor: 0 });
    s.push_redo(UndoSnapshot { text: "b".to_string(), cursor: 0 });
    s.clear_all();
    assert!(s.pop_undo().is_none());
    assert!(s.pop_redo().is_none());
}

#[test]
fn undo_stack_clear_redo_keeps_undo() {
    let mut s = UndoStack::new();
    s.push_undo(UndoSnapshot { text: "a".to_string(), cursor: 0 });
    s.push_redo(UndoSnapshot { text: "b".to_string(), cursor: 0 });
    s.clear_redo();
    assert!(s.pop_redo().is_none());
    assert!(s.pop_undo().is_some());
}
