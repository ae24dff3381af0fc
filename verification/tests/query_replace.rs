use femto_core::state::BufferState;

fn buf_with(text: &str) -> BufferState {
    let mut b = BufferState::new();
    b.insert_text(text);
    b.set_cursor(0);
    b
}

#[test]
fn qr_full_run_replaces_all_three() {
    let mut b = buf_with("cat cat cat");
    let st = b.start_query_replace("cat".to_string(), "dog".to_string()).unwrap();
    assert!(!st.done);
    assert_eq!(st.replaced_count, 0);
    assert_eq!(st.next_line, Some(1));
    assert_eq!(st.next_col, Some(1));
    assert_eq!(st.message, "Replace at L:1 C:1? (y/n/!/q)");

    let st1 = b.query_replace_step("y").unwrap();
    assert!(!st1.done);
    assert_eq!(st1.replaced_count, 1);
    assert_eq!(st1.message, "Replace at L:1 C:5? (y/n/!/q)");

    let st2 = b.query_replace_step("y").unwrap();
    assert!(!st2.done);
    assert_eq!(st2.replaced_count, 2);

    let st3 = b.query_replace_step("y").unwrap();
    assert!(st3.done);
    assert_eq!(st3.replaced_count, 3);
    assert_eq!(st3.message, "Replaced 3 occurrences");
    assert_eq!(b.buffer.as_str(), "dog dog dog");
    assert!(b.query_replace_session.is_none());
}

#[test]
fn qr_replace_all_terminates_with_growing_replacement() {
    let mut b = buf_with("aaaa");
    b.start_query_replace("a".to_string(), "aa".to_string()).unwrap();
    let st = b.query_replace_step("!").unwrap();
    assert!(st.done);
    // One left-to-right pass over the four original occurrences.
    assert_eq!(st.replaced_count, 4);
    assert_eq!(b.buffer.as_str(), "aaaaaaaa");
    assert!(b.query_replace_session.is_none());
    assert!(b.modified);
}

#[test]
fn qr_skip_advances_without_replacing() {
    let mut b = buf_with("cat cat");
    b.start_query_replace("cat".to_string(), "dog".to_string()).unwrap();
    let st = b.query_replace_step("n").unwrap();
    assert!(!st.done);
    assert_eq!(st.replaced_count, 0);
    assert_eq!(st.next_col, Some(5));
    assert_eq!(b.buffer.as_str(), "cat cat");
    let st2 = b.query_replace_step("y").unwrap();
    assert!(st2.done);
    assert_eq!(st2.replaced_count, 1);
    assert_eq!(b.buffer.as_str(), "cat dog");
}

#[test]
fn qr_quit_cancels_and_reports_count() {
    let mut b = buf_with("cat cat");
    b.start_query_replace("cat".to_string(), "dog".to_string()).unwrap();
    b.query_replace_step("y").unwrap();
    let st = b.query_replace_step("q").unwrap();
    assert!(st.done);
    assert_eq!(st.replaced_count, 1);
    assert_eq!(st.message, "Cancelled");
    assert_eq!(b.status_message.as_deref(), Some("Query replace cancelled (1 replaced)"));
    assert!(b.query_replace_session.is_none());
}

#[test]
fn qr_quit_without_session_reports_zero() {
    let mut b = buf_with("abc");
    let st = b.query_replace_step("q").unwrap();
    assert!(st.done);
    assert_eq!(st.replaced_count, 0);
    assert_eq!(st.message, "Cancelled");
}

#[test]
fn qr_step_without_session_is_error() {
    let mut b = buf_with("abc");
    match b.query_replace_step("y") {
        Err(e) => assert_eq!(e, "query replace is not active"),
        Ok(_) => panic!("expected an error"),
    }
}

#[test]
fn qr_bad_action_is_error() {
    let mut b = buf_with("cat");
    b.start_query_replace("cat".to_string(), "dog".to_string()).unwrap();
    match b.query_replace_step("x") {
        Err(e) => assert_eq!(e, "action must be one of y/n/!/q"),
        Ok(_) => panic!("expected an error"),
    }
    match b.query_replace_step("yy") {
        Err(e) => assert_eq!(e, "action must be one of y/n/!/q"),
        Ok(_) => panic!("expected an error"),
    }
    assert_eq!(b.buffer.as_str(), "cat");
}

#[test]
fn qr_actions_accept_either_case() {
    let mut b = buf_with("cat cat");
    b.start_query_replace("cat".to_string(), "dog".to_string()).unwrap();
    let st = b.query_replace_step("Y").unwrap();
    assert_eq!(st.replaced_count, 1);
    let st2 = b.query_replace_step("Q").unwrap();
    assert!(st2.done);
}

#[test]
fn qr_empty_query_is_rejected() {
    let mut b = buf_with("abc");
    match b.start_query_replace(String::new(), "x".to_string()) {
        Err(e) => assert_eq!(e, "query must not be empty"),
        Ok(_) => panic!("expected an error"),
    }
    assert!(b.query_replace_session.is_none());
}

#[test]
fn qr_start_with_no_match_finishes_at_once() {
    let mut b = buf_with("abc");
    let st = b.start_query_replace("zzz".to_string(), "x".to_string()).unwrap();
    assert!(st.done);
    assert_eq!(st.replaced_count, 0);
    assert_eq!(st.message, "Replaced 0 occurrences");
    assert!(b.query_replace_session.is_none());
}

#[test]
fn qr_prompt_reports_line_and_column() {
    let mut b = buf_with("xx\nyy cat");
    let st = b.start_query_replace("cat".to_string(), "dog".to_string()).unwrap();
    assert_eq!(st.next_line, Some(2));
    assert_eq!(st.next_col, Some(4));
    assert_eq!(st.message, "Replace at L:2 C:4? (y/n/!/q)");
    assert_eq!(b.cursor, 6);
}

#[test]
fn qr_replacement_may_be_empty() {
    let mut b = buf_with("a-b-c");
    b.start_query_replace("-".to_string(), String::new()).unwrap();
    let st = b.query_replace_step("!").unwrap();
    assert!(st.done);
    assert_eq!(st.replaced_count, 2);
    assert_eq!(b.buffer.as_str(), "abc");
}
