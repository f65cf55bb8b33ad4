use smoltolk::message::Author;
use smoltolk::session::{GatewayError, GatewayOutcome, Key, Mode, Session};

fn type_text(s: &mut Session, text: &str) {
    for c in text.chars() {
        let req = s.handle_key(Key::Char(c));
        assert!(req.is_none());
    }
}

#[test]
fn starts_in_normal_mode_with_one_empty_chat() {
    let s = Session::new(String::from("you"));
    assert_eq!(s.mode(), Mode::Normal);
    assert!(!s.should_quit());
    assert_eq!(s.chat_count(), 1);
    assert_eq!(s.chat_at(0).title, "test chat");
    assert_eq!(s.chat_at(0).messages.len(), 0);
    assert_eq!(s.input_text(), "");
    assert_eq!(s.input_char_count(), 0);
    assert_eq!(s.pending_count(), 0);
    assert_eq!(s.errors().len(), 0);
}

#[test]
fn normal_mode_ignores_other_keys() {
    let mut s = Session::new(String::from("you"));
    for k in [
        Key::Char('x'),
        Key::Char('z'),
        Key::Backspace,
        Key::Other,
        Key::Char('Q'),
    ] {
        let req = s.handle_key(k);
        assert!(req.is_none());
    }
    assert_eq!(s.mode(), Mode::Normal);
    assert_eq!(s.input_text(), "");
    assert!(!s.should_quit());
    assert_eq!(s.chat_at(0).messages.len(), 0);
    assert_eq!(s.pending_count(), 0);
}

#[test]
fn q_quits_from_normal_mode() {
    let mut s = Session::new(String::from("you"));
    s.handle_key(Key::Char('q'));
    assert!(s.should_quit());
}

#[test]
fn esc_quits_from_normal_mode() {
    let mut s = Session::new(String::from("you"));
    s.handle_key(Key::Esc);
    assert!(s.should_quit());
}

#[test]
fn i_enters_insert_mode_and_esc_leaves_it() {
    let mut s = Session::new(String::from("you"));
    s.handle_key(Key::Char('i'));
    assert_eq!(s.mode(), Mode::Insert);
    s.handle_key(Key::Esc);
    assert_eq!(s.mode(), Mode::Normal);
    assert!(!s.should_quit());
}

#[test]
fn typing_in_insert_mode_fills_the_buffer() {
    let mut s = Session::new(String::from("you"));
    s.handle_key(Key::Char('i'));
    type_text(&mut s, "hé!");
    assert_eq!(s.input_text(), "hé!");
    assert_eq!(s.input_char_count(), 3);
}

#[test]
fn typing_then_backspacing_restores_the_initial_buffer() {
    let mut s = Session::new(String::from("you"));
    s.handle_key(Key::Char('i'));
    type_text(&mut s, "ab");
    assert_eq!(s.input_text(), "ab");
    assert_eq!(s.input_char_count(), 2);
    s.handle_key(Key::Backspace);
    s.handle_key(Key::Backspace);
    assert_eq!(s.input_text(), "");
    assert_eq!(s.input_char_count(), 0);
    assert_eq!(s.mode(), Mode::Insert);
    assert_eq!(s.chat_at(0).messages.len(), 0);
    assert_eq!(s.pending_count(), 0);
}

#[test]
fn backspace_on_an_empty_buffer_is_a_no_op() {
    let mut s = Session::new(String::from("you"));
    s.handle_key(Key::Char('i'));
    s.handle_key(Key::Backspace);
    assert_eq!(s.input_text(), "");
    assert_eq!(s.input_char_count(), 0);
}

#[test]
fn submitting_an_empty_buffer_is_a_no_op() {
    let mut s = Session::new(String::from("you"));
    let req = s.handle_key(Key::Enter);
    assert!(req.is_none());
    assert_eq!(s.chat_at(0).messages.len(), 0);
    assert_eq!(s.pending_count(), 0);
}

#[test]
fn submit_appends_one_user_message_and_issues_one_call() {
    let mut s = Session::new(String::from("ada"));
    s.handle_key(Key::Char('i'));
    type_text(&mut s, "hello there");
    let req = s.handle_key(Key::Enter);
    let body = req.expect("a non-empty submit issues a call");
    assert_eq!(s.chat_at(0).messages.len(), 1);
    let m = &s.chat_at(0).messages[0];
    assert_eq!(m.text, "hello there");
    match &m.author {
        Author::USER(name) => assert_eq!(name, "ada"),
        Author::AI => panic!("the submitted message must be attributed to the user"),
    }
    assert_eq!(s.input_text(), "");
    assert_eq!(s.input_char_count(), 0);
    assert_eq!(s.pending_count(), 1);
    assert!(body.contains("hello there"));
}

#[test]
fn submit_works_from_normal_mode_too() {
    let mut s = Session::new(String::from("you"));
    s.handle_key(Key::Char('i'));
    type_text(&mut s, "hi");
    s.handle_key(Key::Esc);
    assert_eq!(s.mode(), Mode::Normal);
    let req = s.handle_key(Key::Enter);
    assert!(req.is_some());
    assert_eq!(s.chat_at(0).messages.len(), 1);
    assert_eq!(s.pending_count(), 1);
}

#[test]
fn full_exchange_appends_the_reply_and_clears_the_pending_call() {
    let mut s = Session::new(String::from("you"));
    s.handle_key(Key::Char('i'));
    assert_eq!(s.mode(), Mode::Insert);
    type_text(&mut s, "hi");
    let req = s.handle_key(Key::Enter);
    let body = req.expect("submit issues a call");
    assert_eq!(
        body,
        "{\"contents\":[{\"role\":\"user\",\"parts\":[{\"text\":\"hi\"}]}]}"
    );
    assert_eq!(s.mode(), Mode::Insert);
    assert_eq!(s.chat_at(0).messages.len(), 1);
    assert_eq!(s.pending_count(), 1);

    s.drain(vec![GatewayOutcome::Reply(String::from("hello"))]);
    let messages = &s.chat_at(0).messages;
    assert_eq!(messages.len(), 2);
    assert_eq!(messages[0].text, "hi");
    assert!(matches!(messages[0].author, Author::USER(_)));
    assert_eq!(messages[1].text, "hello");
    assert!(matches!(messages[1].author, Author::AI));
    assert_eq!(s.pending_count(), 0);
}

#[test]
fn draining_nothing_changes_nothing() {
    let mut s = Session::new(String::from("you"));
    s.handle_key(Key::Char('i'));
    type_text(&mut s, "hi");
    s.handle_key(Key::Enter);
    s.drain(vec![GatewayOutcome::Reply(String::from("hello"))]);
    s.drain(vec![]);
    s.drain(vec![]);
    assert_eq!(s.chat_at(0).messages.len(), 2);
    assert_eq!(s.pending_count(), 0);
    assert_eq!(s.errors().len(), 0);
}

#[test]
fn malformed_reply_mutates_no_transcript_and_records_one_error() {
    let mut s = Session::new(String::from("you"));
    s.handle_key(Key::Char('i'));
    type_text(&mut s, "hi");
    s.handle_key(Key::Enter);
    assert_eq!(s.pending_count(), 1);
    s.drain(vec![GatewayOutcome::Malformed]);
    assert_eq!(s.chat_at(0).messages.len(), 1);
    assert_eq!(s.errors().len(), 1);
    assert_eq!(s.errors()[0], GatewayError::Malformed);
    assert_eq!(s.pending_count(), 0);
    assert!(!s.should_quit());
    assert_eq!(s.mode(), Mode::Insert);
    assert_eq!(s.input_text(), "");
    let req = s.handle_key(Key::Char('x'));
    assert!(req.is_none());
    assert_eq!(s.input_text(), "x");
}

#[test]
fn transport_failure_mutates_no_transcript_and_records_one_error() {
    let mut s = Session::new(String::from("you"));
    s.handle_key(Key::Char('i'));
    type_text(&mut s, "hi");
    s.handle_key(Key::Enter);
    s.drain(vec![GatewayOutcome::TransportFailed]);
    assert_eq!(s.chat_at(0).messages.len(), 1);
    assert_eq!(s.errors().len(), 1);
    assert_eq!(s.errors()[0], GatewayError::Transport);
    assert!(!s.should_quit());
}

#[test]
fn two_outstanding_calls_resolve_in_completion_order() {
    let mut s = Session::new(String::from("you"));
    s.handle_key(Key::Char('i'));
    type_text(&mut s, "one");
    s.handle_key(Key::Enter);
    type_text(&mut s, "two");
    s.handle_key(Key::Enter);
    assert_eq!(s.pending_count(), 2);
    s.drain(vec![
        GatewayOutcome::Reply(String::from("first done")),
        GatewayOutcome::Reply(String::from("second done")),
    ]);
    let messages = &s.chat_at(0).messages;
    assert_eq!(messages.len(), 4);
    assert_eq!(messages[2].text, "first done");
    assert_eq!(messages[3].text, "second done");
    assert_eq!(s.pending_count(), 0);
}
