use smoltolk::message::{Author, Message};
use smoltolk::render::{split_text_lines, LineKind};
use smoltolk::session::{GatewayOutcome, Key, Session};

#[test]
fn splitting_separates_lines_at_newlines() {
    assert_eq!(split_text_lines("a\nb"), vec!["a", "b"]);
    assert_eq!(split_text_lines("a\n\nb"), vec!["a", "", "b"]);
}

#[test]
fn splitting_an_empty_text_yields_no_lines() {
    assert_eq!(split_text_lines(""), Vec::<String>::new());
}

#[test]
fn a_trailing_newline_opens_no_empty_line() {
    assert_eq!(split_text_lines("a\n"), vec!["a"]);
    assert_eq!(split_text_lines("\n"), vec![""]);
}

#[test]
fn a_user_message_renders_its_name_label_then_its_lines() {
    let m = Message::new(
        String::from("one\ntwo"),
        Author::USER(String::from("ada")),
    );
    let lines = m.render();
    assert_eq!(lines.len(), 3);
    assert_eq!(lines[0].text, "ada");
    assert_eq!(lines[0].kind, LineKind::UserLabel);
    assert_eq!(lines[1].text, "one");
    assert_eq!(lines[1].kind, LineKind::Body);
    assert_eq!(lines[2].text, "two");
    assert_eq!(lines[2].kind, LineKind::Body);
}

#[test]
fn an_assistant_message_renders_the_fixed_label() {
    let m = Message::new(String::from("hello"), Author::AI);
    let lines = m.render();
    assert_eq!(lines.len(), 2);
    assert_eq!(lines[0].text, "gemini");
    assert_eq!(lines[0].kind, LineKind::AssistantLabel);
    assert_eq!(lines[1].text, "hello");
}

#[test]
fn a_message_with_empty_text_renders_only_its_label() {
    let m = Message::new(String::new(), Author::AI);
    let lines = m.render();
    assert_eq!(lines.len(), 1);
    assert_eq!(lines[0].kind, LineKind::AssistantLabel);
}

#[test]
fn normal_mode_plan_shows_help_and_no_cursor() {
    let s = Session::new(String::from("you"));
    let p = s.render_plan();
    assert_eq!(p.title, "test chat");
    assert_eq!(p.lines.len(), 0);
    assert_eq!(p.input_text, "");
    assert_eq!(p.cursor_col, None);
    assert_eq!(p.status, "<i> to insert | <Enter> to submit | <q> to exit");
    assert_eq!(p.notice, None);
}

#[test]
fn insert_mode_plan_places_the_cursor_after_the_typed_characters() {
    let mut s = Session::new(String::from("you"));
    s.handle_key(Key::Char('i'));
    s.handle_key(Key::Char('é'));
    s.handle_key(Key::Char('b'));
    let p = s.render_plan();
    assert_eq!(p.input_text, "éb");
    assert_eq!(p.cursor_col, Some(2));
    assert_eq!(p.status, "<Esc> to exit insert mode");
}

#[test]
fn the_plan_lists_the_whole_exchange_in_order() {
    let mut s = Session::new(String::from("ada"));
    s.handle_key(Key::Char('i'));
    s.handle_key(Key::Char('h'));
    s.handle_key(Key::Char('i'));
    s.handle_key(Key::Enter);
    s.drain(vec![GatewayOutcome::Reply(String::from("hello"))]);
    let p = s.render_plan();
    assert_eq!(p.lines.len(), 4);
    assert_eq!(p.lines[0].text, "ada");
    assert_eq!(p.lines[0].kind, LineKind::UserLabel);
    assert_eq!(p.lines[1].text, "hi");
    assert_eq!(p.lines[2].text, "gemini");
    assert_eq!(p.lines[2].kind, LineKind::AssistantLabel);
    assert_eq!(p.lines[3].text, "hello");
}

#[test]
fn a_recoverable_error_surfaces_as_the_plan_notice() {
    let mut s = Session::new(String::from("you"));
    s.handle_key(Key::Char('i'));
    s.handle_key(Key::Char('x'));
    s.handle_key(Key::Enter);
    s.drain(vec![GatewayOutcome::Malformed]);
    let p = s.render_plan();
    assert_eq!(
        p.notice,
        Some(String::from("the gateway returned a malformed reply"))
    );
    let mut s2 = Session::new(String::from("you"));
    s2.handle_key(Key::Char('i'));
    s2.handle_key(Key::Char('x'));
    s2.handle_key(Key::Enter);
    s2.drain(vec![GatewayOutcome::TransportFailed]);
    let p2 = s2.render_plan();
    assert_eq!(
        p2.notice,
        Some(String::from("the request to the gateway failed"))
    );
}

#[test]
fn a_carriage_return_line_ending_counts_as_one_break() {
    assert_eq!(split_text_lines("a\r\nb"), vec!["a", "b"]);
    assert_eq!(split_text_lines("\r\n"), vec![""]);
    assert_eq!(split_text_lines("a\r\n"), vec!["a"]);
}

#[test]
fn a_carriage_return_without_a_newline_is_an_ordinary_character() {
    assert_eq!(split_text_lines("a\rb"), vec!["a\rb"]);
    assert_eq!(split_text_lines("a\r"), vec!["a\r"]);
}

#[test]
fn a_message_with_crlf_endings_renders_clean_lines() {
    let m = Message::new(
        String::from("one\r\ntwo\r\nthree"),
        Author::USER(String::from("ada")),
    );
    let lines = m.render();
    assert_eq!(lines.len(), 4);
    assert_eq!(lines[1].text, "one");
    assert_eq!(lines[2].text, "two");
    assert_eq!(lines[3].text, "three");
}
