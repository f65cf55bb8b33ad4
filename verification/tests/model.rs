use smoltolk::chat::Chat;
use smoltolk::input::InputBuffer;
use smoltolk::message::{Author, Message};

#[test]
fn a_new_chat_has_its_title_and_no_messages() {
    let c = Chat::new(String::from("afternoon"));
    assert_eq!(c.title, "afternoon");
    assert!(c.messages.is_empty());
}

#[test]
fn append_keeps_the_insertion_order() {
    let mut c = Chat::new(String::from("t"));
    c.append(Message::new(String::from("a"), Author::USER(String::from("u"))));
    c.append(Message::new(String::from("b"), Author::AI));
    assert_eq!(c.messages.len(), 2);
    assert_eq!(c.messages[0].text, "a");
    assert_eq!(c.messages[1].text, "b");
}

#[test]
fn duplicate_copies_a_chat_message_for_message() {
    let mut c = Chat::new(String::from("t"));
    c.append(Message::new(String::from("a"), Author::USER(String::from("u"))));
    c.append(Message::new(String::from("b"), Author::AI));
    let d = c.duplicate();
    assert_eq!(d.title, "t");
    assert_eq!(d.messages.len(), 2);
    assert_eq!(d.messages[0].text, "a");
    assert!(matches!(&d.messages[0].author, Author::USER(n) if n == "u"));
    assert_eq!(d.messages[1].text, "b");
    assert!(matches!(d.messages[1].author, Author::AI));
}

#[test]
fn a_message_keeps_its_text_and_author() {
    let m = Message::new(String::from("hé"), Author::USER(String::from("n")));
    assert_eq!(m.text, "hé");
    assert!(matches!(&m.author, Author::USER(n) if n == "n"));
}

#[test]
fn the_buffer_counts_characters_not_bytes() {
    let mut b = InputBuffer::new();
    b.push('é');
    b.push('∞');
    assert_eq!(b.as_str(), "é∞");
    assert_eq!(b.char_count(), 2);
    assert!(b.as_str().len() > 2);
}

#[test]
fn the_buffer_take_empties_it_and_returns_the_text() {
    let mut b = InputBuffer::new();
    b.push('h');
    b.push('i');
    let t = b.take();
    assert_eq!(t, "hi");
    assert_eq!(b.as_str(), "");
    assert_eq!(b.char_count(), 0);
    assert!(b.is_empty());
}

#[test]
fn the_buffer_backspace_saturates_at_zero() {
    let mut b = InputBuffer::new();
    b.backspace();
    assert_eq!(b.char_count(), 0);
    b.push('a');
    b.backspace();
    b.backspace();
    assert_eq!(b.char_count(), 0);
    assert_eq!(b.as_str(), "");
}
