use smoltolk::chat::Chat;
use smoltolk::gemini::to_req_body;
use smoltolk::message::{Author, Message};

fn chat_with(texts: &[(&str, bool)]) -> Chat {
    let mut chat = Chat::new(String::from("test chat"));
    for (text, from_user) in texts {
        let author = if *from_user {
            Author::USER(String::from("you"))
        } else {
            Author::AI
        };
        chat.append(Message::new(String::from(*text), author));
    }
    chat
}

#[test]
fn empty_chat_encodes_to_an_empty_contents_array() {
    let chat = Chat::new(String::from("test chat"));
    assert_eq!(to_req_body(&chat), "{\"contents\":[]}");
}

#[test]
fn one_user_message_encodes_with_the_user_role() {
    let chat = chat_with(&[("hi", true)]);
    assert_eq!(
        to_req_body(&chat),
        "{\"contents\":[{\"role\":\"user\",\"parts\":[{\"text\":\"hi\"}]}]}"
    );
}

#[test]
fn assistant_messages_encode_with_the_model_role() {
    let chat = chat_with(&[("hi", true), ("hello", false)]);
    assert_eq!(
        to_req_body(&chat),
        "{\"contents\":[\
         {\"role\":\"user\",\"parts\":[{\"text\":\"hi\"}]},\
         {\"role\":\"model\",\"parts\":[{\"text\":\"hello\"}]}]}"
    );
}

#[test]
fn encoding_keeps_the_transcript_order() {
    let chat = chat_with(&[("a", true), ("b", false), ("c", true)]);
    let body = to_req_body(&chat);
    let a = body.find("\"a\"").unwrap();
    let b = body.find("\"b\"").unwrap();
    let c = body.find("\"c\"").unwrap();
    assert!(a < b && b < c);
}

#[test]
fn quotes_and_backslashes_are_escaped() {
    let chat = chat_with(&[("say \"hi\" \\ now", true)]);
    assert_eq!(
        to_req_body(&chat),
        "{\"contents\":[{\"role\":\"user\",\"parts\":[{\"text\":\"say \\\"hi\\\" \\\\ now\"}]}]}"
    );
}

#[test]
fn newlines_tabs_and_returns_get_short_escapes() {
    let chat = chat_with(&[("a\nb\tc\rd", true)]);
    let body = to_req_body(&chat);
    assert!(body.contains("a\\nb\\tc\\rd"));
    assert!(!body.contains('\n'));
}

#[test]
fn other_control_characters_get_unicode_escapes() {
    let chat = chat_with(&[("a\u{1}b\u{1f}c", true)]);
    let body = to_req_body(&chat);
    assert!(body.contains("a\\u0001b\\u001fc"));
}

#[test]
fn multi_byte_text_passes_through_unescaped() {
    let chat = chat_with(&[("héllo ∞", true)]);
    let body = to_req_body(&chat);
    assert!(body.contains("héllo ∞"));
}

fn reply_of(raw: &str) -> Option<String> {
    match smoltolk::gemini::to_response(String::from(raw)) {
        Ok(m) => {
            assert!(matches!(m.author, Author::AI));
            Some(m.text)
        }
        Err(e) => {
            assert_eq!(e, smoltolk::session::GatewayError::Malformed);
            None
        }
    }
}

#[test]
fn a_plain_response_decodes_to_its_reply_text() {
    let raw = "{\"candidates\":[{\"content\":{\"parts\":[{\"text\":\"hello\"}],\"role\":\"model\"},\"finishReason\":\"STOP\"}],\"usageMetadata\":{\"promptTokenCount\":3}}";
    assert_eq!(reply_of(raw), Some(String::from("hello")));
}

#[test]
fn decoding_tolerates_whitespace_and_member_order() {
    let raw = " { \"modelVersion\" : \"x\" ,\n \"candidates\" : [ { \"avgLogprobs\" : -0.25 , \"content\" : { \"role\" : \"model\" , \"parts\" : [ { \"text\" : \"hi there\" } ] } } ] } ";
    assert_eq!(reply_of(raw), Some(String::from("hi there")));
}

#[test]
fn decoding_resolves_short_escapes() {
    let raw = "{\"candidates\":[{\"content\":{\"parts\":[{\"text\":\"a\\nb\\t\\\"q\\\" \\\\ \\/\"}]}}]}";
    assert_eq!(reply_of(raw), Some(String::from("a\nb\t\"q\" \\ /")));
}

#[test]
fn decoding_resolves_unicode_escapes_and_surrogate_pairs() {
    let raw = "{\"candidates\":[{\"content\":{\"parts\":[{\"text\":\"A\\u0042 \\u00e9 \\ud83d\\ude00\"}]}}]}";
    assert_eq!(reply_of(raw), Some(String::from("AB é 😀")));
}

#[test]
fn decoding_skips_unrelated_nested_values() {
    let raw = "{\"a\":[1,2,{\"b\":[true,false,null,\"s\"]}],\"candidates\":[{\"x\":{\"y\":[]},\"content\":{\"z\":-1.5e3,\"parts\":[{\"text\":\"ok\"}]}}]}";
    assert_eq!(reply_of(raw), Some(String::from("ok")));
}

#[test]
fn an_empty_candidate_list_is_malformed() {
    assert_eq!(reply_of("{\"candidates\":[]}"), None);
}

#[test]
fn a_missing_text_member_is_malformed() {
    assert_eq!(
        reply_of("{\"candidates\":[{\"content\":{\"parts\":[{\"words\":\"x\"}]}}]}"),
        None
    );
}

#[test]
fn truncated_or_non_json_payloads_are_malformed() {
    assert_eq!(reply_of(""), None);
    assert_eq!(reply_of("not json"), None);
    assert_eq!(reply_of("{\"candidates\":[{\"content\":{\"parts\":[{\"text\":\"x"), None);
}

#[test]
fn a_lone_surrogate_escape_is_malformed() {
    assert_eq!(
        reply_of("{\"candidates\":[{\"content\":{\"parts\":[{\"text\":\"\\ud800\"}]}}]}"),
        None
    );
}

#[test]
fn encode_then_decode_round_trips_a_reply_text() {
    let chat = chat_with(&[("line one\nline \"two\" \\ \u{1}", false)]);
    let body = to_req_body(&chat);
    let wrapped = format!(
        "{{\"candidates\":[{{\"content\":{{\"parts\":[{{\"text\":{}}}]}}}}]}}",
        &body["{\"contents\":[{\"role\":\"model\",\"parts\":[{\"text\":".len()
            ..body.len() - "}]}]}".len()]
    );
    assert_eq!(
        reply_of(&wrapped),
        Some(String::from("line one\nline \"two\" \\ \u{1}"))
    );
}
