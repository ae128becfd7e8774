use chat_engine::codec::{decode, decode_chat, encode, encode_chat};
use chat_engine::types::{ChatMessage, Envelope, MsgTypes};

fn env(
    kind: MsgTypes,
    payload_list: Option<Vec<String>>,
    payload_single: Option<String>,
) -> Envelope {
    Envelope { kind, payload_list, payload_single }
}

#[test]
fn encode_register_exact_text() {
    let e = env(MsgTypes::Register, None, Some("alice".to_string()));
    assert_eq!(
        encode(&e),
        "{\"messageType\":\"register\",\"dataArray\":null,\"data\":\"alice\"}"
    );
}

#[test]
fn encode_users_exact_text() {
    let e = env(
        MsgTypes::Users,
        Some(vec!["alice".to_string(), "bob".to_string()]),
        None,
    );
    assert_eq!(
        encode(&e),
        "{\"messageType\":\"users\",\"dataArray\":[\"alice\",\"bob\"],\"data\":null}"
    );
}

#[test]
fn round_trip_register() {
    let e = env(MsgTypes::Register, None, Some("alice".to_string()));
    assert_eq!(decode(&encode(&e)).unwrap(), e);
}

#[test]
fn round_trip_users_two_names() {
    let e = env(
        MsgTypes::Users,
        Some(vec!["alice".to_string(), "bob".to_string()]),
        None,
    );
    assert_eq!(decode(&encode(&e)).unwrap(), e);
}

#[test]
fn round_trip_users_empty_list() {
    let e = env(MsgTypes::Users, Some(vec![]), None);
    assert_eq!(decode(&encode(&e)).unwrap(), e);
}

#[test]
fn round_trip_both_payloads_absent() {
    let e = env(MsgTypes::Message, None, None);
    assert_eq!(decode(&encode(&e)).unwrap(), e);
}

#[test]
fn round_trip_both_payloads_present() {
    let e = env(
        MsgTypes::Users,
        Some(vec!["a".to_string()]),
        Some("b".to_string()),
    );
    assert_eq!(decode(&encode(&e)).unwrap(), e);
}

#[test]
fn round_trip_escaped_characters() {
    let e = env(
        MsgTypes::Message,
        None,
        Some("say \"hi\" \\ now".to_string()),
    );
    assert_eq!(decode(&encode(&e)).unwrap(), e);
}

#[test]
fn round_trip_nested_message_payload() {
    let cm = ChatMessage { from: "alice".to_string(), body: "\u{1F600}".to_string() };
    let e = env(MsgTypes::Message, None, Some(encode_chat(&cm)));
    let back = decode(&encode(&e)).unwrap();
    assert_eq!(back, e);
    let inner = decode_chat(back.payload_single.as_deref().unwrap()).unwrap();
    assert_eq!(inner, cm);
}

#[test]
fn decode_users_frame_with_all_fields() {
    let got = decode("{\"messageType\":\"users\",\"dataArray\":[\"alice\",\"bob\"],\"data\":null}")
        .unwrap();
    assert_eq!(got.kind, MsgTypes::Users);
    assert_eq!(
        got.payload_list,
        Some(vec!["alice".to_string(), "bob".to_string()])
    );
    assert_eq!(got.payload_single, None);
}

#[test]
fn decode_message_frame_without_data_array() {
    let got = decode("{\"messageType\":\"message\",\"data\":\"{\\\"from\\\":\\\"alice\\\",\\\"message\\\":\\\"hi\\\"}\"}")
        .unwrap();
    assert_eq!(got.kind, MsgTypes::Message);
    assert_eq!(got.payload_list, None);
    let inner = decode_chat(got.payload_single.as_deref().unwrap()).unwrap();
    assert_eq!(inner.from, "alice");
    assert_eq!(inner.body, "hi");
}

#[test]
fn decode_rejects_unknown_kind() {
    assert!(decode("{\"messageType\":\"bogus\",\"dataArray\":null,\"data\":null}").is_err());
}

#[test]
fn decode_rejects_malformed_text() {
    assert!(decode("").is_err());
    assert!(decode("not json").is_err());
    assert!(decode("{\"messageType\":\"users\"").is_err());
    assert!(decode("{\"messageType\":\"users\",\"dataArray\":[\"a\"],\"data\":null}x").is_err());
    assert!(decode("{\"messageType\":\"users\",\"dataArray\":[\"a\",],\"data\":null}").is_err());
}

#[test]
fn decode_chat_rejects_malformed_payload() {
    assert!(decode_chat("").is_err());
    assert!(decode_chat("{\"from\":\"alice\"}").is_err());
    assert!(decode_chat("{\"message\":\"hi\",\"from\":\"alice\"}").is_err());
}

#[test]
fn decode_chat_accepts_escapes() {
    let got = decode_chat("{\"from\":\"a\",\"message\":\"q\\\"b\\\\c\"}").unwrap();
    assert_eq!(got.from, "a");
    assert_eq!(got.body, "q\"b\\c");
}
