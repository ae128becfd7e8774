use chat_engine::classify::RenderCategory;
use chat_engine::codec::decode;
use chat_engine::engine::{Chat, FrameError, Msg};
use chat_engine::types::MsgTypes;

#[test]
fn create_builds_register_frame() {
    let (chat, frame) = Chat::create("alice");
    assert_eq!(
        frame,
        "{\"messageType\":\"register\",\"dataArray\":null,\"data\":\"alice\"}"
    );
    assert_eq!(chat.users.current().len(), 0);
    assert_eq!(chat.messages.current().len(), 0);
}

#[test]
fn users_frame_replaces_roster_in_order() {
    let (mut chat, _) = Chat::create("me");
    let r = chat.handle_frame(
        "{\"messageType\":\"users\",\"dataArray\":[\"alice\",\"bob\"],\"data\":null}",
    );
    assert!(r.rerender);
    assert!(r.error.is_none());
    assert!(r.outbound.is_none());
    let names: Vec<String> = chat.users.current().iter().map(|p| p.name.clone()).collect();
    assert_eq!(names, vec!["alice".to_string(), "bob".to_string()]);
}

#[test]
fn users_frame_with_null_array_empties_roster() {
    let (mut chat, _) = Chat::create("me");
    chat.handle_frame("{\"messageType\":\"users\",\"dataArray\":[\"alice\"],\"data\":null}");
    let r = chat.handle_frame("{\"messageType\":\"users\",\"dataArray\":null,\"data\":null}");
    assert!(r.rerender);
    assert_eq!(chat.users.current().len(), 0);
}

#[test]
fn message_frame_appends_to_transcript_and_classifies() {
    let (mut chat, _) = Chat::create("me");
    chat.handle_frame("{\"messageType\":\"users\",\"dataArray\":[\"alice\"],\"data\":null}");
    let r = chat.handle_frame(
        "{\"messageType\":\"message\",\"data\":\"{\\\"from\\\":\\\"alice\\\",\\\"message\\\":\\\"\u{1F600}\\\"}\"}",
    );
    assert!(r.rerender);
    assert!(r.error.is_none());
    assert_eq!(chat.messages.current().len(), 1);
    assert_eq!(chat.messages.current()[0].from, "alice");
    assert_eq!(chat.messages.current()[0].body, "\u{1F600}");
    let rendered = chat.render_entry(0);
    assert_eq!(rendered.category, RenderCategory::SingleEmoji);
    assert!(rendered.known_user);
    assert_eq!(
        rendered.avatar,
        "https://avatars.dicebear.com/api/adventurer-neutral/alice.svg"
    );
}

#[test]
fn bogus_kind_is_dropped_without_state_change() {
    let (mut chat, _) = Chat::create("me");
    chat.handle_frame("{\"messageType\":\"users\",\"dataArray\":[\"alice\"],\"data\":null}");
    let r = chat.handle_frame("{\"messageType\":\"bogus\",\"dataArray\":null,\"data\":null}");
    assert!(!r.rerender);
    assert_eq!(r.error, Some(FrameError::Malformed));
    assert_eq!(chat.users.current().len(), 1);
    assert_eq!(chat.messages.current().len(), 0);
}

#[test]
fn malformed_nested_payload_drops_only_that_frame() {
    let (mut chat, _) = Chat::create("me");
    let r = chat.handle_frame("{\"messageType\":\"message\",\"data\":\"not a chat message\"}");
    assert!(!r.rerender);
    assert_eq!(r.error, Some(FrameError::MalformedNested));
    assert_eq!(chat.messages.current().len(), 0);
    let r2 = chat.handle_frame("{\"messageType\":\"message\",\"data\":null}");
    assert_eq!(r2.error, Some(FrameError::MalformedNested));
    assert_eq!(chat.messages.current().len(), 0);
}

#[test]
fn inbound_register_is_ignored() {
    let (mut chat, _) = Chat::create("me");
    let r = chat.handle_frame(
        "{\"messageType\":\"register\",\"dataArray\":null,\"data\":\"intruder\"}",
    );
    assert!(!r.rerender);
    assert!(r.error.is_none());
    assert_eq!(chat.users.current().len(), 0);
    assert_eq!(chat.messages.current().len(), 0);
}

#[test]
fn submit_builds_one_message_frame_with_raw_text() {
    let (mut chat, _) = Chat::create("me");
    let r = chat.update(Msg::SubmitMessage("hello".to_string()));
    assert!(!r.rerender);
    assert!(r.error.is_none());
    let frame = r.outbound.expect("one outbound frame");
    assert_eq!(
        frame,
        "{\"messageType\":\"message\",\"dataArray\":null,\"data\":\"hello\"}"
    );
    let env = decode(&frame).unwrap();
    assert_eq!(env.kind, MsgTypes::Message);
    assert_eq!(env.payload_single.as_deref(), Some("hello"));
    // Submitting does not touch the local transcript.
    assert_eq!(chat.messages.current().len(), 0);
}

#[test]
fn update_dispatches_inbound_frames() {
    let (mut chat, _) = Chat::create("me");
    let r = chat.update(Msg::HandleMsg(
        "{\"messageType\":\"users\",\"dataArray\":[\"bob\"],\"data\":null}".to_string(),
    ));
    assert!(r.rerender);
    assert!(r.outbound.is_none());
    assert_eq!(chat.users.current()[0].name, "bob");
}

#[test]
fn render_entry_for_unknown_sender_uses_placeholder() {
    let (mut chat, _) = Chat::create("me");
    chat.handle_frame(
        "{\"messageType\":\"message\",\"data\":\"{\\\"from\\\":\\\"ghost\\\",\\\"message\\\":\\\"boo\\\"}\"}",
    );
    let rendered = chat.render_entry(0);
    assert!(!rendered.known_user);
    assert_eq!(rendered.from, "ghost");
    assert_eq!(rendered.body, "boo");
    assert_eq!(rendered.category, RenderCategory::Text);
    assert_eq!(
        rendered.avatar,
        "https://avatars.dicebear.com/api/adventurer-neutral/ghost.svg"
    );
}
