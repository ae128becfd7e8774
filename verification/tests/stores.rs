use chat_engine::store::{RosterStore, TranscriptStore};
use chat_engine::types::ChatMessage;

#[test]
fn replace_builds_one_profile_per_name_in_order() {
    let mut roster = RosterStore::new();
    roster.replace(vec!["alice".to_string(), "bob".to_string()]);
    let current = roster.current();
    assert_eq!(current.len(), 2);
    assert_eq!(current[0].name, "alice");
    assert_eq!(
        current[0].avatar,
        "https://avatars.dicebear.com/api/adventurer-neutral/alice.svg"
    );
    assert_eq!(current[1].name, "bob");
    assert_eq!(
        current[1].avatar,
        "https://avatars.dicebear.com/api/adventurer-neutral/bob.svg"
    );
}

#[test]
fn replace_is_idempotent_and_ignores_old_state() {
    let mut roster = RosterStore::new();
    roster.replace(vec!["old".to_string(), "names".to_string(), "gone".to_string()]);
    roster.replace(vec!["carol".to_string()]);
    let once: Vec<String> = roster.current().iter().map(|p| p.name.clone()).collect();
    roster.replace(vec!["carol".to_string()]);
    let twice: Vec<String> = roster.current().iter().map(|p| p.name.clone()).collect();
    assert_eq!(once, vec!["carol".to_string()]);
    assert_eq!(once, twice);
    assert_eq!(roster.current().len(), 1);
}

#[test]
fn replace_with_empty_list_empties_roster() {
    let mut roster = RosterStore::new();
    roster.replace(vec!["alice".to_string()]);
    roster.replace(vec![]);
    assert_eq!(roster.current().len(), 0);
}

#[test]
fn append_keeps_prior_entries_and_adds_one() {
    let mut transcript = TranscriptStore::new();
    transcript.append(ChatMessage { from: "a".to_string(), body: "one".to_string() });
    transcript.append(ChatMessage { from: "b".to_string(), body: "two".to_string() });
    let before: Vec<ChatMessage> = transcript.current().clone();
    let m = ChatMessage { from: "c".to_string(), body: "three".to_string() };
    transcript.append(m.clone());
    let after = transcript.current();
    assert_eq!(after.len(), before.len() + 1);
    assert_eq!(&after[..before.len()], &before[..]);
    assert_eq!(after[after.len() - 1], m);
}

#[test]
fn transcript_keeps_duplicates_in_order() {
    let mut transcript = TranscriptStore::new();
    let m = ChatMessage { from: "a".to_string(), body: "echo".to_string() };
    transcript.append(m.clone());
    transcript.append(m.clone());
    assert_eq!(transcript.current().len(), 2);
    assert_eq!(transcript.current()[0], m);
    assert_eq!(transcript.current()[1], m);
}
