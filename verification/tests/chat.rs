use base64::engine::general_purpose::STANDARD as B64;
use base64::Engine;
use messenger::client::chat::{
    compare_identity_key, history_from, message_text, split_lines, ChatEntry, IdentityKeyStatus,
    LineStyle, MessageDirection, StoredMessage,
};

#[test]
fn stored_message_to_chat_entry() {
    let sent = StoredMessage {
        peer_id: "bob".into(),
        direction: MessageDirection::Sent,
        body: "hello".into(),
    };
    let entry: ChatEntry = sent.into();
    assert!(matches!(entry, ChatEntry::Sent(t) if t == "hello"));

    let recv = StoredMessage {
        peer_id: "bob".into(),
        direction: MessageDirection::Received,
        body: "hi".into(),
    };
    let entry: ChatEntry = recv.into();
    assert!(
        matches!(entry, ChatEntry::Received { sender, text } if sender == "bob" && text == "hi")
    );
}

#[test]
fn history_is_shown_oldest_first() {
    let newest_first = vec![
        StoredMessage {
            peer_id: "bob".into(),
            direction: MessageDirection::Received,
            body: "second".into(),
        },
        StoredMessage {
            peer_id: "bob".into(),
            direction: MessageDirection::Sent,
            body: "first".into(),
        },
    ];
    let history = history_from(newest_first);
    assert_eq!(history.len(), 2);
    assert!(matches!(&history[0], ChatEntry::Sent(t) if t == "first"));
    assert!(matches!(&history[1], ChatEntry::Received { text, .. } if text == "second"));
}

#[test]
fn direction_codes_round_trip() {
    for direction in [MessageDirection::Sent, MessageDirection::Received] {
        assert_eq!(MessageDirection::from_code(direction.code()), Some(direction));
    }
    assert_eq!(MessageDirection::from_code(7), None);
}

#[test]
fn identity_key_change_detected() {
    let key1 = B64.encode([1u8; 32]);
    let key2 = B64.encode([2u8; 32]);
    assert!(matches!(compare_identity_key(None, &key1), IdentityKeyStatus::New));
    assert!(matches!(
        compare_identity_key(Some(key1.clone()), &key1),
        IdentityKeyStatus::Unchanged
    ));
    assert!(matches!(
        compare_identity_key(Some(key1), &key2),
        IdentityKeyStatus::Changed { .. }
    ));
}

#[test]
fn lines_are_split_at_newlines_only() {
    assert_eq!(split_lines("line 1\nline 2\n"), ["line 1", "line 2", ""]);
    assert_eq!(split_lines(""), [""]);
}

#[test]
fn active_chat_renders_sent_received_and_warning_entries() {
    let history = vec![
        ChatEntry::Received { sender: "bob".to_owned(), text: "hello".to_owned() },
        ChatEntry::Sent("hi back".to_owned()),
        ChatEntry::Warning("identity changed".to_owned()),
    ];
    let lines = message_text(&history);
    let texts: Vec<&str> = lines.iter().map(|line| line.text.as_str()).collect();
    assert_eq!(
        texts,
        ["bob", "hello", "", "You", "hi back", "", "\u{26a0} identity changed"]
    );
    assert!(lines.iter().any(|line| line.text == "hello" && line.style != lines[4].style));
    assert_eq!(lines[6].style, LineStyle::Warning);
}
