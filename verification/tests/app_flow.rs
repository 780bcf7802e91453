use std::collections::HashMap;

use base64::engine::general_purpose::STANDARD as B64;
use base64::Engine;
use messenger::client::app::App;
use messenger::client::chat::{compare_identity_key, ChatEntry, MessageDirection, StoredMessage};
use messenger::client::crypto_mgr::{CoreState, CryptoManager};
use messenger::client::error::CryptoError;
use messenger::client::input::{paste_action, Focus, KeyAction, PasteAction, Window};
use messenger::client::net::{registration_request, Backoff, ConnectionEnd};
use messenger::client::reactions::{prekey_upload_status, AppEvent};
use messenger::client::steps::{Clock, Step, Work};
use messenger::client::verification::{identity_warning, VerifyAction};
use messenger::client::view::Standing;
use messenger::crypto::keys::{generate_one_time_prekeys, IdentityKeyPair, SignedPreKey};
use messenger::protocol::{
    ClientMessage, EncryptedEnvelope, InboundMessage, MessageHeader, MessageId, OneTimePreKey,
    PreKeyBundle, RatchetHeader, ServerMessage, UserId,
};
use messenger::table::Table;

const CLOCK: Clock = Clock { unix_secs: 1_700_000_000, millis: 10_000 };

fn user(name: &str) -> UserId {
    UserId::new(name).unwrap()
}

fn new_crypto() -> CryptoManager {
    CryptoManager::restore(
        IdentityKeyPair::generate(),
        CoreState {
            signed_prekey: None,
            previous_signed_prekeys: Vec::new(),
            signed_prekey_rotated_at: 0,
            one_time_prekeys: Vec::new(),
            sessions: Table::new(),
            next_one_time_prekey_id: None,
            one_time_prekey_created_at: Table::new(),
        },
        Vec::new(),
        Table::new(),
        CLOCK.unix_secs,
    )
    .unwrap()
}

/// A client with an in-memory history.
struct Client {
    app: App,
    sent: Vec<ClientMessage>,
    stored: Vec<(String, MessageDirection, MessageId, String)>,
    identities: HashMap<String, String>,
    draft: String,
    disk_full: bool,
    history_full: bool,
}

impl Client {
    fn new(name: &str) -> Self {
        Client {
            app: App::new(user(name), new_crypto()),
            sent: Vec::new(),
            stored: Vec::new(),
            identities: HashMap::new(),
            draft: String::new(),
            disk_full: false,
            history_full: false,
        }
    }

    /// A client with registered keys, and a bundle of them.
    fn registered(name: &str) -> (Self, PreKeyBundle) {
        let mut client = Client::new(name);
        let spk = SignedPreKey::generate(0, client.app.crypto.identity());
        let opks = generate_one_time_prekeys(0, 5).unwrap();
        let change =
            client.app.crypto.persist_registration_keys(&spk, &opks);
        assert!(client.app.crypto.can_commit(&change));
        let _undo = client.app.crypto.commit(change);
        let bundle = PreKeyBundle {
            identity_key: B64.encode(client.app.crypto.identity().verifying_key().as_bytes()),
            signed_prekey: B64.encode(spk.public().as_bytes()),
            signed_prekey_id: spk.key_id(),
            signed_prekey_signature: B64.encode(spk.signature().to_bytes()),
            one_time_prekey: Some(OneTimePreKey {
                key_id: opks[0].key_id(),
                public_key: B64.encode(opks[0].public().as_bytes()),
            }),
        };
        (client, bundle)
    }

    fn run(&mut self, step: Step) {
        let mut step = step;
        loop {
            self.sent.append(&mut step.send);
            if step.clear_draft {
                self.draft.clear();
            }
            step = match step.work {
                Work::Done => break,
                Work::Save { change, next } => {
                    assert!(self.app.crypto.can_commit(&change));
                    let undo = self.app.crypto.commit(change);
                    let outcome = if self.disk_full {
                        assert!(self.app.crypto.can_commit(&undo));
                        let _redo = self.app.crypto.commit(undo);
                        Err(CryptoError::Persistence)
                    } else {
                        Ok(())
                    };
                    self.app.saved(next, outcome, CLOCK)
                }
                Work::Track { peer, identity_key, next } => {
                    let status =
                        compare_identity_key(self.identities.get(&peer).cloned(), &identity_key);
                    let warning = identity_warning(&peer, &status);
                    self.identities.insert(peer, identity_key);
                    self.app.compared(next, warning, CLOCK)
                }
                Work::Store { peer, direction, message_id, body, next } => {
                    let stored = if self.history_full {
                        None
                    } else {
                        let known = self.stored.iter().any(|row| row.2 == message_id);
                        if !known {
                            self.stored.push((peer, direction, message_id, body));
                        }
                        Some(!known)
                    };
                    self.app.stored(next, stored, CLOCK)
                }
                Work::Load { peer, fresh } => {
                    let newest_first = self
                        .stored
                        .iter()
                        .rev()
                        .filter(|row| row.0 == peer.as_str())
                        .map(|row| StoredMessage {
                            peer_id: row.0.clone(),
                            direction: row.1,
                            body: row.3.clone(),
                        })
                        .collect();
                    self.app.loaded(peer, newest_first, fresh, CLOCK)
                }
                Work::More(batch) => self.app.read_next(batch, CLOCK),
            };
        }
    }

    fn receive(&mut self, message: ServerMessage) {
        let step = self.app.handle_server_message(message, CLOCK);
        self.run(step);
    }

    fn happens(&mut self, event: AppEvent) {
        let step = self.app.handle_app_event(event, CLOCK);
        self.run(step);
    }

    fn open(&mut self, name: &str) {
        let step = self.app.open_conversation(name).unwrap();
        self.run(step);
    }

    fn enter(&mut self, draft: &str) {
        self.draft = draft.to_owned();
        let step = self.app.handle_enter(draft, CLOCK);
        self.run(step);
    }

    fn take_sent(&mut self) -> Vec<ClientMessage> {
        std::mem::take(&mut self.sent)
    }

    fn envelope_of_next_send(&mut self) -> (MessageId, EncryptedEnvelope) {
        for message in self.take_sent() {
            if let ClientMessage::SendMessage { message_id, envelope, .. } = message {
                return (message_id, envelope);
            }
        }
        panic!("no message was sent");
    }
}

/// Alice with a session to Bob, and Bob with registered keys.
fn alice_and_bob() -> (Client, Client) {
    let (bob, bundle) = Client::registered("bob");
    let mut alice = Client::new("alice");
    alice.happens(AppEvent::Authenticated);
    alice.open("bob");
    alice.receive(ServerMessage::PreKeyBundleResponse { user_id: user("bob"), bundle });
    assert_eq!(
        alice.app.notice_text(),
        Some("E2EE session established with bob \u{1f512}")
    );
    alice.take_sent();
    (alice, bob)
}

fn inbound(sender: &str, message_id: MessageId, envelope: EncryptedEnvelope) -> InboundMessage {
    InboundMessage { message_id, sender_id: user(sender), envelope, timestamp: 0 }
}

#[test]
fn inactive_authenticated_message_stays_out_of_active_chat_until_selected() {
    let (mut alice, mut bob) = alice_and_bob();
    bob.app.target_user = Some(user("carol"));
    alice.enter("private hello");
    let (message_id, envelope) = alice.envelope_of_next_send();

    bob.receive(ServerMessage::QueuedMessages {
        messages: vec![inbound("alice", message_id, envelope)],
    });

    assert!(bob.take_sent().iter().any(|message| matches!(
        message,
        ClientMessage::Ack { message_ids, .. } if *message_ids == [message_id]
    )));
    assert!(bob.app.chat_history.is_empty());
    assert_eq!(
        bob.app.unread_messages.get(&"alice".to_owned()),
        Some(&vec![message_id])
    );

    bob.open("alice");

    assert!(bob.app.chat_history.iter().any(|entry| matches!(
        entry,
        ChatEntry::Received { sender, text }
            if sender == "alice" && text == "private hello"
    )));
}

#[test]
fn enter_without_conversation_preserves_draft() {
    let mut client = Client::new("alice");
    client.enter("do not lose me");
    assert_eq!(client.draft, "do not lose me");
    assert_eq!(
        client.app.notice_text(),
        Some("choose a conversation before sending")
    );
}

#[test]
fn conversation_selection_survives_database_reordering() {
    let mut client = Client::new("alice");
    client.stored.push((
        "bob".to_owned(),
        MessageDirection::Received,
        MessageId::new(),
        "hello".to_owned(),
    ));
    client.app.focus = Focus::Conversations;
    client.app.selected_conversation = Some("bob".to_owned());
    client.stored.push((
        "carol".to_owned(),
        MessageDirection::Received,
        MessageId::new(),
        "newer".to_owned(),
    ));

    let selected = client.app.selected_conversation.clone().unwrap();
    client.open(&selected);

    assert_eq!(client.app.target_user.as_ref().map(UserId::as_str), Some("bob"));
}

#[test]
fn pending_new_conversation_remains_visible_and_selectable() {
    let mut client = Client::new("alice");
    client.open("bob");

    assert!(client.app.conversations(Vec::new()).iter().any(|peer| peer == "bob"));
    assert_eq!(client.app.selected_conversation.as_deref(), Some("bob"));

    client.app.target_user = None;
    client.app.focus = Focus::Conversations;
    let selected = client.app.selected_conversation.clone().unwrap();
    client.open(&selected);

    assert_eq!(client.app.target_user.as_ref().map(UserId::as_str), Some("bob"));
}

#[test]
fn a_message_is_sent_shown_and_confirmed() {
    let (mut alice, _bob) = alice_and_bob();
    alice.enter("  hello bob \n");
    assert_eq!(alice.draft, "");
    assert!(matches!(alice.app.chat_history.last(), Some(ChatEntry::Sent(t)) if t == "hello bob"));
    let (message_id, _) = alice.envelope_of_next_send();
    assert_eq!(alice.app.pending_msg_ids, [message_id]);

    alice.receive(ServerMessage::MessageSent { message_id });
    assert!(matches!(
        &alice.take_sent()[..],
        [ClientMessage::AckMessageSent { message_ids }] if *message_ids == [message_id]
    ));
    assert!(alice.app.crypto.pending_messages().is_empty());

    alice.receive(ServerMessage::MessageDelivered { message_ids: vec![MessageId::new()] });
    assert_ne!(alice.app.notice_text(), Some("  \u{2713}"));
    alice.receive(ServerMessage::MessageDelivered { message_ids: vec![message_id] });
    assert_eq!(alice.app.notice_text(), Some("  \u{2713}"));
    assert!(alice.app.pending_msg_ids.is_empty());
}

#[test]
fn a_live_message_opens_its_conversation_and_is_marked_as_read() {
    let (mut alice, mut bob) = alice_and_bob();
    alice.enter("hello bob");
    let (message_id, envelope) = alice.envelope_of_next_send();

    bob.receive(ServerMessage::IncomingMessage(inbound("alice", message_id, envelope.clone())));
    assert!(matches!(
        &bob.app.chat_history[..],
        [ChatEntry::Received { sender, text }] if sender == "alice" && text == "hello bob"
    ));
    let sent = bob.take_sent();
    assert!(matches!(&sent[0], ClientMessage::Ack { message_ids, .. } if *message_ids == [message_id]));
    let ClientMessage::SendReadReceipt { receipt_id, envelope: receipt, .. } = &sent[1] else {
        panic!("expected a read receipt");
    };

    alice.receive(ServerMessage::IncomingReadReceipt {
        sender_id: user("bob"),
        receipt_id: *receipt_id,
        envelope: receipt.clone(),
    });
    assert_eq!(alice.app.notice_text(), Some("  \u{2713}\u{2713}"));
    assert!(matches!(
        &alice.take_sent()[..],
        [ClientMessage::AckReadReceipt { receipt_ids, .. }] if *receipt_ids == [*receipt_id]
    ));

    bob.receive(ServerMessage::IncomingMessage(inbound("alice", message_id, envelope)));
    assert_eq!(bob.app.chat_history.len(), 1);
    assert!(matches!(&bob.take_sent()[..], [ClientMessage::Ack { .. }]));
}

#[test]
fn a_message_that_cannot_be_stored_is_not_acknowledged() {
    let (mut alice, mut bob) = alice_and_bob();
    alice.enter("hello bob");
    let (message_id, envelope) = alice.envelope_of_next_send();

    bob.disk_full = true;
    bob.receive(ServerMessage::IncomingMessage(inbound("alice", message_id, envelope.clone())));
    assert!(bob.take_sent().is_empty());
    assert!(!bob.app.crypto.has_session("alice"));

    bob.disk_full = false;
    bob.history_full = true;
    bob.receive(ServerMessage::IncomingMessage(inbound("alice", message_id, envelope.clone())));
    assert!(bob.take_sent().is_empty());

    bob.history_full = false;
    bob.receive(ServerMessage::IncomingMessage(inbound("alice", message_id, envelope)));
    assert_eq!(bob.stored.len(), 1);
    assert!(matches!(bob.take_sent()[0], ClientMessage::Ack { .. }));
}

#[test]
fn a_message_that_cannot_be_read_is_shown_as_such() {
    let mut bob = Client::registered("bob").0;
    bob.app.target_user = Some(user("mallory"));
    bob.receive(ServerMessage::IncomingMessage(inbound(
        "mallory",
        MessageId::new(),
        EncryptedEnvelope {
            version: 2,
            header: MessageHeader::Ratchet(RatchetHeader {
                ratchet_key: B64.encode([1u8; 32]),
                previous_chain_length: 0,
                message_number: 0,
            }),
            ciphertext: B64.encode(b"garbage"),
        },
    )));
    assert!(bob.take_sent().is_empty());
    assert!(matches!(
        &bob.app.chat_history[..],
        [ChatEntry::Received { text, .. }] if text == "[undecryptable message]"
    ));
}

#[test]
fn drafts_are_refused_with_a_reason() {
    let (mut alice, _bob) = alice_and_bob();
    alice.enter("   ");
    assert!(alice.take_sent().is_empty());

    alice.enter(&"x".repeat(524_288));
    assert_eq!(alice.app.notice_text(), Some("message too long"));

    alice.app.authenticated = false;
    alice.enter("hello");
    assert_eq!(alice.app.notice_text(), Some("waiting for server connection..."));
    alice.app.authenticated = true;

    alice.disk_full = true;
    alice.enter("hello");
    assert_eq!(
        alice.app.notice_text(),
        Some("encrypt error: cryptographic state could not be persisted")
    );
    assert_eq!(alice.draft, "hello");
    assert!(alice.take_sent().is_empty());

    alice.disk_full = false;
    alice.open("carol");
    alice.take_sent();
    alice.enter("hello");
    assert_eq!(alice.app.notice_text(), Some("waiting for session establishment..."));
}

#[test]
fn notes_stay_on_the_device() {
    let mut alice = Client::new("alice");
    alice.open("alice");
    assert_eq!(alice.app.notice_text(), Some("note to self"));
    alice.enter("remember");
    assert!(alice.take_sent().is_empty());
    assert_eq!(alice.stored.len(), 1);
    assert_eq!(alice.draft, "");

    alice.history_full = true;
    alice.enter("forget");
    assert_eq!(alice.app.notice_text(), Some("failed to save note"));
    assert_eq!(alice.draft, "forget");
}

#[test]
fn a_stale_session_is_refreshed_before_sending() {
    let (mut alice, _bob) = alice_and_bob();
    let later = Clock { unix_secs: CLOCK.unix_secs + 3_601, millis: CLOCK.millis };
    let step = alice.app.handle_enter("hello", later);
    alice.run(step);
    assert_eq!(alice.app.notice_text(), Some("refreshing expired session keys..."));
    assert!(matches!(
        &alice.take_sent()[..],
        [ClientMessage::FetchPreKeyBundle { target_user_id }] if target_user_id.as_str() == "bob"
    ));
    assert!(!alice.app.crypto.has_session("bob"));
}

#[test]
fn a_refused_message_asks_for_new_keys() {
    let (mut alice, _bob) = alice_and_bob();
    alice.enter("hello");
    let (message_id, _) = alice.envelope_of_next_send();
    alice.receive(ServerMessage::MessageRejected {
        message_id,
        reason: "signed pre-key expired".to_owned(),
    });
    assert_eq!(
        alice.app.notice_text(),
        Some("message rejected; refreshing session: signed pre-key expired")
    );
    assert!(matches!(
        &alice.take_sent()[..],
        [ClientMessage::FetchPreKeyBundle { .. }]
    ));
    assert!(alice.app.pending_msg_ids.is_empty());
    assert!(!alice.app.crypto.has_session("bob"));
}

#[test]
fn unfinished_requests_are_repeated_after_a_login() {
    let (mut alice, _bob) = alice_and_bob();
    alice.enter("hello");
    alice.open("carol");
    alice.take_sent();
    alice.happens(AppEvent::Disconnected);
    assert!(!alice.app.authenticated);
    assert!(alice.app.pending_msg_ids.is_empty());

    alice.happens(AppEvent::Connecting);
    alice.happens(AppEvent::Connected);
    alice.happens(AppEvent::Authenticated);
    assert!(matches!(
        &alice.take_sent()[..],
        [ClientMessage::SendMessage { .. }, ClientMessage::FetchPreKeyBundle { target_user_id }]
            if target_user_id.as_str() == "carol"
    ));
}

#[test]
fn a_login_rotates_an_old_signed_prekey() {
    let (mut bob, _bundle) = Client::registered("bob");
    bob.app.crypto.signed_prekey_rotated_at = 0;
    bob.happens(AppEvent::Authenticated);
    let sent = bob.take_sent();
    let [ClientMessage::RotateSignedPreKey { rotation_id, key_id: 1, .. }] = &sent[..] else {
        panic!("expected a rotation");
    };
    bob.receive(ServerMessage::SignedPreKeyRotated {
        rotation_id: *rotation_id,
        accepted: false,
        previously_accepted: false,
        current_key_id: 4,
    });
    assert_eq!(
        bob.app.notice_text(),
        Some("signed pre-key rotation reconciled; retrying")
    );
    let sent = bob.take_sent();
    let [ClientMessage::RotateSignedPreKey { rotation_id, key_id: 5, .. }] = &sent[..] else {
        panic!("expected a second rotation");
    };
    bob.receive(ServerMessage::SignedPreKeyRotated {
        rotation_id: *rotation_id,
        accepted: true,
        previously_accepted: false,
        current_key_id: 5,
    });
    assert_eq!(bob.app.notice_text(), Some("signed pre-key rotated"));
    assert!(bob.app.crypto.pending_messages().is_empty());
}

#[test]
fn time_passing_rotates_a_signed_prekey_once_logged_in() {
    let (mut bob, _bundle) = Client::registered("bob");
    let later = Clock { unix_secs: CLOCK.unix_secs + 604_800, millis: 0 };
    let step = bob.app.handle_lifecycle_tick(later);
    bob.run(step);
    assert!(bob.take_sent().is_empty());
    bob.app.authenticated = true;
    let step = bob.app.handle_lifecycle_tick(later);
    bob.run(step);
    assert!(matches!(
        &bob.take_sent()[..],
        [ClientMessage::RotateSignedPreKey { key_id: 1, .. }]
    ));
}

#[test]
fn low_prekeys_are_replenished() {
    let (mut bob, _bundle) = Client::registered("bob");
    bob.receive(ServerMessage::PreKeyLow { remaining: 3 });
    assert_eq!(
        bob.app.notice_text(),
        Some("replenishing one-time pre-keys (3 remaining)")
    );
    let sent = bob.take_sent();
    let [ClientMessage::UploadPreKeys { upload_id, .. }] = &sent[..] else {
        panic!("expected an upload");
    };
    bob.receive(ServerMessage::PreKeysUploaded {
        upload_id: *upload_id,
        accepted: true,
        remaining: 103,
    });
    assert_eq!(
        bob.app.notice_text(),
        Some("one-time pre-keys replenished (103 available)")
    );
    assert_eq!(
        prekey_upload_status(false, 7),
        "pre-key upload rejected (7 available)"
    );
}

#[test]
fn a_changed_identity_key_is_warned_about() {
    let (mut bob, _bundle) = Client::registered("bob");
    bob.app.track_peer_identity("alice", Some("changed".to_owned()), CLOCK);
    assert_eq!(bob.app.notice_text(), Some("security alert for alice"));
    bob.open("alice");
    assert!(matches!(
        &bob.app.chat_history[..],
        [ChatEntry::Warning(text)] if text == "changed"
    ));
    assert_eq!(bob.app.standing(), Some(Standing::Alert));
    let peer = bob.app.verification_peer(CLOCK).unwrap();
    bob.app.show_verification(&peer, VerifyAction::Confirm, true, Vec::new());
    assert!(matches!(bob.app.window, Window::Verification));
    assert_eq!(bob.app.standing(), Some(Standing::Establishing));
}

#[test]
fn verification_needs_a_contact() {
    let mut alice = Client::new("alice");
    assert!(alice.app.verification_peer(CLOCK).is_none());
    assert_eq!(
        alice.app.notice_text(),
        Some("choose a conversation before verifying")
    );
    alice.open("alice");
    assert!(alice.app.verification_peer(CLOCK).is_none());
    assert_eq!(
        alice.app.notice_text(),
        Some("note to self does not have a peer safety number")
    );
}

#[test]
fn typing_is_told_every_three_seconds() {
    let (mut alice, _bob) = alice_and_bob();
    let at = |millis| Clock { unix_secs: CLOCK.unix_secs, millis };
    assert!(matches!(
        alice.app.composer_changed(at(1_000)),
        Some(ClientMessage::Typing { recipient_id }) if recipient_id.as_str() == "bob"
    ));
    assert!(alice.app.composer_changed(at(4_000)).is_none());
    assert!(alice.app.composer_changed(at(4_001)).is_some());
    assert!(alice.app.notice.is_none());

    alice.receive(ServerMessage::PeerTyping { sender_id: user("carol") });
    assert!(alice.app.status_bar.typing.is_none());
    alice.receive(ServerMessage::PeerTyping { sender_id: user("bob") });
    assert!(alice.app.status_bar.typing.is_some());
}

#[test]
fn notices_go_away() {
    let mut alice = Client::new("alice");
    alice.app.start(false, CLOCK);
    assert_eq!(
        alice.app.notice_text(),
        Some("warning: message history unavailable")
    );
    let at = |millis| Clock { unix_secs: 0, millis };
    alice.app.tick_notice(at(CLOCK.millis + 5_000));
    assert!(alice.app.notice.is_some());
    alice.app.tick_notice(at(CLOCK.millis + 5_001));
    assert!(alice.app.notice.is_none());
    alice.receive(ServerMessage::Error { code: 400, message: "why".to_owned() });
    assert_eq!(alice.app.notice_text(), Some("server error: why"));
}

#[test]
fn every_conversation_is_listed_once() {
    let (mut alice, _bob) = alice_and_bob();
    alice.app.accumulate_unread("dave", MessageId::new());
    alice.app.crypto.add_pending("carol");
    let stored = vec!["erin".to_owned(), "bob".to_owned()];
    assert_eq!(
        alice.app.conversations(stored),
        ["erin", "bob", "carol", "dave", "alice"]
    );
    alice.app.sync_conversation_cursor(&vec!["erin".to_owned()]);
    assert_eq!(alice.app.selected_conversation.as_deref(), Some("bob"));
    alice.app.target_user = None;
    alice.app.sync_conversation_cursor(&vec!["erin".to_owned()]);
    assert_eq!(alice.app.selected_conversation.as_deref(), Some("erin"));
}

#[test]
fn unread_messages_are_bounded() {
    let mut alice = Client::new("alice");
    for _ in 0..150 {
        alice.app.accumulate_unread("bob", MessageId::new());
    }
    assert_eq!(alice.app.unread_messages.get(&"bob".to_owned()).unwrap().len(), 100);
}

#[test]
fn a_name_that_is_no_user_id_opens_nothing() {
    let alice = Client::new("alice");
    assert!(alice.app.open_conversation("../bob").is_err());
}

#[test]
fn attempts_to_connect_are_spaced_out() {
    let mut backoff = Backoff::new();
    let mut waits = Vec::new();
    for _ in 0..7 {
        waits.push(backoff.ended(ConnectionEnd::NotReached).1);
    }
    assert_eq!(waits, [1, 2, 4, 8, 16, 30, 30]);
    assert!(matches!(backoff.logged_in(), AppEvent::Authenticated));
    let (event, wait) = backoff.ended(ConnectionEnd::Lost);
    assert!(matches!(event, AppEvent::Disconnected));
    assert_eq!(wait, 1);
    assert!(matches!(
        backoff.ended(ConnectionEnd::Refused).0,
        AppEvent::AuthFailed(reason) if reason == "server rejected authentication"
    ));
    assert!(matches!(
        backoff.ended(ConnectionEnd::ChallengeFailed).0,
        AppEvent::AuthFailed(reason) if reason == "challenge-response failed"
    ));
}

#[test]
fn a_registration_names_every_key() {
    let identity = IdentityKeyPair::generate();
    let spk = SignedPreKey::generate(3, &identity);
    let opks = generate_one_time_prekeys(10, 2).unwrap();
    let request = registration_request(&user("alice"), &identity, &spk, &opks);
    let ClientMessage::Register { user_id, bundle, one_time_prekeys } = request else {
        panic!("expected a registration");
    };
    assert_eq!(user_id.as_str(), "alice");
    assert_eq!(bundle.identity_key, B64.encode(identity.verifying_key().as_bytes()));
    assert_eq!(bundle.signed_prekey_id, 3);
    assert!(bundle.one_time_prekey.is_none());
    assert_eq!(one_time_prekeys.len(), 2);
    assert_eq!(one_time_prekeys[1].key_id, 11);
    assert_eq!(
        one_time_prekeys[1].public_key,
        B64.encode(opks[1].public().as_bytes())
    );
}

#[test]
fn actions_change_one_thing_each() {
    let mut app = App::new(user("alice"), new_crypto());
    app.act(KeyAction::OpenNewChat);
    assert_eq!(app.window, Window::NewChat);
    app.act(KeyAction::OpenHelp);
    assert_eq!(app.window, Window::Help);
    app.act(KeyAction::CloseWindow);
    assert_eq!(app.window, Window::Closed);
    app.act(KeyAction::FocusConversations);
    assert_eq!((app.focus, app.window), (Focus::Conversations, Window::Closed));
    app.act(KeyAction::FocusComposer);
    assert_eq!(app.focus, Focus::Composer);
    app.act(KeyAction::PageUp);
    app.act(KeyAction::PageUp);
    assert_eq!(app.scroll.back, 20);
    app.act(KeyAction::PageDown);
    assert_eq!(app.scroll.back, 10);
    app.act(KeyAction::ScrollToEnd);
    assert_eq!(app.scroll.back, 0);
    app.act(KeyAction::PageDown);
    app.act(KeyAction::Send);
    assert_eq!(app.scroll.back, 0);
    assert!(app.running);
    app.act(KeyAction::Quit);
    assert!(!app.running);

    let names: Vec<String> = ["bob", "carol"].iter().map(|name| (*name).to_owned()).collect();
    app.select_conversation(&names, true);
    assert_eq!(app.selected_conversation.as_deref(), Some("carol"));
    app.select_conversation(&names, false);
    assert_eq!(app.selected_conversation.as_deref(), Some("bob"));
}

#[test]
fn a_new_chat_closes_its_window() {
    let mut app = App::new(user("alice"), new_crypto());
    let lines = |line: &str| vec![line.to_owned()];
    app.act(KeyAction::OpenNewChat);
    let step = app.submit_new_chat(&lines("  "), CLOCK);
    assert!(matches!(step.work, Work::Done));
    assert_eq!(app.window, Window::NewChat);

    let step = app.submit_new_chat(&lines(" bob "), CLOCK);
    assert!(matches!(
        step.work,
        Work::Load { peer, fresh: None } if peer.as_str() == "bob"
    ));
    assert_eq!(app.window, Window::Closed);

    app.act(KeyAction::OpenNewChat);
    let step = app.submit_new_chat(&lines("../bob"), CLOCK);
    assert!(matches!(step.work, Work::Done));
    assert_eq!(app.window, Window::Closed);
    assert_eq!(
        app.notice_text(),
        Some(
            "invalid username: invalid user id: user id contains a path separator or '..'"
        )
    );
}

#[test]
fn a_pasted_text_goes_where_it_can_be_seen() {
    for focus in [Focus::Composer, Focus::Conversations] {
        assert_eq!(paste_action(focus, Window::NewChat), PasteAction::NewChat);
        assert_eq!(paste_action(focus, Window::Help), PasteAction::Nothing);
        assert_eq!(paste_action(focus, Window::Verification), PasteAction::Nothing);
    }
    assert_eq!(paste_action(Focus::Composer, Window::Closed), PasteAction::Composer);
    assert_eq!(paste_action(Focus::Conversations, Window::Closed), PasteAction::Nothing);
}
