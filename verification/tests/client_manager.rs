use base64::engine::general_purpose::STANDARD as B64;
use base64::Engine;
use messenger::client::crypto_mgr::{Change, CoreState, CryptoManager, InboundDecrypt};
use messenger::client::error::CryptoError;
use messenger::client::persistence::{decode_identity, LoadError};
use messenger::client::replay::{prune_processed, ProcessedMessage, ReplayLedger};
use messenger::crypto::keys::{generate_one_time_prekeys, IdentityKeyPair, SignedPreKey};
use messenger::protocol::{
    ClientMessage, EncryptedEnvelope, MessageHeader, MessageId, OneTimePreKey, PreKeyBundle,
    RatchetHeader, UserId,
};
use messenger::table::{Table, TableChange};

const NOW: u64 = 1_700_000_000;

fn empty_state() -> CoreState {
    CoreState {
        signed_prekey: None,
        previous_signed_prekeys: Vec::new(),
        signed_prekey_rotated_at: 0,
        one_time_prekeys: Vec::new(),
        sessions: Table::new(),
        next_one_time_prekey_id: None,
        one_time_prekey_created_at: Table::new(),
    }
}

fn new_manager() -> CryptoManager {
    CryptoManager::restore(
        IdentityKeyPair::generate(),
        empty_state(),
        Vec::new(),
        Table::new(),
        NOW,
    )
    .unwrap()
}

fn save(manager: &mut CryptoManager, change: Change) {
    assert!(manager.can_commit(&change));
    let _undo = manager.commit(change);
}

/// The change is made, cannot be stored, and is undone.
fn fail_to_save(manager: &mut CryptoManager, change: Change) {
    assert!(manager.can_commit(&change));
    let undo = manager.commit(change);
    assert!(manager.can_commit(&undo));
    let _redo = manager.commit(undo);
}

/// The manager out of what is stored of it.
fn restart(manager: CryptoManager) -> CryptoManager {
    let identity = IdentityKeyPair::from_bytes(&manager.identity().to_bytes());
    let core = manager.core_state();
    CryptoManager::restore(
        identity,
        core,
        manager.pending_outbound,
        manager.processed_messages,
        NOW,
    )
    .unwrap()
}

fn encrypt_unsaved(
    manager: &CryptoManager,
    peer: &str,
    plaintext: &[u8],
) -> (EncryptedEnvelope, Change) {
    let (session, envelope) = manager.advance_encryption(peer, plaintext).unwrap();
    let mut change = Change::none();
    change.sessions = TableChange::put_one(peer.to_owned(), session);
    (envelope, change)
}

fn encrypt(manager: &mut CryptoManager, peer: &str, plaintext: &[u8]) -> EncryptedEnvelope {
    let (envelope, change) = encrypt_unsaved(manager, peer, plaintext);
    save(manager, change);
    envelope
}

fn decrypt(
    manager: &mut CryptoManager,
    peer: &str,
    envelope: &EncryptedEnvelope,
) -> Result<Vec<u8>, CryptoError> {
    let (plaintext, change) = manager.decrypt_with_marker(peer, envelope, None, NOW)?;
    save(manager, change);
    Ok(plaintext)
}

fn bundle_for(
    manager: &CryptoManager,
    spk: &SignedPreKey,
    one_time_prekey: Option<OneTimePreKey>,
) -> PreKeyBundle {
    PreKeyBundle {
        identity_key: B64.encode(manager.identity().verifying_key().as_bytes()),
        signed_prekey: B64.encode(spk.public().as_bytes()),
        signed_prekey_id: spk.key_id(),
        signed_prekey_signature: B64.encode(spk.signature().to_bytes()),
        one_time_prekey,
    }
}

fn setup_alice_and_bob() -> (CryptoManager, CryptoManager) {
    let mut alice = new_manager();
    let mut bob = new_manager();

    let bob_spk = SignedPreKey::generate(0, bob.identity());
    let bob_opks = generate_one_time_prekeys(0, 5).unwrap();
    let change = bob.persist_registration_keys(&bob_spk, &bob_opks);
    save(&mut bob, change);

    let bundle = bundle_for(
        &bob,
        &bob_spk,
        Some(OneTimePreKey {
            key_id: bob_opks[0].key_id(),
            public_key: B64.encode(bob_opks[0].public().as_bytes()),
        }),
    );
    let change = alice.init_session_from_bundle("bob", &bundle, NOW).unwrap();
    save(&mut alice, change);

    (alice, bob)
}

fn forged(
    byte: (u8, u8, u8),
    one_time_prekey_id: Option<u32>,
    ciphertext: &[u8],
) -> EncryptedEnvelope {
    EncryptedEnvelope {
        version: 1,
        header: MessageHeader::PreKey {
            sender_identity_key: B64.encode([byte.0; 32]),
            sender_ephemeral_key: B64.encode([byte.1; 32]),
            recipient_signed_prekey_id: 0,
            recipient_one_time_prekey_id: one_time_prekey_id,
            ratchet: RatchetHeader {
                ratchet_key: B64.encode([byte.2; 32]),
                previous_chain_length: 0,
                message_number: 0,
            },
        },
        ciphertext: B64.encode(ciphertext),
    }
}

#[test]
fn alice_encrypt_bob_decrypt_prekey() {
    let (mut alice, mut bob) = setup_alice_and_bob();

    let envelope = encrypt(&mut alice, "bob", b"hello bob");
    assert!(matches!(envelope.header, MessageHeader::PreKey { .. }));

    let plaintext = decrypt(&mut bob, "alice", &envelope).unwrap();
    assert_eq!(plaintext, b"hello bob");

    assert!(bob.has_session("alice"));
    assert!(bob.stored_opks.len() == 0 || bob.stored_opks.len() == 4);
}

#[test]
fn forged_prekey_no_orphan_session_no_opk_consumed() {
    let (_alice, mut bob) = setup_alice_and_bob();
    let opk_count_before = bob.stored_opks.len();

    let result = decrypt(&mut bob, "mallory", &forged((1, 2, 3), Some(0), b"garbage"));
    assert!(result.is_err());
    assert!(!bob.has_session("mallory"));
    assert_eq!(bob.stored_opks.len(), opk_count_before);
}

#[test]
fn forged_prekey_of_the_current_version_changes_nothing() {
    let (_alice, mut bob) = setup_alice_and_bob();
    let mut envelope = forged((1, 2, 3), Some(0), b"garbage");
    envelope.version = 2;
    let opk_count_before = bob.stored_opks.len();

    assert!(decrypt(&mut bob, "mallory", &envelope).is_err());
    assert!(!bob.has_session("mallory"));
    assert_eq!(bob.stored_opks.len(), opk_count_before);
}

#[test]
fn existing_session_not_destroyed_by_prekey() {
    let (mut alice, mut bob) = setup_alice_and_bob();

    let env1 = encrypt(&mut alice, "bob", b"first");
    decrypt(&mut bob, "alice", &env1).unwrap();
    assert!(bob.has_session("alice"));

    let _ = decrypt(&mut bob, "alice", &forged((9, 9, 9), None, b"fake"));

    assert!(bob.has_session("alice"));
    let env2 = encrypt(&mut alice, "bob", b"second");
    let pt2 = decrypt(&mut bob, "alice", &env2).unwrap();
    assert_eq!(pt2, b"second");
}

#[test]
fn missing_opk_returns_error() {
    let (_alice, mut bob) = setup_alice_and_bob();

    let result = decrypt(&mut bob, "someone", &forged((1, 2, 3), Some(999), b"anything"));
    assert!(result.is_err());
}

#[test]
fn persistence_roundtrip() {
    let (mut alice, mut bob) = setup_alice_and_bob();

    let env1 = encrypt(&mut alice, "bob", b"persist me");
    decrypt(&mut bob, "alice", &env1).unwrap();

    let mut bob2 = restart(bob);
    assert!(bob2.has_session("alice"));

    let env2 = encrypt(&mut alice, "bob", b"after reload");
    let pt2 = decrypt(&mut bob2, "alice", &env2).unwrap();
    assert_eq!(pt2, b"after reload");
}

#[test]
fn disk_full_during_encrypt_does_not_release_or_advance_ciphertext() {
    let (mut alice, mut bob) = setup_alice_and_bob();

    let (_unsent, change) = encrypt_unsaved(&alice, "bob", b"send after restart");
    fail_to_save(&mut alice, change);

    let mut restarted = restart(alice);
    let envelope = encrypt(&mut restarted, "bob", b"send after restart");
    assert!(matches!(envelope.header, MessageHeader::PreKey { .. }));
    assert_eq!(
        decrypt(&mut bob, "alice", &envelope).unwrap(),
        b"send after restart"
    );
}

#[test]
fn disk_full_during_decrypt_preserves_session_and_opk_for_restart() {
    let (mut alice, mut bob) = setup_alice_and_bob();
    let envelope = encrypt(&mut alice, "bob", b"retry after restart");
    let opk_count = bob.stored_opks.len();

    let (_unseen, change) = bob.decrypt_with_marker("alice", &envelope, None, NOW).unwrap();
    fail_to_save(&mut bob, change);
    assert!(!bob.has_session("alice"));
    assert_eq!(bob.stored_opks.len(), opk_count);

    let mut restarted = restart(bob);
    assert_eq!(
        decrypt(&mut restarted, "alice", &envelope).unwrap(),
        b"retry after restart"
    );
}

#[test]
fn outbound_ciphertext_survives_restart_until_server_confirmation() {
    let (mut alice, mut bob) = setup_alice_and_bob();
    let message_id = MessageId::new();
    let second_message_id = MessageId::new();
    let recipient = UserId::new("bob").unwrap();
    let (_request, change) = alice
        .encrypt_message("bob", &recipient, &message_id, b"durable send")
        .unwrap();
    save(&mut alice, change);
    let (_request, change) = alice
        .encrypt_message("bob", &recipient, &second_message_id, b"ordered retry")
        .unwrap();
    save(&mut alice, change);

    let mut restarted = restart(alice);
    let pending = restarted.pending_messages();
    assert_eq!(pending.len(), 2);
    let ClientMessage::SendMessage {
        message_id: pending_id,
        envelope,
        ..
    } = &pending[0]
    else {
        panic!("expected pending message");
    };
    assert_eq!(pending_id, &message_id);
    assert_eq!(decrypt(&mut bob, "alice", envelope).unwrap(), b"durable send");
    let ClientMessage::SendMessage {
        message_id: pending_id,
        envelope,
        ..
    } = &pending[1]
    else {
        panic!("expected pending message");
    };
    assert_eq!(pending_id, &second_message_id);
    assert_eq!(decrypt(&mut bob, "alice", envelope).unwrap(), b"ordered retry");

    let change = restarted.confirm_message_sent(&message_id);
    save(&mut restarted, change);
    let change = restarted.confirm_message_sent(&second_message_id);
    save(&mut restarted, change);
    let confirmed = restart(restarted);
    assert!(confirmed.pending_messages().is_empty());
}

#[test]
fn processed_message_is_reacknowledged_without_redecrypting_after_restart() {
    let (mut alice, mut bob) = setup_alice_and_bob();
    let message_id = MessageId::new();
    let envelope = encrypt(&mut alice, "bob", b"ack after restart");
    let (read, change) = bob.decrypt_message_to_text("alice", &message_id, &envelope, NOW);
    assert!(matches!(read, InboundDecrypt::Pending(ref text) if text == "ack after restart"));
    save(&mut bob, change.unwrap());

    let mut restarted = restart(bob);
    let (read, change) = restarted.decrypt_message_to_text("alice", &message_id, &envelope, NOW);
    assert!(matches!(read, InboundDecrypt::Pending(ref text) if text == "ack after restart"));
    assert!(change.is_none());
    let change = restarted.confirm_inbound_stored("alice", &message_id);
    save(&mut restarted, change);
    let mut restarted = restart(restarted);
    assert!(matches!(
        restarted.decrypt_message_to_text("alice", &message_id, &envelope, NOW).0,
        InboundDecrypt::Duplicate
    ));
}

#[test]
fn read_receipt_survives_restart_until_server_confirmation() {
    let (mut alice, mut bob) = setup_alice_and_bob();
    let received_id = MessageId::new();
    let recipient = UserId::new("bob").unwrap();
    let (_request, change) = alice
        .encrypt_read_receipt("bob", &recipient, &vec![received_id])
        .unwrap();
    save(&mut alice, change);

    let mut restarted = restart(alice);
    let pending = restarted.pending_messages();
    assert_eq!(pending.len(), 1);
    let ClientMessage::SendReadReceipt { receipt_id, envelope, .. } = &pending[0] else {
        panic!("expected pending read receipt");
    };
    let plaintext = decrypt(&mut bob, "alice", envelope).unwrap();
    let ids: Vec<String> = serde_json::from_slice(&plaintext).unwrap();
    assert_eq!(ids, [received_id.to_text()]);

    let change = restarted.confirm_read_receipt_sent(receipt_id);
    save(&mut restarted, change);
    assert!(restart(restarted).pending_messages().is_empty());
}

#[test]
fn processed_message_retention_is_bounded_to_server_gc_window() {
    let mut processed: ReplayLedger = Table::new();
    processed.insert(
        ("alice".to_owned(), "expired".to_owned()),
        ProcessedMessage {
            pending_plaintext: None,
            processed_at: 1,
        },
    );
    processed.insert(
        ("alice".to_owned(), "current".to_owned()),
        ProcessedMessage {
            pending_plaintext: None,
            processed_at: 40 * 24 * 60 * 60,
        },
    );
    prune_processed(&mut processed, 40 * 24 * 60 * 60);
    assert!(!processed.contains(&("alice".to_owned(), "expired".to_owned())));
    assert!(processed.contains(&("alice".to_owned(), "current".to_owned())));
}

#[test]
fn registration_persistence_failure_restores_memory_and_disk() {
    let mut manager = new_manager();
    let spk = SignedPreKey::generate(0, manager.identity());
    let opks = generate_one_time_prekeys(0, 2).unwrap();

    let change = manager.persist_registration_keys(&spk, &opks);
    fail_to_save(&mut manager, change);
    assert!(manager.needs_registration());
    assert!(restart(manager).needs_registration());
}

#[test]
fn session_initialization_failure_restores_memory_and_disk() {
    let (mut alice, bob) = setup_alice_and_bob();
    let bundle = bundle_for(&bob, bob.stored_spk.as_ref().unwrap(), None);

    let change = alice.init_session_from_bundle("carol", &bundle, NOW).unwrap();
    fail_to_save(&mut alice, change);
    assert!(!alice.has_session("carol"));
    assert!(!restart(alice).has_session("carol"));
}

#[test]
fn established_decrypt_failure_restores_memory_and_disk() {
    let (mut alice, mut bob) = setup_alice_and_bob();
    let first = encrypt(&mut alice, "bob", b"first");
    decrypt(&mut bob, "alice", &first).unwrap();
    let second = encrypt(&mut alice, "bob", b"second");

    let (_unseen, change) = bob.decrypt_with_marker("alice", &second, None, NOW).unwrap();
    fail_to_save(&mut bob, change);
    let mut restarted = restart(bob);
    assert_eq!(decrypt(&mut restarted, "alice", &second).unwrap(), b"second");
}

#[test]
fn an_identity_file_of_the_wrong_length_is_corrupt() {
    assert!(decode_identity(&[7u8; 32]).is_ok());
    assert!(matches!(decode_identity(&[7u8; 31]), Err(LoadError::CorruptIdentity)));
    assert_eq!(LoadError::CorruptIdentity.message(), "corrupt identity key file");
}

#[test]
fn stored_state_with_a_bad_peer_name_is_refused() {
    let mut processed: ReplayLedger = Table::new();
    processed.insert(
        ("../alice".to_owned(), "id".to_owned()),
        ProcessedMessage { pending_plaintext: None, processed_at: NOW },
    );
    assert!(matches!(
        CryptoManager::restore(
            IdentityKeyPair::generate(),
            empty_state(),
            Vec::new(),
            processed,
            NOW,
        ),
        Err(LoadError::InvalidPeerId)
    ));
}

#[test]
fn a_conversation_goes_both_ways() {
    let (mut alice, mut bob) = setup_alice_and_bob();
    let hello = encrypt(&mut alice, "bob", b"hello");
    decrypt(&mut bob, "alice", &hello).unwrap();
    for round in 0..3u8 {
        let reply = encrypt(&mut bob, "alice", &[round, 1]);
        assert!(matches!(reply.header, MessageHeader::Ratchet(_)));
        assert_eq!(decrypt(&mut alice, "bob", &reply).unwrap(), [round, 1]);
        let next = encrypt(&mut alice, "bob", &[round, 2]);
        assert_eq!(decrypt(&mut bob, "alice", &next).unwrap(), [round, 2]);
    }
}

#[test]
fn a_replayed_message_is_not_decrypted_twice() {
    let (mut alice, mut bob) = setup_alice_and_bob();
    let envelope = encrypt(&mut alice, "bob", b"once");
    decrypt(&mut bob, "alice", &envelope).unwrap();
    assert!(decrypt(&mut bob, "alice", &envelope).is_err());
}

#[test]
fn a_message_of_another_version_is_refused() {
    let (mut alice, mut bob) = setup_alice_and_bob();
    let mut envelope = encrypt(&mut alice, "bob", b"hello");
    envelope.version = 1;
    assert_eq!(
        decrypt(&mut bob, "alice", &envelope).unwrap_err(),
        CryptoError::UnsupportedVersion(1)
    );
    assert_eq!(
        CryptoError::UnsupportedVersion(1).message(),
        "unsupported protocol version 1"
    );
}

#[test]
fn without_a_session_nothing_is_encrypted() {
    let manager = new_manager();
    let bob = UserId::new("bob").unwrap();
    assert!(matches!(
        manager.encrypt_message("bob", &bob, &MessageId::new(), b"hi"),
        Err(CryptoError::NoSession)
    ));
}

#[test]
fn a_bundle_with_a_foreign_signature_starts_no_session() {
    let (alice, bob) = setup_alice_and_bob();
    let other = new_manager();
    let foreign = SignedPreKey::generate(0, other.identity());
    let bundle = bundle_for(&bob, &foreign, None);
    assert!(matches!(
        alice.init_session_from_bundle("carol", &bundle, NOW),
        Err(CryptoError::X3dhFailed)
    ));
    let mut unreadable = bundle_for(&bob, bob.stored_spk.as_ref().unwrap(), None);
    unreadable.signed_prekey = "???".to_owned();
    assert!(matches!(
        alice.init_session_from_bundle("carol", &unreadable, NOW),
        Err(CryptoError::BadBundle)
    ));
}

#[test]
fn a_refused_message_takes_its_session_along() {
    let (mut alice, _bob) = setup_alice_and_bob();
    let message_id = MessageId::new();
    let bob = UserId::new("bob").unwrap();
    let (_request, change) =
        alice.encrypt_message("bob", &bob, &message_id, b"too late").unwrap();
    save(&mut alice, change);
    assert!(alice.reject_message(&MessageId::new()).is_none());
    let (recipient, change) = alice.reject_message(&message_id).unwrap();
    assert_eq!(recipient.as_str(), "bob");
    save(&mut alice, change);
    assert!(!alice.has_session("bob"));
    assert!(alice.pending_messages().is_empty());
}

#[test]
fn an_acknowledgement_empties_the_ledger() {
    let (mut alice, mut bob) = setup_alice_and_bob();
    let message_id = MessageId::new();
    let envelope = encrypt(&mut alice, "bob", b"hello");
    let (_read, change) = bob.decrypt_message_to_text("alice", &message_id, &envelope, NOW);
    save(&mut bob, change.unwrap());
    let (request, change) = bob.queue_ack(vec![message_id]).unwrap();
    save(&mut bob, change);
    let ClientMessage::Ack { ack_id, message_ids } = request else {
        panic!("expected an acknowledgement");
    };
    assert_eq!(message_ids, [message_id]);

    let change = bob.confirm_acked(&ack_id, &vec![MessageId::new()]);
    save(&mut bob, change);
    assert_eq!(bob.pending_messages().len(), 1);
    let change = bob.confirm_acked(&ack_id, &message_ids);
    save(&mut bob, change);
    assert!(bob.pending_messages().is_empty());
    assert_eq!(bob.processed_messages.len(), 0);
}

#[test]
fn replenishment_is_offered_once_and_dropped_when_refused() {
    let (_alice, mut bob) = setup_alice_and_bob();
    let before = bob.stored_opks.len();
    let (request, change) = bob.queue_prekey_replenishment().unwrap();
    save(&mut bob, change);
    let ClientMessage::UploadPreKeys { upload_id, prekeys } = request else {
        panic!("expected an upload");
    };
    assert_eq!(prekeys.len(), 100);
    assert_eq!(bob.stored_opks.len(), before + 100);
    for pair in prekeys.windows(2) {
        assert_eq!(pair[1].key_id, pair[0].key_id + 1);
    }

    let (again, change) = bob.queue_prekey_replenishment().unwrap();
    save(&mut bob, change);
    assert!(matches!(
        again,
        ClientMessage::UploadPreKeys { upload_id: repeated, .. } if repeated == upload_id
    ));

    let change = bob.confirm_prekeys_uploaded(&upload_id, false);
    save(&mut bob, change);
    assert_eq!(bob.stored_opks.len(), before);
    assert!(bob.pending_messages().is_empty());
}

#[test]
fn a_session_expires_with_its_reservation() {
    let (mut alice, _bob) = setup_alice_and_bob();
    assert!(alice.expire_stale_prekey_session("bob", NOW + 3600).is_none());
    let change = alice.expire_stale_prekey_session("bob", NOW + 3601).unwrap();
    save(&mut alice, change);
    assert!(!alice.has_session("bob"));
}

#[test]
fn a_session_in_use_does_not_expire() {
    let (mut alice, _bob) = setup_alice_and_bob();
    encrypt(&mut alice, "bob", b"hello");
    let first = alice.expire_stale_prekey_session("bob", u64::MAX);
    assert!(first.is_none());
}

#[test]
fn peers_are_listed_in_order() {
    let mut manager = new_manager();
    manager.add_pending("carol");
    manager.add_pending("alice");
    manager.add_pending("bob");
    manager.remove_pending("bob");
    assert_eq!(manager.pending_peers(), ["alice", "carol"]);
    assert!(manager.is_pending("carol"));
    assert!(!manager.is_pending("bob"));
}

#[test]
fn keys_count_from_the_restart_after_they_came() {
    let mut manager = new_manager();
    let spk = SignedPreKey::generate(0, manager.identity());
    let opks = generate_one_time_prekeys(0, 2).unwrap();
    let change = manager.persist_registration_keys(&spk, &opks);
    save(&mut manager, change);
    assert_eq!(manager.signed_prekey_rotated_at, 0);
    assert_eq!(manager.one_time_prekey_created_at.len(), 0);

    let mut manager = restart(manager);
    assert_eq!(manager.one_time_prekey_created_at.get(&1), Some(&NOW));
    let (_request, change) = manager.queue_prekey_replenishment().unwrap();
    save(&mut manager, change);
    assert_eq!(manager.stored_opks.len(), 102);
    assert_eq!(manager.one_time_prekey_created_at.len(), 2);
    assert_eq!(restart(manager).one_time_prekey_created_at.len(), 102);
}
