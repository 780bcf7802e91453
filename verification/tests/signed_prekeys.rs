use base64::engine::general_purpose::STANDARD as B64;
use base64::Engine;
use messenger::client::crypto_mgr::{Change, CoreState, CryptoManager};
use messenger::crypto::keys::{generate_one_time_prekeys, IdentityKeyPair, SignedPreKey};
use messenger::protocol::{
    ClientMessage, EncryptedEnvelope, MessageId, OneTimePreKey, PreKeyBundle,
};
use messenger::table::{Table, TableChange};

const NOW: u64 = 1_700_000_000;

fn new_manager() -> CryptoManager {
    CryptoManager::restore(
        IdentityKeyPair::generate(),
        CoreState {
            signed_prekey: None,
            previous_signed_prekeys: Vec::new(),
            signed_prekey_rotated_at: 0,
            one_time_prekeys: Vec::new(),
            sessions: Table::new(),
            next_one_time_prekey_id: None,
            one_time_prekey_created_at: Table::new(),
        },
        Vec::new(),
        Table::new(),
        NOW,
    )
    .unwrap()
}

fn save(manager: &mut CryptoManager, change: Change) {
    assert!(manager.can_commit(&change));
    let _undo = manager.commit(change);
}

fn restart(manager: CryptoManager) -> CryptoManager {
    let identity = IdentityKeyPair::from_bytes(&manager.identity().to_bytes());
    let core = manager.core_state();
    CryptoManager::restore(
        identity,
        core,
        manager.pending_outbound,
        manager.processed_messages,
        NOW,
    )
    .unwrap()
}

fn encrypt(manager: &mut CryptoManager, peer: &str, plaintext: &[u8]) -> EncryptedEnvelope {
    let (session, envelope) = manager.advance_encryption(peer, plaintext).unwrap();
    let mut change = Change::none();
    change.sessions = TableChange::put_one(peer.to_owned(), session);
    save(manager, change);
    envelope
}

fn decrypt(manager: &mut CryptoManager, peer: &str, envelope: &EncryptedEnvelope) -> Vec<u8> {
    let (plaintext, change) = manager.decrypt_with_marker(peer, envelope, None, NOW).unwrap();
    save(manager, change);
    plaintext
}

fn bundle_for(
    manager: &CryptoManager,
    spk: &SignedPreKey,
    one_time_prekey: Option<OneTimePreKey>,
) -> PreKeyBundle {
    PreKeyBundle {
        identity_key: B64.encode(manager.identity().verifying_key().as_bytes()),
        signed_prekey: B64.encode(spk.public().as_bytes()),
        signed_prekey_id: spk.key_id(),
        signed_prekey_signature: B64.encode(spk.signature().to_bytes()),
        one_time_prekey,
    }
}

fn setup_alice_and_bob() -> (CryptoManager, CryptoManager) {
    let mut alice = new_manager();
    let mut bob = new_manager();
    let bob_spk = SignedPreKey::generate(0, bob.identity());
    let bob_opks = generate_one_time_prekeys(0, 5).unwrap();
    let change = bob.persist_registration_keys(&bob_spk, &bob_opks);
    save(&mut bob, change);
    let bundle = bundle_for(
        &bob,
        &bob_spk,
        Some(OneTimePreKey {
            key_id: bob_opks[0].key_id(),
            public_key: B64.encode(bob_opks[0].public().as_bytes()),
        }),
    );
    let change = alice.init_session_from_bundle("bob", &bundle, NOW).unwrap();
    save(&mut alice, change);
    (alice, bob)
}

fn rotate(manager: &mut CryptoManager) {
    manager.signed_prekey_rotated_at = 0;
    if let Some(change) = manager.queue_signed_prekey_rotation(NOW).unwrap() {
        save(manager, change);
    }
}

fn confirm(
    manager: &mut CryptoManager,
    rotation_id: &MessageId,
    accepted: bool,
    previously_accepted: bool,
    current_key_id: u32,
) -> Option<ClientMessage> {
    let (replacement, change) = manager
        .confirm_signed_prekey_rotated(
            rotation_id,
            accepted,
            previously_accepted,
            current_key_id,
            NOW,
        )
        .unwrap();
    save(manager, change);
    replacement
}

/// The answer to a rotation is taken, cannot be stored, and is undone.
fn fail_to_confirm(manager: &mut CryptoManager, rotation_id: &MessageId, current_key_id: u32) {
    let (_replacement, change) = manager
        .confirm_signed_prekey_rotated(rotation_id, false, true, current_key_id, NOW)
        .unwrap();
    assert!(manager.can_commit(&change));
    let undo = manager.commit(change);
    assert!(manager.can_commit(&undo));
    let _redo = manager.commit(undo);
}

fn queued_rotation(manager: &CryptoManager) -> (MessageId, u32) {
    manager
        .pending_messages()
        .into_iter()
        .find_map(|message| match message {
            ClientMessage::RotateSignedPreKey {
                rotation_id,
                key_id,
                ..
            } => Some((rotation_id, key_id)),
            _ => None,
        })
        .expect("signed prekey rotation queued")
}

fn history(manager: &CryptoManager) -> Vec<u32> {
    manager.previous_spks.iter().map(SignedPreKey::key_id).collect()
}

#[test]
fn rotation_is_durable_and_bounded() {
    let (_alice, mut bob) = setup_alice_and_bob();
    rotate(&mut bob);
    let (rotation_id, key_id) = queued_rotation(&bob);
    assert_eq!(key_id, 1);

    let mut bob = restart(bob);
    assert_eq!(bob.stored_spk.as_ref().unwrap().key_id(), 1);
    assert_eq!(bob.previous_spks[0].key_id(), 0);
    assert!(confirm(&mut bob, &rotation_id, true, false, 1).is_none());

    for expected_id in 2..=5 {
        rotate(&mut bob);
        let (rotation_id, key_id) = queued_rotation(&bob);
        assert_eq!(key_id, expected_id);
        assert!(confirm(&mut bob, &rotation_id, true, false, expected_id).is_none());
    }
    assert_eq!(bob.stored_spk.as_ref().unwrap().key_id(), 5);
    assert_eq!(history(&bob), vec![4, 3, 2]);
}

#[test]
fn first_message_decrypts_with_previous_key() {
    let (mut alice, mut bob) = setup_alice_and_bob();
    rotate(&mut bob);

    let envelope = encrypt(&mut alice, "bob", b"delayed first message");
    assert_eq!(
        decrypt(&mut bob, "alice", &envelope),
        b"delayed first message"
    );
}

#[test]
fn rejection_reconciles_and_survives_restart() {
    let (_alice, mut bob) = setup_alice_and_bob();
    rotate(&mut bob);
    let (rejected_id, rejected_key_id) = queued_rotation(&bob);
    assert_eq!(rejected_key_id, 1);

    let replacement =
        confirm(&mut bob, &rejected_id, false, false, 5).expect("replacement rotation");
    assert!(matches!(
        replacement,
        ClientMessage::RotateSignedPreKey { key_id: 6, .. }
    ));

    let mut bob = restart(bob);
    let (replacement_id, replacement_key_id) = queued_rotation(&bob);
    assert_eq!(replacement_key_id, 6);
    assert_ne!(replacement_id, rejected_id);
    assert_eq!(bob.stored_spk.as_ref().unwrap().key_id(), 6);
    assert!(confirm(&mut bob, &replacement_id, true, false, 6).is_none());
    assert!(bob.pending_messages().is_empty());
}

#[test]
fn rejection_reconciliation_is_atomic_on_failure() {
    let (_alice, mut bob) = setup_alice_and_bob();
    rotate(&mut bob);
    let (rejected_id, rejected_key_id) = queued_rotation(&bob);
    assert_eq!(rejected_key_id, 1);

    fail_to_confirm(&mut bob, &rejected_id, 5);
    assert_eq!(bob.stored_spk.as_ref().unwrap().key_id(), 1);
    assert_eq!(queued_rotation(&bob).0, rejected_id);

    let mut bob = restart(bob);
    assert_eq!(bob.stored_spk.as_ref().unwrap().key_id(), 1);
    assert_eq!(queued_rotation(&bob).0, rejected_id);
    let replacement =
        confirm(&mut bob, &rejected_id, false, false, 5).expect("replacement rotation");
    assert!(matches!(
        replacement,
        ClientMessage::RotateSignedPreKey { key_id: 6, .. }
    ));
}

#[test]
fn accepted_older_key_reconciles_to_server_current() {
    let (_alice, mut bob) = setup_alice_and_bob();
    rotate(&mut bob);
    let (older_id, older_key_id) = queued_rotation(&bob);
    assert_eq!(older_key_id, 1);
    let mut sender = new_manager();
    let bundle = bundle_for(&bob, bob.stored_spk.as_ref().unwrap(), None);
    let change = sender.init_session_from_bundle("bob", &bundle, NOW).unwrap();
    save(&mut sender, change);
    let delayed = encrypt(&mut sender, "bob", b"queued for older key");

    let replacement = confirm(&mut bob, &older_id, false, true, 2).expect("replacement rotation");
    assert!(matches!(
        replacement,
        ClientMessage::RotateSignedPreKey { key_id: 3, .. }
    ));

    let mut bob = restart(bob);
    assert_eq!(queued_rotation(&bob).1, 3);
    assert_eq!(bob.stored_spk.as_ref().unwrap().key_id(), 3);
    assert!(bob.previous_spks.iter().any(|key| key.key_id() == 1));
    assert_eq!(decrypt(&mut bob, "sender", &delayed), b"queued for older key");
}

#[test]
fn repeated_older_key_reconciliation_is_bounded_and_atomic() {
    let (_alice, mut bob) = setup_alice_and_bob();
    rotate(&mut bob);

    for current_key_id in [2, 4, 6] {
        let (rotation_id, _) = queued_rotation(&bob);
        confirm(&mut bob, &rotation_id, false, true, current_key_id);
    }
    assert_eq!(bob.previous_spks.len(), 3);

    let mut bob = restart(bob);
    let before_key_id = bob.stored_spk.as_ref().unwrap().key_id();
    let before_history = history(&bob);
    let (rotation_id, _) = queued_rotation(&bob);
    fail_to_confirm(&mut bob, &rotation_id, 8);
    assert_eq!(bob.stored_spk.as_ref().unwrap().key_id(), before_key_id);
    assert_eq!(history(&bob), before_history);
    assert_eq!(queued_rotation(&bob).0, rotation_id);

    let bob = restart(bob);
    assert_eq!(bob.stored_spk.as_ref().unwrap().key_id(), before_key_id);
    assert_eq!(bob.previous_spks.len(), 3);
    assert_eq!(queued_rotation(&bob).0, rotation_id);
}

#[test]
fn a_signed_prekey_is_kept_for_a_week() {
    let (_alice, mut bob) = setup_alice_and_bob();
    bob.signed_prekey_rotated_at = NOW;
    assert!(bob.queue_signed_prekey_rotation(NOW + 604_799).unwrap().is_none());
    assert!(bob.queue_signed_prekey_rotation(NOW + 604_800).unwrap().is_some());
}

#[test]
fn there_is_one_rotation_at_a_time() {
    let (_alice, mut bob) = setup_alice_and_bob();
    rotate(&mut bob);
    bob.signed_prekey_rotated_at = 0;
    assert!(bob.queue_signed_prekey_rotation(NOW).unwrap().is_none());
}
