use messenger::crypto::error::CryptoError;
use messenger::crypto::keys::{IdentityKeyPair, RatchetKeyPair, SignedPreKey};
use messenger::crypto::ratchet::{
    decrypt, encrypt, initialize_alice, initialize_bob, restore_skipped, skip_message_keys,
    RatchetHeader, SessionState, MAX_SKIP,
};

fn setup_session() -> (SessionState, SessionState) {
    let alice_ik = IdentityKeyPair::generate();
    let bob_ik = IdentityKeyPair::generate();
    let bob_spk = SignedPreKey::generate(0, &bob_ik);

    let bob_ratchet =
        RatchetKeyPair::from_bytes(bob_spk.secret().to_bytes(), bob_spk.public().to_bytes());

    let bundle = messenger::crypto::x3dh::PeerPreKeyBundle {
        identity_key: bob_ik.verifying_key(),
        signed_prekey: *bob_spk.public(),
        signed_prekey_id: 0,
        signed_prekey_signature: *bob_spk.signature(),
        one_time_prekey: None,
    };
    let x3dh_result = messenger::crypto::x3dh::alice_initiate(&alice_ik, &bundle).expect("x3dh");
    let bob_secret = messenger::crypto::x3dh::bob_respond(
        &bob_ik,
        &bob_spk,
        None,
        &alice_ik.verifying_key(),
        &x3dh_result.ephemeral_public,
    )
    .expect("x3dh bob");

    let alice_session =
        initialize_alice(x3dh_result.shared_secret, bob_spk.public()).expect("init alice");
    let bob_session = initialize_bob(bob_secret, bob_ratchet);

    (alice_session, bob_session)
}

/// A session taken apart and put together again, as it is when it is stored.
fn stored_and_loaded(session: &SessionState) -> SessionState {
    SessionState {
        root_key: session.root_key,
        our_ratchet: RatchetKeyPair::from_bytes(
            session.our_ratchet.secret_bytes,
            session.our_ratchet.public_bytes,
        ),
        their_ratchet_key: session.their_ratchet_key,
        sending_chain_key: session.sending_chain_key,
        receiving_chain_key: session.receiving_chain_key,
        send_count: session.send_count,
        recv_count: session.recv_count,
        previous_send_count: session.previous_send_count,
        skipped: restore_skipped(&session.skipped.entries()).expect("within the limit"),
    }
}

#[test]
fn basic_exchange() {
    let (mut alice, mut bob) = setup_session();

    let msg1 = encrypt(&mut alice, b"hello bob").expect("encrypt");
    let pt1 = decrypt(&mut bob, &msg1.header, &msg1.ciphertext).expect("decrypt");
    assert_eq!(pt1, b"hello bob");

    let msg2 = encrypt(&mut bob, b"hello alice").expect("encrypt");
    let pt2 = decrypt(&mut alice, &msg2.header, &msg2.ciphertext).expect("decrypt");
    assert_eq!(pt2, b"hello alice");
}

#[test]
fn multi_message_exchange() {
    let (mut alice, mut bob) = setup_session();

    let m1 = encrypt(&mut alice, b"msg 1").expect("e");
    let m2 = encrypt(&mut alice, b"msg 2").expect("e");
    let m3 = encrypt(&mut alice, b"msg 3").expect("e");

    assert_eq!(
        decrypt(&mut bob, &m1.header, &m1.ciphertext).expect("d"),
        b"msg 1"
    );
    assert_eq!(
        decrypt(&mut bob, &m2.header, &m2.ciphertext).expect("d"),
        b"msg 2"
    );
    assert_eq!(
        decrypt(&mut bob, &m3.header, &m3.ciphertext).expect("d"),
        b"msg 3"
    );

    let m4 = encrypt(&mut bob, b"reply 1").expect("e");
    let m5 = encrypt(&mut bob, b"reply 2").expect("e");
    assert_eq!(
        decrypt(&mut alice, &m4.header, &m4.ciphertext).expect("d"),
        b"reply 1"
    );
    assert_eq!(
        decrypt(&mut alice, &m5.header, &m5.ciphertext).expect("d"),
        b"reply 2"
    );

    let m6 = encrypt(&mut alice, b"final").expect("e");
    assert_eq!(
        decrypt(&mut bob, &m6.header, &m6.ciphertext).expect("d"),
        b"final"
    );
}

#[test]
fn out_of_order_delivery() {
    let (mut alice, mut bob) = setup_session();

    let m1 = encrypt(&mut alice, b"first").expect("e");
    let m2 = encrypt(&mut alice, b"second").expect("e");
    let m3 = encrypt(&mut alice, b"third").expect("e");

    assert_eq!(
        decrypt(&mut bob, &m3.header, &m3.ciphertext).expect("d"),
        b"third"
    );
    assert_eq!(
        decrypt(&mut bob, &m1.header, &m1.ciphertext).expect("d"),
        b"first"
    );
    assert_eq!(
        decrypt(&mut bob, &m2.header, &m2.ciphertext).expect("d"),
        b"second"
    );
}

#[test]
fn session_state_serialization() {
    let (alice, _bob) = setup_session();

    let restored = stored_and_loaded(&alice);

    assert_eq!(alice.root_key, restored.root_key);
    assert_eq!(alice.send_count, restored.send_count);
}

#[test]
fn restored_session_works() {
    let (mut alice, mut bob) = setup_session();

    let m1 = encrypt(&mut alice, b"before save").expect("e");
    assert_eq!(
        decrypt(&mut bob, &m1.header, &m1.ciphertext).expect("d"),
        b"before save"
    );

    let mut restored = stored_and_loaded(&alice);

    let m2 = encrypt(&mut bob, b"after restore").expect("e");
    assert_eq!(
        decrypt(&mut restored, &m2.header, &m2.ciphertext).expect("d"),
        b"after restore"
    );

    let m3 = encrypt(&mut restored, b"from restored").expect("e");
    assert_eq!(
        decrypt(&mut bob, &m3.header, &m3.ciphertext).expect("d"),
        b"from restored"
    );
}

#[test]
fn tampered_ciphertext_rejected_without_corrupting_session() {
    let (mut alice, mut bob) = setup_session();

    // Send a legitimate message first to establish the receiving chain
    let m1 = encrypt(&mut alice, b"legit 1").expect("e");
    assert_eq!(
        decrypt(&mut bob, &m1.header, &m1.ciphertext).expect("d"),
        b"legit 1"
    );

    // Forge a message with a tampered ciphertext
    let mut forged = encrypt(&mut alice, b"will be tampered").expect("e");
    if let Some(byte) = forged.ciphertext.last_mut() {
        *byte ^= 0xFF;
    }
    assert!(decrypt(&mut bob, &forged.header, &forged.ciphertext).is_err());

    // Session must still work after the forged message was rejected
    let m3 = encrypt(&mut alice, b"legit after forge").expect("e");
    assert_eq!(
        decrypt(&mut bob, &m3.header, &m3.ciphertext).expect("d"),
        b"legit after forge"
    );
}

#[test]
fn forged_dh_ratchet_does_not_corrupt_session() {
    let (mut alice, mut bob) = setup_session();

    let m1 = encrypt(&mut alice, b"setup").expect("e");
    assert_eq!(
        decrypt(&mut bob, &m1.header, &m1.ciphertext).expect("d"),
        b"setup"
    );

    // Bob replies to trigger a DH ratchet step
    let m2 = encrypt(&mut bob, b"reply").expect("e");
    assert_eq!(
        decrypt(&mut alice, &m2.header, &m2.ciphertext).expect("d"),
        b"reply"
    );

    // Alice sends another — Bob will need a DH ratchet step to decrypt
    let m3 = encrypt(&mut alice, b"after ratchet").expect("e");

    // Forge a message with Alice's ratchet key but garbage ciphertext.
    // This forces Bob through the DH ratchet step code path before AEAD fails.
    let forged_header = RatchetHeader {
        ratchet_key: m3.header.ratchet_key,
        previous_chain_length: m3.header.previous_chain_length,
        message_number: 999,
    };
    assert!(decrypt(&mut bob, &forged_header, b"garbage").is_err());

    // Bob's session must still decrypt the real message
    assert_eq!(
        decrypt(&mut bob, &m3.header, &m3.ciphertext).expect("d"),
        b"after ratchet"
    );
}

#[test]
fn replay_rejected() {
    let (mut alice, mut bob) = setup_session();

    let msg = encrypt(&mut alice, b"once only").expect("e");
    assert_eq!(
        decrypt(&mut bob, &msg.header, &msg.ciphertext).expect("d"),
        b"once only"
    );

    // Replaying the same message should fail — the message key was consumed
    assert!(decrypt(&mut bob, &msg.header, &msg.ciphertext).is_err());
}

#[test]
fn wrong_session_fails() {
    let (mut alice1, _) = setup_session();
    let (_, mut bob2) = setup_session();

    let msg = encrypt(&mut alice1, b"wrong session").expect("e");
    assert!(decrypt(&mut bob2, &msg.header, &msg.ciphertext).is_err());
}

#[test]
fn skipped_key_limit_exceeded() {
    let (mut alice, mut bob) = setup_session();

    let mut messages = Vec::new();
    for i in 0..MAX_SKIP + 2 {
        let msg = encrypt(&mut alice, format!("msg {i}").as_bytes()).expect("e");
        messages.push(msg);
    }

    let last = messages.last().expect("last");
    assert!(matches!(
        decrypt(&mut bob, &last.header, &last.ciphertext),
        Err(CryptoError::SkippedKeyLimitExceeded)
    ),);
}

/// Receive message 3 first (skipping 0-2), then receive 4 in-order.
/// This catches a bug where recv_count increments by 1 instead of
/// tracking message_number+1 after a gap.
#[test]
fn in_order_after_gap() {
    let (mut alice, mut bob) = setup_session();

    let m0 = encrypt(&mut alice, b"zero").expect("e");
    let m1 = encrypt(&mut alice, b"one").expect("e");
    let m2 = encrypt(&mut alice, b"two").expect("e");
    let m3 = encrypt(&mut alice, b"three").expect("e");
    let m4 = encrypt(&mut alice, b"four").expect("e");

    // Deliver m3 first — skips keys for 0, 1, 2
    assert_eq!(
        decrypt(&mut bob, &m3.header, &m3.ciphertext).expect("d"),
        b"three"
    );
    // Deliver m4 in-order after the gap
    assert_eq!(
        decrypt(&mut bob, &m4.header, &m4.ciphertext).expect("d"),
        b"four"
    );
    // Now deliver the skipped messages out of order
    assert_eq!(
        decrypt(&mut bob, &m1.header, &m1.ciphertext).expect("d"),
        b"one"
    );
    assert_eq!(
        decrypt(&mut bob, &m0.header, &m0.ciphertext).expect("d"),
        b"zero"
    );
    assert_eq!(
        decrypt(&mut bob, &m2.header, &m2.ciphertext).expect("d"),
        b"two"
    );
}

/// Out-of-order delivery across a DH ratchet step: Alice sends m1, m2 on
/// chain A, Bob receives m1 and replies (triggering DH ratchet), Alice
/// sends m3 on chain B, Bob receives m3 first then late m2 from chain A.
#[test]
fn out_of_order_across_dh_ratchet() {
    let (mut alice, mut bob) = setup_session();

    let m1 = encrypt(&mut alice, b"first").expect("e");
    let m2 = encrypt(&mut alice, b"second").expect("e");

    // Bob receives m1 and replies — triggers DH ratchet
    assert_eq!(
        decrypt(&mut bob, &m1.header, &m1.ciphertext).expect("d"),
        b"first"
    );
    let reply = encrypt(&mut bob, b"reply").expect("e");
    assert_eq!(
        decrypt(&mut alice, &reply.header, &reply.ciphertext).expect("d"),
        b"reply"
    );

    // Alice sends on new chain (after DH ratchet)
    let m3 = encrypt(&mut alice, b"third").expect("e");

    // Bob receives m3 first (new chain), then late m2 (old chain)
    assert_eq!(
        decrypt(&mut bob, &m3.header, &m3.ciphertext).expect("d"),
        b"third"
    );
    assert_eq!(
        decrypt(&mut bob, &m2.header, &m2.ciphertext).expect("d"),
        b"second"
    );
}

#[test]
fn send_counter_exhaustion() {
    let (mut alice, _bob) = setup_session();
    alice.send_count = u32::MAX;
    let chain_key_before = alice.sending_chain_key;
    assert!(matches!(
        encrypt(&mut alice, b"should fail"),
        Err(CryptoError::MessageCounterExhausted)
    ));
    // State must be unchanged after the error — no chain key advancement
    assert_eq!(alice.sending_chain_key, chain_key_before);
    assert_eq!(alice.send_count, u32::MAX);
}

/// Bob's sending chain is None until he receives Alice's first message.
#[test]
fn bob_cannot_send_before_receiving() {
    let (_alice, mut bob) = setup_session();
    assert!(matches!(
        encrypt(&mut bob, b"eager"),
        Err(CryptoError::NoSession)
    ));
}

#[test]
fn recv_counter_exhaustion() {
    let (mut alice, mut bob) = setup_session();

    // Send a normal message so Bob has a receiving chain
    let m1 = encrypt(&mut alice, b"setup").expect("e");
    assert_eq!(
        decrypt(&mut bob, &m1.header, &m1.ciphertext).expect("d"),
        b"setup"
    );

    // Craft a message with message_number = u32::MAX
    let mut m2 = encrypt(&mut alice, b"overflow").expect("e");
    m2.header.message_number = u32::MAX;

    // Decryption should fail (AEAD will reject the tampered header via AAD mismatch,
    // but even if it somehow passed, checked_add would catch it). The session
    // must survive due to snapshot/rollback.
    assert!(decrypt(&mut bob, &m2.header, &m2.ciphertext).is_err());

    // Session still works after the failed attempt
    let m3 = encrypt(&mut alice, b"still works").expect("e");
    assert_eq!(
        decrypt(&mut bob, &m3.header, &m3.ciphertext).expect("d"),
        b"still works"
    );
}

fn orders(count: usize) -> Vec<Vec<usize>> {
    if count == 0 {
        return vec![Vec::new()];
    }
    let mut out = Vec::new();
    for order in orders(count - 1) {
        for place in 0..count {
            let mut longer = order.clone();
            longer.insert(place, count - 1);
            out.push(longer);
        }
    }
    out
}

fn kept(session: &SessionState) -> Vec<([u8; 32], u32, [u8; 32])> {
    let mut keys: Vec<([u8; 32], u32, [u8; 32])> = session
        .skipped
        .entries()
        .iter()
        .map(|entry| (entry.ratchet_key, entry.message_number, entry.message_key))
        .collect();
    keys.sort_unstable();
    keys
}

#[test]
fn a_chain_is_read_in_every_order() {
    let (mut alice, bob) = setup_session();
    let texts: [&[u8]; 4] = [b"zero", b"one", b"two", b"three"];
    let sent: Vec<_> = texts.iter().map(|text| encrypt(&mut alice, text).expect("e")).collect();
    let all = orders(4);
    assert_eq!(all.len(), 24);
    for order in &all {
        // The last of the order never arrives in the second run.
        for arrived in [4, 3] {
            let mut bob = bob.clone();
            for &i in &order[..arrived] {
                assert_eq!(decrypt(&mut bob, &sent[i].header, &sent[i].ciphertext).expect("d"), texts[i]);
            }
            let missing = arrived == 3 && order[3] < 3;
            assert_eq!(kept(&bob).len(), usize::from(missing));
            let next = encrypt(&mut alice.clone(), b"next").expect("e");
            assert_eq!(decrypt(&mut bob, &next.header, &next.ciphertext).expect("d"), b"next");
        }
    }
}

#[test]
fn a_kept_key_outlives_turns_of_the_ratchet() {
    let (mut alice, mut bob) = setup_session();
    let late = encrypt(&mut alice, b"late").expect("e");
    let lost = encrypt(&mut alice, b"passed by the turn").expect("e");
    let hello = encrypt(&mut bob.clone(), b"too early");
    assert!(matches!(hello, Err(CryptoError::NoSession)));
    let third = encrypt(&mut alice, b"third").expect("e");
    let fourth = encrypt(&mut alice, b"fourth").expect("e");
    assert_eq!(decrypt(&mut bob, &third.header, &third.ciphertext).expect("d"), b"third");
    assert_eq!(kept(&bob).len(), 2);

    for _ in 0..3 {
        let answer = encrypt(&mut bob, b"answer").expect("e");
        assert_eq!(decrypt(&mut alice, &answer.header, &answer.ciphertext).expect("d"), b"answer");
        let skipped = encrypt(&mut alice, b"start of a chain").expect("e");
        let reply = encrypt(&mut alice, b"reply").expect("e");
        assert_eq!(decrypt(&mut bob, &reply.header, &reply.ciphertext).expect("d"), b"reply");
        assert_eq!(
            decrypt(&mut bob, &skipped.header, &skipped.ciphertext).expect("d"),
            b"start of a chain"
        );
    }

    assert_eq!(kept(&bob).len(), 3);
    assert_eq!(decrypt(&mut bob, &fourth.header, &fourth.ciphertext).expect("d"), b"fourth");
    assert_eq!(decrypt(&mut bob, &late.header, &late.ciphertext).expect("d"), b"late");
    assert_eq!(
        decrypt(&mut bob, &lost.header, &lost.ciphertext).expect("d"),
        b"passed by the turn"
    );
    assert!(kept(&bob).is_empty());
}

#[test]
fn a_replay_leaves_the_session_as_it_is() {
    let (mut alice, mut bob) = setup_session();
    let first = encrypt(&mut alice, b"first").expect("e");
    let second = encrypt(&mut alice, b"second").expect("e");
    let missing = encrypt(&mut alice, b"missing").expect("e");
    let fourth = encrypt(&mut alice, b"fourth").expect("e");
    for message in [&second, &first, &fourth] {
        decrypt(&mut bob, &message.header, &message.ciphertext).expect("d");
        let before = bob.clone();
        assert!(matches!(
            decrypt(&mut bob, &message.header, &message.ciphertext),
            Err(CryptoError::DecryptionFailed)
        ));
        assert_eq!(bob.root_key, before.root_key);
        assert_eq!(bob.their_ratchet_key, before.their_ratchet_key);
        assert_eq!(bob.sending_chain_key, before.sending_chain_key);
        assert_eq!(bob.receiving_chain_key, before.receiving_chain_key);
        assert_eq!((bob.send_count, bob.recv_count), (before.send_count, before.recv_count));
        assert_eq!(kept(&bob), kept(&before));
    }
    assert_eq!(decrypt(&mut bob, &missing.header, &missing.ciphertext).expect("d"), b"missing");
}

#[test]
fn keys_put_aside_in_parts_are_those_put_aside_at_once() {
    let (mut alice, mut bob) = setup_session();
    let sent: Vec<_> = (0..6).map(|_| encrypt(&mut alice, b"m").expect("e")).collect();
    decrypt(&mut bob, &sent[0].header, &sent[0].ciphertext).expect("d");
    let mut at_once = bob.clone();
    decrypt(&mut at_once, &sent[5].header, &sent[5].ciphertext).expect("d");
    for i in [2, 5] {
        decrypt(&mut bob, &sent[i].header, &sent[i].ciphertext).expect("d");
    }
    let mut expected = kept(&at_once);
    expected.retain(|entry| entry.1 != 2);
    assert_eq!(kept(&bob), expected);
    assert_eq!(bob.receiving_chain_key, at_once.receiving_chain_key);
    assert_eq!((bob.recv_count, at_once.recv_count), (6, 6));
}

#[test]
fn skipping_in_two_parts_is_skipping_at_once() {
    let (mut alice, mut bob) = setup_session();
    let first = encrypt(&mut alice, b"first").expect("e");
    decrypt(&mut bob, &first.header, &first.ciphertext).expect("d");

    // From a number other than the one that comes next, too.
    for (current, middle, until) in [(1, 4, 9), (1, 1, 9), (1, 9, 9), (50, 60, 70), (1, 2, 1001)] {
        let mut at_once = bob.clone();
        skip_message_keys(&mut at_once, current, until).expect("within the limit");
        let mut in_parts = bob.clone();
        skip_message_keys(&mut in_parts, current, middle).expect("within the limit");
        skip_message_keys(&mut in_parts, middle, until).expect("within the limit");
        assert_eq!(kept(&in_parts), kept(&at_once));
        assert_eq!(kept(&at_once).len(), (until - current) as usize);
        assert_eq!(in_parts.receiving_chain_key, at_once.receiving_chain_key);
        assert_eq!(at_once.recv_count, bob.recv_count);
    }
    for (current, until) in [(5, 5), (5, 4), (u32::MAX, 0)] {
        let mut same = bob.clone();
        skip_message_keys(&mut same, current, until).expect("nothing to do");
        assert_eq!(kept(&same), kept(&bob));
        assert_eq!(same.receiving_chain_key, bob.receiving_chain_key);
    }
    assert!(matches!(
        skip_message_keys(&mut bob, 1, 1002),
        Err(CryptoError::SkippedKeyLimitExceeded)
    ));
    assert!(kept(&bob).is_empty());
}
