use messenger::crypto::error::CryptoError;
use messenger::crypto::keys::{
    generate_one_time_prekeys, IdentityKeyPair, OneTimePreKey, SignedPreKey,
};
use messenger::crypto::x3dh::{alice_initiate, bob_respond, PeerPreKeyBundle};

fn setup_bob() -> (IdentityKeyPair, SignedPreKey, Vec<OneTimePreKey>) {
    let bob_ik = IdentityKeyPair::generate();
    let bob_spk = SignedPreKey::generate(0, &bob_ik);
    let bob_opks = generate_one_time_prekeys(0, 5).expect("gen opks");
    (bob_ik, bob_spk, bob_opks)
}

fn bob_bundle(
    bob_ik: &IdentityKeyPair,
    bob_spk: &SignedPreKey,
    opk: Option<&OneTimePreKey>,
) -> PeerPreKeyBundle {
    PeerPreKeyBundle {
        identity_key: bob_ik.verifying_key(),
        signed_prekey: *bob_spk.public(),
        signed_prekey_id: bob_spk.key_id(),
        signed_prekey_signature: *bob_spk.signature(),
        one_time_prekey: opk.map(|k| (k.key_id(), *k.public())),
    }
}

#[test]
fn x3dh_with_opk_produces_matching_secrets() {
    let alice_ik = IdentityKeyPair::generate();
    let (bob_ik, bob_spk, bob_opks) = setup_bob();

    let bundle = bob_bundle(&bob_ik, &bob_spk, Some(&bob_opks[0]));
    let alice_result = alice_initiate(&alice_ik, &bundle).expect("alice_initiate");

    let bob_secret = bob_respond(
        &bob_ik,
        &bob_spk,
        Some(&bob_opks[0]),
        &alice_ik.verifying_key(),
        &alice_result.ephemeral_public,
    )
    .expect("bob_respond");

    assert_eq!(alice_result.shared_secret, bob_secret);
    assert_ne!(alice_result.shared_secret, [0u8; 32]);
}

#[test]
fn x3dh_without_opk_produces_matching_secrets() {
    let alice_ik = IdentityKeyPair::generate();
    let (bob_ik, bob_spk, _) = setup_bob();

    let bundle = bob_bundle(&bob_ik, &bob_spk, None);
    let alice_result = alice_initiate(&alice_ik, &bundle).expect("alice_initiate");

    let bob_secret = bob_respond(
        &bob_ik,
        &bob_spk,
        None,
        &alice_ik.verifying_key(),
        &alice_result.ephemeral_public,
    )
    .expect("bob_respond");

    assert_eq!(alice_result.shared_secret, bob_secret);
}

#[test]
fn x3dh_with_vs_without_opk_differ() {
    let alice_ik = IdentityKeyPair::generate();
    let (bob_ik, bob_spk, bob_opks) = setup_bob();

    let r1 = alice_initiate(
        &alice_ik,
        &bob_bundle(&bob_ik, &bob_spk, Some(&bob_opks[0])),
    )
    .expect("with opk");
    let r2 =
        alice_initiate(&alice_ik, &bob_bundle(&bob_ik, &bob_spk, None)).expect("without opk");

    assert_ne!(r1.shared_secret, r2.shared_secret);
}

#[test]
fn invalid_spk_signature_rejected() {
    let alice_ik = IdentityKeyPair::generate();
    let (_bob_ik, bob_spk, _) = setup_bob();
    let wrong_ik = IdentityKeyPair::generate();

    let bundle = PeerPreKeyBundle {
        identity_key: wrong_ik.verifying_key(),
        signed_prekey: *bob_spk.public(),
        signed_prekey_id: bob_spk.key_id(),
        signed_prekey_signature: *bob_spk.signature(),
        one_time_prekey: None,
    };

    assert!(matches!(
        alice_initiate(&alice_ik, &bundle),
        Err(CryptoError::InvalidSignature)
    ));
}

#[test]
fn different_alice_identities_produce_different_secrets() {
    let alice1 = IdentityKeyPair::generate();
    let alice2 = IdentityKeyPair::generate();
    let (bob_ik, bob_spk, _) = setup_bob();

    let bundle = bob_bundle(&bob_ik, &bob_spk, None);

    let r1 = alice_initiate(&alice1, &bundle).expect("alice1");
    let r2 = alice_initiate(&alice2, &bundle).expect("alice2");

    assert_ne!(r1.shared_secret, r2.shared_secret);
}
