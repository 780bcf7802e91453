use messenger::crypto::keys::{
    generate_one_time_prekeys, IdentityKeyPair, RatchetKeyPair, SignedPreKey, ZeroizingStaticSecret,
};

#[test]
fn identity_key_generation() {
    let ik = IdentityKeyPair::generate();
    let vk = ik.verifying_key();
    // Verifying key should be derivable from signing key
    assert_eq!(vk, ik.signing_key().verifying_key());
}

#[test]
fn identity_key_roundtrip() {
    let ik = IdentityKeyPair::generate();
    let bytes = ik.to_bytes();
    let restored = IdentityKeyPair::from_bytes(&bytes);
    assert_eq!(ik.verifying_key(), restored.verifying_key());
}

#[test]
fn ed25519_to_x25519_conversion() {
    let ik = IdentityKeyPair::generate();
    let x_secret = ik.to_x25519_secret();
    let x_public_from_secret = x_secret.to_public();
    let x_public_from_vk = ik.to_x25519_public();
    // Both conversion paths should produce the same X25519 public key
    assert_eq!(x_public_from_secret.as_bytes(), x_public_from_vk.as_bytes());
}

#[test]
fn dh_key_agreement() {
    let alice = ZeroizingStaticSecret::random();
    let bob = ZeroizingStaticSecret::random();
    let alice_pub = alice.to_public();
    let bob_pub = bob.to_public();

    let shared_ab = alice.diffie_hellman(&bob_pub);
    let shared_ba = bob.diffie_hellman(&alice_pub);
    assert_eq!(shared_ab.as_bytes(), shared_ba.as_bytes());
}

#[test]
fn signed_prekey_generation_and_verification() {
    let ik = IdentityKeyPair::generate();
    let spk = SignedPreKey::generate(0, &ik);
    assert!(spk.verify(&ik.verifying_key()).is_ok());
}

#[test]
fn signed_prekey_wrong_identity_fails() {
    let ik = IdentityKeyPair::generate();
    let other_ik = IdentityKeyPair::generate();
    let spk = SignedPreKey::generate(0, &ik);
    assert!(spk.verify(&other_ik.verifying_key()).is_err());
}

#[test]
fn one_time_prekey_batch() {
    let keys = generate_one_time_prekeys(10, 5).expect("gen");
    assert_eq!(keys.len(), 5);
    for (i, key) in keys.iter().enumerate() {
        let expected_id = 10 + i as u32;
        assert_eq!(key.key_id(), expected_id);
        // Public key should match what the secret derives
        let derived = key.secret().to_public();
        assert_eq!(key.public().as_bytes(), derived.as_bytes());
    }
}

#[test]
fn ratchet_keypair_roundtrip() {
    let kp = RatchetKeyPair::generate();
    let secret = kp.to_secret();
    let public = kp.to_public();
    assert_eq!(secret.to_public().as_bytes(), public.as_bytes());
}

#[test]
fn one_time_prekey_overflow_returns_error() {
    assert!(generate_one_time_prekeys(u32::MAX, 1).is_err());
    assert!(generate_one_time_prekeys(u32::MAX - 5, 10).is_err());
}
