//! Known answers.

use messenger::crypto::aead::{decrypt, encrypt};
use messenger::crypto::fingerprint::Fingerprint;
use messenger::crypto::kdf::{derive_message_keys, kdf_ck, kdf_rk};
use messenger::crypto::keys::{
    verifying_key_to_x25519, EphemeralKeyPair, IdentityKeyPair, OneTimePreKey, SignedPreKey,
    ZeroizingStaticSecret,
};
use messenger::crypto::x3dh::{alice_initiate_with, bob_respond, PeerPreKeyBundle};
use messenger::protocol::MessageId;

fn hex(bytes: &[u8]) -> String {
    bytes.iter().map(|byte| format!("{byte:02x}")).collect()
}

#[test]
fn chain_keys_are_hmac_sha256() {
    let keys = kdf_ck(&[7; 32]).unwrap();
    assert_eq!(
        hex(&keys.message_key),
        "3d8b2fa2a2537fdcdda46e704966a105722d268d2e9ed43bbe5b1dd9d6802935"
    );
    assert_eq!(
        hex(&keys.chain_key),
        "469e03123f1c9c6d5c3ffaa260c7fef9f863c0b6af93f7dcae5c13cbfdadfca5"
    );
}

#[test]
fn root_keys_are_hkdf_sha256() {
    let keys = kdf_rk(&[1; 32], &[2; 32]).unwrap();
    assert_eq!(
        hex(&keys.root_key),
        "b4d1f0947dec55c396c22462b08f24212820c610a9aa469332b183d34ef3a870"
    );
    assert_eq!(
        hex(&keys.chain_key),
        "5ee5eaa5141c72e9e63585294bfd2147eadb3c9ce60adc2728a25391dafaa46f"
    );
}

#[test]
fn message_keys_are_hkdf_sha256() {
    let keys = derive_message_keys(&[3; 32]).unwrap();
    assert_eq!(
        hex(&keys.aes_key),
        "4bc56624dcf88756b1455dc7deb492ad36d0d75823a2d5a170fbd0b95baa7d24"
    );
    assert_eq!(hex(&keys.nonce), "fe8a3ee509744ef943ec9ef6");
}

#[test]
fn messages_are_sealed_with_aes_256_gcm() {
    let sealed = encrypt(&[0x42; 32], b"hello", b"context").unwrap();
    assert_eq!(hex(&sealed), "1ab2045dfe8bf458051c9fb20edb9fec7d653378b1");
    assert_eq!(decrypt(&[0x42; 32], &sealed, b"context").unwrap(), b"hello");
}

#[test]
fn identities_are_ed25519() {
    let identity = IdentityKeyPair::from_bytes(&[9; 32]);
    assert_eq!(
        hex(identity.verifying_key().as_bytes()),
        "fd1724385aa0c75b64fb78cd602fa1d991fdebf76b13c58ed702eac835e9f618"
    );
    let signature = identity.signing_key().sign(b"message");
    assert_eq!(
        hex(&signature.to_bytes()),
        "4ea7cab96a7db492893f5cc37e3d4ec49d24652cb738e2eb4f7a9adb0eaeccbc\
         99448e2bf780f106e105f255d40462d7f6de601da27bd9d627419a82868fbe0f"
    );
    assert!(identity.verifying_key().verify(b"message", &signature).is_ok());
    assert!(identity.verifying_key().verify(b"other", &signature).is_err());
}

#[test]
fn identities_convert_to_x25519() {
    let identity = IdentityKeyPair::from_bytes(&[9; 32]);
    let expected = "ede2393fe2defd0ff703799841c699b03fd634a9b9c411ed760df7bce5d5c267";
    assert_eq!(hex(identity.to_x25519_public().as_bytes()), expected);
    assert_eq!(
        hex(verifying_key_to_x25519(&identity.verifying_key()).as_bytes()),
        expected
    );
}

#[test]
fn secrets_agree_by_x25519() {
    let a = ZeroizingStaticSecret::from_bytes([5; 32]);
    let b = ZeroizingStaticSecret::from_bytes([6; 32]);
    assert_eq!(
        hex(a.to_public().as_bytes()),
        "50a61409b1ddd0325e9b16b700e719e9772c07000b1bd7786e907c653d20495d"
    );
    let expected = "edfa360a9633ca9b6fe655be8849389323ae3a3444866567f463c8e2c80bbb5a";
    assert_eq!(hex(a.diffie_hellman(&b.to_public()).as_bytes()), expected);
    assert_eq!(hex(b.diffie_hellman(&a.to_public()).as_bytes()), expected);
}

#[test]
fn safety_numbers_are_iterated_sha512() {
    let number = Fingerprint::compute("alice", &[1; 32], "bob", &[2; 32]).display_grouped();
    assert_eq!(
        number,
        "54663 08605 09987 12042 77540 56009 36208 99707 78936 82645 43901 54667"
    );
}

#[test]
fn key_agreement_is_x3dh() {
    let alice = IdentityKeyPair::from_bytes(&[11; 32]);
    let bob = IdentityKeyPair::from_bytes(&[12; 32]);
    let public = |byte: u8| ZeroizingStaticSecret::from_bytes([byte; 32]).to_public().to_bytes();
    let spk_public = public(13);
    let signature = bob.signing_key().sign(&spk_public);
    let spk = SignedPreKey::from_parts(1, [13; 32], spk_public, signature);
    let opk = OneTimePreKey::from_parts(2, [15; 32], public(15));
    let ephemeral = EphemeralKeyPair::from_secret(ZeroizingStaticSecret::from_bytes([14; 32]));
    for (with_opk, expected) in [
        (true, "608b47e1f7da17ca7c53e51614c37a7dfad1bd9e82125c3718d66e76e84338de"),
        (false, "0a36d367157824eedc029b18da75b3296d7193703694acbb73e43eb8c8c8c798"),
    ] {
        let bundle = PeerPreKeyBundle {
            identity_key: bob.verifying_key(),
            signed_prekey: *spk.public(),
            signed_prekey_id: 1,
            signed_prekey_signature: *spk.signature(),
            one_time_prekey: if with_opk { Some((2, *opk.public())) } else { None },
        };
        let agreed = alice_initiate_with(&alice, &bundle, &ephemeral).unwrap();
        assert_eq!(hex(&agreed.shared_secret), expected);
        let answered = bob_respond(
            &bob,
            &spk,
            if with_opk { Some(&opk) } else { None },
            &alice.verifying_key(),
            &agreed.ephemeral_public,
        )
        .unwrap();
        assert_eq!(hex(&answered), expected);
    }
}

#[test]
fn message_identifiers_are_uuids() {
    let id = MessageId::from_uuid(0x1234_5678_9abc_def0_1234_5678_9abc_def0);
    assert_eq!(id.to_text(), "12345678-9abc-def0-1234-56789abcdef0");
    assert_eq!(MessageId::parse(&id.to_text()), Some(id));
    assert_eq!(id.as_uuid(), 0x1234_5678_9abc_def0_1234_5678_9abc_def0);
    assert_eq!(MessageId::parse("no uuid"), None);
    assert_ne!(MessageId::new(), MessageId::new());
}
