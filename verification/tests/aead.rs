use messenger::crypto::aead::{decrypt, encrypt};

#[test]
fn encrypt_decrypt_roundtrip() {
    let mk = [0x42; 32];
    let pt = b"hello, encrypted world!";
    let aad = b"ratchet-header";

    let ct = encrypt(&mk, pt, aad).expect("encrypt");
    assert_ne!(ct, pt);

    let decrypted = decrypt(&mk, &ct, aad).expect("decrypt");
    assert_eq!(decrypted, pt);
}

#[test]
fn tampered_ciphertext_fails() {
    let mk = [0x42; 32];
    let mut ct = encrypt(&mk, b"secret", b"hdr").expect("encrypt");
    if let Some(byte) = ct.last_mut() {
        *byte ^= 0xFF;
    }
    assert!(decrypt(&mk, &ct, b"hdr").is_err());
}

#[test]
fn tampered_aad_fails() {
    let mk = [0x42; 32];
    let ct = encrypt(&mk, b"secret", b"correct").expect("encrypt");
    assert!(decrypt(&mk, &ct, b"wrong").is_err());
}

#[test]
fn wrong_key_fails() {
    let ct = encrypt(&[0x42; 32], b"secret", b"hdr").expect("encrypt");
    assert!(decrypt(&[0x43; 32], &ct, b"hdr").is_err());
}

#[test]
fn empty_plaintext_works() {
    let mk = [0x42; 32];
    let ct = encrypt(&mk, b"", b"hdr").expect("encrypt");
    let pt = decrypt(&mk, &ct, b"hdr").expect("decrypt");
    assert!(pt.is_empty());
}

#[test]
fn empty_aad_works() {
    let mk = [0x42; 32];
    let ct = encrypt(&mk, b"msg", b"").expect("encrypt");
    let pt = decrypt(&mk, &ct, b"").expect("decrypt");
    assert_eq!(pt, b"msg");
}

#[test]
fn deterministic_encryption() {
    let mk = [0x42; 32];
    let ct1 = encrypt(&mk, b"hello", b"hdr").expect("encrypt");
    let ct2 = encrypt(&mk, b"hello", b"hdr").expect("encrypt");
    assert_eq!(ct1, ct2);
}

#[test]
fn what_is_shorter_than_a_tag_is_refused() {
    let mk = [0x42; 32];
    let empty = encrypt(&mk, b"", b"hdr").expect("encrypt");
    assert_eq!(empty.len(), 16);
    assert_eq!(decrypt(&mk, &empty, b"hdr").expect("decrypt"), b"");
    for length in 0..16 {
        assert!(decrypt(&mk, &empty[..length], b"hdr").is_err());
    }
}
