use messenger::crypto::kdf::{derive_message_keys, kdf_ck, kdf_rk};

#[test]
fn kdf_rk_produces_distinct_outputs() {
    let result = kdf_rk(&[0xAA; 32], &[0xBB; 32]).expect("kdf_rk");
    assert_ne!(result.root_key, result.chain_key);
    assert_ne!(result.root_key, [0u8; 32]);
}

#[test]
fn kdf_rk_is_deterministic() {
    let r1 = kdf_rk(&[0x11; 32], &[0x22; 32]).expect("kdf_rk");
    let r2 = kdf_rk(&[0x11; 32], &[0x22; 32]).expect("kdf_rk");
    assert_eq!(r1.root_key, r2.root_key);
    assert_eq!(r1.chain_key, r2.chain_key);
}

#[test]
fn kdf_rk_different_inputs_produce_different_outputs() {
    let r1 = kdf_rk(&[0x11; 32], &[0x22; 32]).expect("kdf_rk");
    let r2 = kdf_rk(&[0x11; 32], &[0x33; 32]).expect("kdf_rk");
    assert_ne!(r1.root_key, r2.root_key);
}

#[test]
fn kdf_ck_produces_distinct_outputs() {
    let result = kdf_ck(&[0xCC; 32]).expect("kdf_ck");
    assert_ne!(result.chain_key, result.message_key);
    assert_ne!(result.chain_key, [0xCC; 32]);
}

#[test]
fn kdf_ck_is_deterministic() {
    let r1 = kdf_ck(&[0xDD; 32]).expect("kdf_ck");
    let r2 = kdf_ck(&[0xDD; 32]).expect("kdf_ck");
    assert_eq!(r1.chain_key, r2.chain_key);
    assert_eq!(r1.message_key, r2.message_key);
}

#[test]
fn kdf_ck_chain_advances() {
    let r1 = kdf_ck(&[0xEE; 32]).expect("kdf_ck");
    let r2 = kdf_ck(&r1.chain_key).expect("kdf_ck");
    let r3 = kdf_ck(&r2.chain_key).expect("kdf_ck");
    assert_ne!(r1.message_key, r2.message_key);
    assert_ne!(r2.message_key, r3.message_key);
}

#[test]
fn derive_message_keys_produces_valid_output() {
    let keys = derive_message_keys(&[0xFF; 32]).expect("derive");
    assert_ne!(keys.aes_key, [0u8; 32]);
    assert_ne!(keys.nonce, [0u8; 12]);
}

#[test]
fn derive_message_keys_is_deterministic() {
    let k1 = derive_message_keys(&[0x42; 32]).expect("derive");
    let k2 = derive_message_keys(&[0x42; 32]).expect("derive");
    assert_eq!(k1.aes_key, k2.aes_key);
    assert_eq!(k1.nonce, k2.nonce);
}
