use messenger::crypto::fingerprint::Fingerprint;

#[test]
fn deterministic_output() {
    let key_a = [1u8; 32];
    let key_b = [2u8; 32];
    let fp1 = Fingerprint::compute("alice", &key_a, "bob", &key_b);
    let fp2 = Fingerprint::compute("alice", &key_a, "bob", &key_b);
    assert_eq!(fp1, fp2);
    // Verify display format: 12 groups of 5 digits, 11 spaces
    let display = fp1.display_grouped();
    let groups: Vec<&str> = display.split(' ').collect();
    assert_eq!(groups.len(), 12);
    for g in &groups {
        assert_eq!(g.len(), 5);
        assert!(g.chars().all(|c| c.is_ascii_digit()));
    }
}

#[test]
fn symmetric() {
    let key_a = [0xAA; 32];
    let key_b = [0xBB; 32];
    let fp_ab = Fingerprint::compute("alice", &key_a, "bob", &key_b);
    let fp_ba = Fingerprint::compute("bob", &key_b, "alice", &key_a);
    assert_eq!(
        fp_ab, fp_ba,
        "safety number must be identical regardless of argument order"
    );
}

#[test]
fn different_keys_different_fingerprint() {
    let key_a = [1u8; 32];
    let key_b = [2u8; 32];
    let key_c = [3u8; 32];
    let fp1 = Fingerprint::compute("alice", &key_a, "bob", &key_b);
    let fp2 = Fingerprint::compute("alice", &key_a, "bob", &key_c);
    assert_ne!(
        fp1, fp2,
        "different keys must produce different fingerprints"
    );
}

#[test]
fn different_user_ids_different_fingerprint() {
    let key = [0x42; 32];
    let fp1 = Fingerprint::compute("alice", &key, "bob", &key);
    let fp2 = Fingerprint::compute("alice", &key, "carol", &key);
    assert_ne!(fp1, fp2);
}

#[test]
fn same_user_id_tie_broken_by_key() {
    // Edge case: self-chat or identical user IDs
    let key_a = [1u8; 32];
    let key_b = [2u8; 32];
    let fp1 = Fingerprint::compute("alice", &key_a, "alice", &key_b);
    let fp2 = Fingerprint::compute("alice", &key_b, "alice", &key_a);
    assert_eq!(fp1, fp2, "tie-breaking by key must be symmetric");
}

#[test]
fn digits_in_range() {
    let fp = Fingerprint::compute("a", &[0xFF; 32], "b", &[0x00; 32]);
    for &d in fp.as_digits() {
        assert!(d <= 9, "each digit must be 0..=9, got {d}");
    }
}
