use base64::engine::general_purpose::STANDARD as B64;
use base64::Engine;
use messenger::client::chat::{compare_identity_key, ChatEntry, IdentityKeyStatus};
use messenger::client::verification::{
    clear_output, confirm_output, database_unavailable, decode_identity_key, format_verify_output,
    identity_warning, is_identity_key, resolve_safety_number,
};
use messenger::crypto::fingerprint::Fingerprint;

#[test]
fn safety_number_is_symmetric() {
    let key_a = B64.encode([0xAAu8; 32]);
    let key_b = B64.encode([0xBBu8; 32]);
    let local_key = decode_identity_key(&key_a).unwrap();
    let peer_key = decode_identity_key(&key_b).unwrap();
    let sn1 = Fingerprint::compute("alice", &local_key, "bob", &peer_key).display_grouped();
    let sn2 = Fingerprint::compute("bob", &peer_key, "alice", &local_key).display_grouped();
    assert_eq!(sn1, sn2);
    assert_eq!(
        resolve_safety_number("alice", &key_a, "bob", &Some(key_b.clone())).unwrap(),
        resolve_safety_number("bob", &key_b, "alice", &Some(key_a)).unwrap()
    );
}

#[test]
fn verify_output_without_stored_key() {
    let key = B64.encode([1u8; 32]);
    let safety = resolve_safety_number("alice", &key, "bob", &None);
    let lines = format_verify_output("bob", safety, None);
    assert_eq!(lines.len(), 1);
    assert!(matches!(&lines[0], ChatEntry::Status(s) if s.contains("no identity key")));
}

#[test]
fn verify_output_with_stored_key() {
    let key_a = B64.encode([1u8; 32]);
    let key_b = B64.encode([2u8; 32]);

    let safety = resolve_safety_number("alice", &key_a, "bob", &Some(key_b));
    let lines = format_verify_output("bob", safety, None);

    // header + 3 rows of digits + explanation + verification status
    assert!(lines.len() >= 5);
    assert!(matches!(&lines[1], ChatEntry::Status(s) if s.chars().any(|c| c.is_ascii_digit())));
}

#[test]
fn confirm_stores_verification() {
    let key_a = B64.encode([1u8; 32]);
    let key_b = B64.encode([2u8; 32]);

    let number = resolve_safety_number("alice", &key_a, "bob", &Some(key_b.clone())).unwrap();
    let lines = confirm_output("bob", Ok(true));
    assert!(matches!(&lines[0], ChatEntry::Status(s) if s.contains("verified")));

    let safety = resolve_safety_number("alice", &key_a, "bob", &Some(key_b));
    let lines = format_verify_output("bob", safety, Some(number));
    let has_verified = lines
        .iter()
        .any(|l| matches!(l, ChatEntry::Status(s) if s.contains("verified")));
    assert!(has_verified);
}

#[test]
fn malformed_key_rejected_without_db_mutation() {
    let good_key = B64.encode([1u8; 32]);
    assert!(is_identity_key(&good_key));

    // Neither is compared with the stored key, so neither replaces it.
    assert!(!is_identity_key("not-valid-base64!!!"));
    let short_key = B64.encode([2u8; 16]);
    assert!(!is_identity_key(&short_key));
    assert_eq!(
        decode_identity_key(&short_key).unwrap_err(),
        "identity key must be 32 bytes"
    );
}

#[test]
fn clear_verification_removes_record() {
    let lines = clear_output("bob", true);
    assert!(matches!(&lines[0], ChatEntry::Status(s) if s.contains("cleared")));
}

#[test]
fn a_changed_key_voids_an_earlier_verification() {
    let key_a = B64.encode([1u8; 32]);
    let key_b = B64.encode([2u8; 32]);
    let key_c = B64.encode([3u8; 32]);
    let old_number = resolve_safety_number("alice", &key_a, "bob", &Some(key_b.clone())).unwrap();

    let status = compare_identity_key(Some(key_b.clone()), &key_c);
    assert!(matches!(&status, IdentityKeyStatus::Changed { old_key } if *old_key == key_b));
    assert!(identity_warning("bob", &status).is_some());
    assert!(identity_warning("bob", &IdentityKeyStatus::New).is_none());
    assert!(identity_warning("bob", &IdentityKeyStatus::Unchanged).is_none());

    let safety = resolve_safety_number("alice", &key_a, "bob", &Some(key_c));
    let lines = format_verify_output("bob", safety, Some(old_number));
    assert!(matches!(lines.last(), Some(ChatEntry::Warning(_))));
}

#[test]
fn failures_are_told() {
    assert!(matches!(
        &confirm_output("bob", Ok(false))[0],
        ChatEntry::Status(s) if s == "failed to store verification"
    ));
    assert!(matches!(
        &confirm_output("bob", Err("why".to_owned()))[0],
        ChatEntry::Status(s) if s == "why"
    ));
    assert!(matches!(
        &clear_output("bob", false)[0],
        ChatEntry::Status(s) if s == "failed to clear verification"
    ));
    assert!(matches!(
        &database_unavailable()[0],
        ChatEntry::Status(s) if s == "database unavailable"
    ));
}

#[test]
fn a_key_that_is_no_base64_is_explained() {
    let reason = decode_identity_key("***").unwrap_err();
    assert!(!reason.is_empty());
    assert_ne!(reason, "***");
    let key = B64.encode([1u8; 32]);
    let said = resolve_safety_number("alice", &key, "bob", &Some("***".to_owned())).unwrap_err();
    assert_eq!(said, format!("failed to compute safety number: {reason}"));
}
