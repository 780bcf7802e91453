use messenger::protocol::{MessageId, UserId};

#[test]
fn user_id_rejects_empty() {
    assert!(UserId::new("").is_err());
}

#[test]
fn user_id_rejects_control_chars() {
    assert!(UserId::new("alice\0").is_err());
    assert!(UserId::new("bob\n").is_err());
}

#[test]
fn user_id_rejects_oversized() {
    let long = "a".repeat(129);
    assert!(UserId::new(&long).is_err());
}

#[test]
fn user_id_rejects_whitespace_only() {
    assert!(UserId::new("   ").is_err());
    assert!(UserId::new(" \t ").is_err());
}

#[test]
fn user_id_rejects_path_traversal() {
    assert!(UserId::new("../etc").is_err());
    assert!(UserId::new("foo/bar").is_err());
    assert!(UserId::new("foo\\bar").is_err());
    assert!(UserId::new("a..b").is_err());
}

#[test]
fn user_id_rejects_non_ascii() {
    assert!(UserId::new("café").is_err());
    assert!(UserId::new("用户").is_err());
}

#[test]
fn user_id_accepts_valid() {
    assert!(UserId::new("alice").is_ok());
    assert!(UserId::new("user-123_test").is_ok());
    assert!(UserId::new(&"a".repeat(128)).is_ok());
}

#[test]
fn user_id_faults_are_named() {
    let reason = |id: &str| UserId::new(id).expect_err("invalid").message();
    assert_eq!(
        reason(" \u{3000}"),
        "invalid user id: user id cannot be empty or whitespace-only"
    );
    assert_eq!(reason(&"a".repeat(129)), "invalid user id: user id exceeds 128 bytes");
    assert_eq!(reason("caf\u{e9}"), "invalid user id: user id must be ASCII");
    assert_eq!(reason("a\u{7f}"), "invalid user id: user id contains control characters");
    assert_eq!(
        reason("a..b"),
        "invalid user id: user id contains a path separator or '..'"
    );
    assert_eq!(UserId::new("alice").expect("valid").as_str(), "alice");
    assert_eq!(UserId::new("a.b").expect("valid").into_inner(), "a.b");
}

#[test]
fn user_ids_and_texts_convert() {
    let user = UserId::try_from("alice").expect("valid");
    assert_eq!(String::from(user), "alice");
    let user = UserId::try_from("a.b".to_owned()).expect("valid");
    let name: String = user.into();
    assert_eq!(name, "a.b");
    assert_eq!(
        UserId::try_from("a/b").expect_err("invalid").message(),
        "invalid user id: user id contains a path separator or '..'"
    );
    assert_eq!(
        UserId::try_from(String::new()).expect_err("invalid").message(),
        "invalid user id: user id cannot be empty or whitespace-only"
    );
}

#[test]
fn message_ids_are_written_in_groups() {
    let id = MessageId::from_uuid(0x0123_4567_89ab_cdef_fedc_ba98_7654_3210);
    assert_eq!(id.to_text(), "01234567-89ab-cdef-fedc-ba9876543210");
    assert_eq!(MessageId::from_uuid(0).to_text(), "00000000-0000-0000-0000-000000000000");
    assert_eq!(MessageId::parse("01234567-89AB-CDEF-FEDC-BA9876543210"), Some(id));
    assert_eq!(MessageId::parse("01234567-89ab"), None);
}

#[test]
fn new_message_ids_are_random_ones() {
    let ids: Vec<MessageId> = (0..64).map(|_| MessageId::new()).collect();
    for (i, id) in ids.iter().enumerate() {
        let text = id.to_text();
        assert_eq!(&text[14..15], "4");
        assert!(matches!(&text[19..20], "8" | "9" | "a" | "b"));
        assert_eq!(id.as_uuid() >> 76 & 0xf, 4);
        assert_eq!(id.as_uuid() >> 62 & 3, 2);
        assert!(!ids[..i].contains(id));
    }
}
