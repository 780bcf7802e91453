use base64::engine::general_purpose::STANDARD as B64;
use base64::Engine;
use messenger::crypto::keys::{IdentityKeyPair, SignedPreKey};
use messenger::protocol::{
    ClientMessage, EncryptedEnvelope, InboundMessage, MessageHeader, MessageId, OneTimePreKey,
    PreKeyBundle, RatchetHeader, ServerMessage, UserId,
};
use messenger::server::auth::{
    answer_challenge, begin_challenge, check_registration, check_response, login_bytes,
    registration_reply, take_challenge,
};
use messenger::server::connection::{replaced_notice, ConnectionRegistry};
use messenger::server::datetime::parse_sqlite_datetime;
use messenger::server::delivery::{
    delivery_notices, group_by_sender, queued_receipt_to_message, queued_row_to_inbound,
    readable_ids, PageStep, Pager, RowFault, RowStep,
};
use messenger::server::handlers::{
    handle_message, malformed_message, Route, Session, StorageError,
};
use messenger::server::message::{
    answer_ack, answer_send, check_ack, check_page_size, check_send, enqueue_request,
    typing_notice, validate_enqueue_result, validate_envelope,
};
use messenger::server::prekeys::{
    answer_fetch, answer_rotation, answer_upload, bundle_identity, bundle_signed, check_fetch,
    check_upload, decode_signed_prekey, fetch_for_requester, low_notice, reserved_until,
    rotate_signed_prekey, upload_prekeys, verify_signed_prekey, FetchFacts, FetchLimits,
    FetchResult, RotationFacts, SignedPreKeyRotationResult, SignedPreKeyRow, UploadResult,
};
use messenger::server::queue::{
    enqueue, envelope_digest, remaining_acceptances, Acceptance, EnqueueRequest, EnqueueResult,
    QueueFacts, QueuedRow,
};
use messenger::server::receipts::{
    answer_receipt, check_receipt_ack, receipt_notices, KnownReceipt, QueuedReceipt, ReceiptFacts,
};
use messenger::server::receipts::EnqueueResult as Receipt;
use messenger::server::schema::{check_queued_version, pending_migrations};

fn user(name: &str) -> UserId {
    UserId::new(name).unwrap()
}

fn ratchet_envelope(version: u32, key: &[u8], ciphertext: &[u8]) -> EncryptedEnvelope {
    EncryptedEnvelope {
        version,
        header: MessageHeader::Ratchet(RatchetHeader {
            ratchet_key: B64.encode(key),
            previous_chain_length: 0,
            message_number: 0,
        }),
        ciphertext: B64.encode(ciphertext),
    }
}

fn bundle_of(identity: &IdentityKeyPair) -> PreKeyBundle {
    let spk = SignedPreKey::generate(1, identity);
    PreKeyBundle {
        identity_key: B64.encode(identity.verifying_key().as_bytes()),
        signed_prekey: B64.encode(spk.public().as_bytes()),
        signed_prekey_id: 1,
        signed_prekey_signature: B64.encode(spk.signature().to_bytes()),
        one_time_prekey: None,
    }
}

fn reason_of(reply: ServerMessage) -> String {
    match reply {
        ServerMessage::AuthFailure { reason } => reason,
        ServerMessage::Error { code, message } => format!("{code}: {message}"),
        _ => panic!("expected a refusal"),
    }
}

#[test]
fn legacy_invalid_envelope_is_rejected_before_delivery() {
    let envelope = ratchet_envelope(1, &[0_u8; 31], b"opaque");
    let row = QueuedRow {
        row_id: 1,
        message_id: MessageId::new().to_text(),
        sender_id: "alice".to_owned(),
        envelope_json: String::new(),
        created_at: "2026-08-12 00:00:00".to_owned(),
    };

    assert!(queued_row_to_inbound(&row, Some(envelope)).is_err());
}

#[test]
fn queued_rows_are_read_or_refused() {
    let mut row = QueuedRow {
        row_id: 1,
        message_id: MessageId::new().to_text(),
        sender_id: "alice".to_owned(),
        envelope_json: String::new(),
        created_at: "1970-01-02 00:00:01".to_owned(),
    };
    let good = ratchet_envelope(2, &[0_u8; 32], b"opaque");
    let inbound = queued_row_to_inbound(&row, Some(good.clone())).unwrap();
    assert_eq!(inbound.sender_id.as_str(), "alice");
    assert_eq!(inbound.timestamp, 86_401);
    assert!(matches!(queued_row_to_inbound(&row, None), Err(RowFault::Encoding)));
    assert!(matches!(
        queued_row_to_inbound(&row, Some(ratchet_envelope(2, &[0_u8; 31], b"x"))),
        Err(RowFault::Envelope("invalid key length"))
    ));
    row.sender_id = String::new();
    assert!(matches!(
        queued_row_to_inbound(&row, Some(good.clone())),
        Err(RowFault::Sender)
    ));
    row.sender_id = "alice".to_owned();
    row.message_id = "no uuid".to_owned();
    assert!(matches!(
        queued_row_to_inbound(&row, Some(good)),
        Err(RowFault::Identifier)
    ));
}

#[test]
fn times_are_parsed() {
    assert_eq!(parse_sqlite_datetime("1970-01-01 00:00:00"), 0);
    assert_eq!(parse_sqlite_datetime("2024-01-15 10:30:45"), 1_705_314_645);
    assert_eq!(parse_sqlite_datetime("2024-03-01 00:00:00"), 1_709_251_200);
    assert_eq!(parse_sqlite_datetime("2000-02-29 12:00:00"), 951_825_600);
    assert_eq!(parse_sqlite_datetime("not a time"), 0);
    assert_eq!(parse_sqlite_datetime("2024-01-15"), 0);
}

#[test]
fn times_go_on_by_seconds() {
    for (moment, next) in [
        ("1999-12-31 23:59:59", "2000-01-01 00:00:00"),
        ("2000-02-28 23:59:59", "2000-02-29 00:00:00"),
        ("2000-02-29 23:59:59", "2000-03-01 00:00:00"),
        ("2000-12-31 23:59:59", "2001-01-01 00:00:00"),
        ("2023-02-28 23:59:59", "2023-03-01 00:00:00"),
        ("2024-04-30 23:59:59", "2024-05-01 00:00:00"),
        ("2024-05-01 08:59:59", "2024-05-01 09:00:00"),
        ("2100-02-28 23:59:59", "2100-03-01 00:00:00"),
        ("2100-12-31 23:59:59", "2101-01-01 00:00:00"),
        ("2400-12-31 23:59:59", "2401-01-01 00:00:00"),
    ] {
        assert_eq!(parse_sqlite_datetime(next), parse_sqlite_datetime(moment) + 1);
    }
    assert_eq!(parse_sqlite_datetime("1969-12-31 23:59:59"), u64::MAX);
    // The leap day of 1968 is not counted.
    assert_eq!(
        parse_sqlite_datetime("1969-01-01 00:00:00"),
        parse_sqlite_datetime("1968-12-31 23:59:59") - 86_399
    );
}

#[test]
fn a_registration_is_checked() {
    let identity = IdentityKeyPair::generate();
    let session = Session::new();
    let prekeys = vec![OneTimePreKey { key_id: 7, public_key: B64.encode([5u8; 32]) }];
    let registration =
        check_registration(&session, user("alice"), &bundle_of(&identity), &prekeys).unwrap();
    assert_eq!(registration.user_id.as_str(), "alice");
    assert_eq!(registration.identity_key, identity.verifying_key().as_bytes());
    assert_eq!(registration.one_time_prekeys, [(7, vec![5u8; 32])]);

    let refusal = |bundle: PreKeyBundle, prekeys: Vec<OneTimePreKey>| {
        reason_of(check_registration(&session, user("alice"), &bundle, &prekeys).err().unwrap())
    };
    let mut bundle = bundle_of(&identity);
    bundle.identity_key = "***".to_owned();
    assert_eq!(refusal(bundle, Vec::new()), "invalid base64 in identity_key");
    let mut bundle = bundle_of(&identity);
    bundle.identity_key = B64.encode([1u8; 31]);
    assert_eq!(refusal(bundle, Vec::new()), "identity key must be 32 bytes");
    let mut bundle = bundle_of(&identity);
    bundle.signed_prekey = "***".to_owned();
    assert_eq!(refusal(bundle, Vec::new()), "invalid base64 in signed_prekey");
    let mut bundle = bundle_of(&identity);
    bundle.signed_prekey = B64.encode([1u8; 31]);
    assert_eq!(refusal(bundle, Vec::new()), "signed prekey must be 32 bytes");
    let mut bundle = bundle_of(&identity);
    bundle.signed_prekey_signature = "***".to_owned();
    assert_eq!(refusal(bundle, Vec::new()), "invalid base64 in signature");
    let mut bundle = bundle_of(&identity);
    bundle.signed_prekey_signature = B64.encode([1u8; 63]);
    assert_eq!(refusal(bundle, Vec::new()), "signature must be 64 bytes");
    let mut bundle = bundle_of(&identity);
    bundle.signed_prekey = B64.encode([1u8; 32]);
    assert_eq!(refusal(bundle, Vec::new()), "signed prekey signature is invalid");
    let many = (0..201)
        .map(|key_id| OneTimePreKey { key_id, public_key: B64.encode([5u8; 32]) })
        .collect();
    assert_eq!(refusal(bundle_of(&identity), many), "400: too many prekeys");
    let bad = vec![OneTimePreKey { key_id: 1, public_key: "***".to_owned() }];
    assert_eq!(
        refusal(bundle_of(&identity), bad),
        "400: one or more prekeys have invalid base64 or wrong length (must be 32 bytes)"
    );

    let mut known = Session::new();
    known.registered("alice".to_owned(), 1);
    assert_eq!(
        reason_of(
            check_registration(&known, user("alice"), &bundle_of(&identity), &Vec::new())
                .err()
                .unwrap()
        ),
        "already authenticated"
    );
    assert_eq!(registration_reply(Ok(true)), ServerMessage::AuthSuccess);
    assert_eq!(
        reason_of(registration_reply(Ok(false))),
        "user already exists \u{2014} use AuthChallenge to login"
    );
    assert_eq!(
        reason_of(registration_reply(Err(StorageError))),
        "500: internal server error"
    );
}

#[test]
fn a_login_needs_the_right_key() {
    let identity = IdentityKeyPair::generate();
    let stored = || Ok(Some(identity.verifying_key().as_bytes().to_vec()));
    let mut session = Session::new();
    let reply = begin_challenge(&mut session, &user("alice"), Ok(true), 1_000, "relay-1");
    let ServerMessage::Challenge { nonce, timestamp, server_id } = reply else {
        panic!("expected a challenge");
    };
    assert_eq!(timestamp, 1_000);
    assert_eq!(server_id, "relay-1");
    assert_eq!(B64.decode(&nonce).unwrap().len(), 32);

    let signature = answer_challenge(&identity, &nonce, timestamp, &server_id).unwrap();
    let challenge = take_challenge(&mut session, 1_060).unwrap();
    assert!(session.pending_challenge.is_none());
    assert!(check_response(&challenge, stored(), &signature, "relay-1").is_ok());
    assert_eq!(
        reason_of(check_response(&challenge, stored(), &signature, "relay-2").unwrap_err()),
        "signature verification failed"
    );
    let other = IdentityKeyPair::generate();
    let forged = answer_challenge(&other, &nonce, timestamp, &server_id).unwrap();
    assert_eq!(
        reason_of(check_response(&challenge, stored(), &forged, "relay-1").unwrap_err()),
        "signature verification failed"
    );
    assert_eq!(
        reason_of(check_response(&challenge, Ok(None), &signature, "relay-1").unwrap_err()),
        "authentication failed"
    );
    assert_eq!(
        reason_of(check_response(&challenge, stored(), "***", "relay-1").unwrap_err()),
        "invalid base64 signature"
    );
    assert_eq!(
        reason_of(
            check_response(&challenge, stored(), &B64.encode([0u8; 63]), "relay-1").unwrap_err()
        ),
        "signature must be 64 bytes"
    );
    assert_eq!(
        reason_of(
            check_response(&challenge, Ok(Some(vec![0u8; 31])), &signature, "relay-1")
                .unwrap_err()
        ),
        "invalid stored identity key"
    );
    assert!(answer_challenge(&identity, "***", 0, "relay-1").is_none());
}

#[test]
fn a_challenge_serves_once_and_for_a_minute() {
    let mut session = Session::new();
    assert_eq!(
        reason_of(take_challenge(&mut session, 0).err().unwrap()),
        "no pending challenge"
    );
    begin_challenge(&mut session, &user("alice"), Ok(true), 1_000, "relay");
    assert_eq!(
        reason_of(take_challenge(&mut session, 1_061).err().unwrap()),
        "challenge expired"
    );
    assert!(session.pending_challenge.is_none());
    assert_eq!(
        reason_of(begin_challenge(&mut session, &user("eve"), Ok(false), 0, "relay")),
        "authentication failed"
    );
}

#[test]
fn challenges_differ() {
    let mut nonces = Vec::new();
    for _ in 0..2 {
        let mut session = Session::new();
        begin_challenge(&mut session, &user("alice"), Ok(true), 0, "relay");
        nonces.push(session.pending_challenge.unwrap().nonce);
    }
    assert_ne!(nonces[0], nonces[1]);
}

#[test]
fn the_signed_login_bytes_are_nonce_time_and_server() {
    assert_eq!(
        login_bytes(&[1, 2], 0x0102_0304_0506_0708, "ab"),
        [1, 2, 1, 2, 3, 4, 5, 6, 7, 8, b'a', b'b']
    );
}

#[test]
fn requests_are_routed() {
    let mut registry = ConnectionRegistry::new();
    let mut session = Session::new();
    let typing = || ClientMessage::Typing { recipient_id: user("bob") };
    let login = || ClientMessage::AuthChallenge { user_id: user("alice") };

    let Route::Answer(reply) = handle_message(&session, &registry, typing()) else {
        panic!("expected an answer");
    };
    assert_eq!(reason_of(reply), "not authenticated");
    assert!(matches!(handle_message(&session, &registry, login()), Route::Auth(_)));

    let (conn_id, displaced) = registry.insert("alice".to_owned());
    assert_eq!(displaced, None);
    session.logged_in("alice".to_owned(), conn_id);
    assert!(session.deliver_prekey_status);
    assert!(matches!(
        handle_message(&session, &registry, typing()),
        Route::User { user_id, .. } if user_id == "alice"
    ));
    assert!(matches!(handle_message(&session, &registry, login()), Route::Auth(_)));

    let (newer, displaced) = registry.insert("alice".to_owned());
    assert_eq!(displaced, Some(conn_id));
    assert!(matches!(handle_message(&session, &registry, typing()), Route::Stop));
    registry.remove_if_match("alice", conn_id);
    assert_eq!(registry.connection_of("alice"), Some(newer));
    registry.remove_if_match("alice", newer);
    assert_eq!(registry.connection_of("alice"), None);
    assert_eq!(
        reason_of(replaced_notice()),
        "409: session replaced by new connection"
    );
    assert_eq!(reason_of(malformed_message()), "400: malformed message");
}

fn request(envelope: &str, prekey: Option<u32>, now: u64) -> EnqueueRequest {
    EnqueueRequest {
        message_id: "m1".to_owned(),
        recipient_id: "bob".to_owned(),
        sender_id: "alice".to_owned(),
        envelope_json: envelope.to_owned(),
        max_queue_per_user: 10,
        signed_prekey_id: None,
        one_time_prekey_id: prekey,
        now,
    }
}

fn facts() -> QueueFacts {
    QueueFacts {
        existing: None,
        recipient_exists: true,
        queue_depth: 0,
        sender_acceptances: 0,
        global_acceptances: 0,
        signed_prekey_kept: true,
        reserved_until: None,
        queued: false,
    }
}

#[test]
fn a_retry_ignores_an_expired_reservation() {
    let mut known = facts();
    known.reserved_until = Some(200);
    let first = enqueue(&request("envelope", Some(7), 200), &known);
    assert_eq!(first.result, EnqueueResult::Inserted);
    let digest = first.commit.unwrap();

    let mut retried = facts();
    retried.existing = Some(Acceptance {
        recipient_id: "bob".to_owned(),
        sender_id: "alice".to_owned(),
        envelope_digest: digest.to_vec(),
    });
    let second = enqueue(&request("envelope", Some(7), 201), &retried);
    assert_eq!(second.result, EnqueueResult::Duplicate);
    assert!(second.commit.is_none());
    assert_eq!(
        enqueue(&request("other", Some(7), 201), &retried).result,
        EnqueueResult::MessageIdConflict
    );
    let mut elsewhere = request("envelope", None, 201);
    elsewhere.recipient_id = "carol".to_owned();
    assert_eq!(enqueue(&elsewhere, &retried).result, EnqueueResult::MessageIdConflict);
}

#[test]
fn the_digest_is_sha256() {
    let digest = enqueue(&request("abc", None, 0), &facts()).commit.unwrap();
    assert_eq!(digest[..4], [0xba, 0x78, 0x16, 0xbf]);
    assert_eq!(digest[28..], [0xf2, 0x00, 0x15, 0xad]);
    assert_eq!(envelope_digest("abc"), digest);
    assert_eq!(envelope_digest("")[..4], [0xe3, 0xb0, 0xc4, 0x42]);
}

#[test]
fn messages_are_refused_with_a_reason() {
    let result = |request: EnqueueRequest, facts: QueueFacts| enqueue(&request, &facts).result;
    let mut known = facts();
    known.recipient_exists = false;
    assert_eq!(result(request("e", None, 0), known), EnqueueResult::RecipientNotFound);
    let mut known = facts();
    known.queue_depth = 10;
    assert_eq!(result(request("e", None, 0), known), EnqueueResult::QueueFull);
    let mut known = facts();
    known.sender_acceptances = 1_000;
    assert_eq!(result(request("e", None, 0), known), EnqueueResult::AcceptanceLedgerFull);
    let mut known = facts();
    known.global_acceptances = 1_000_000;
    assert_eq!(result(request("e", None, 0), known), EnqueueResult::AcceptanceLedgerFull);
    let mut known = facts();
    known.signed_prekey_kept = false;
    let mut first = request("e", None, 0);
    first.signed_prekey_id = Some(3);
    assert_eq!(result(first, known), EnqueueResult::SignedPrekeyExpired);
    let mut known = facts();
    known.reserved_until = Some(200);
    assert_eq!(
        result(request("e", Some(7), 201), known),
        EnqueueResult::PrekeyReservationInvalid
    );
    assert_eq!(
        result(request("e", Some(7), 0), facts()),
        EnqueueResult::PrekeyReservationInvalid
    );
    let mut known = facts();
    known.queued = true;
    assert_eq!(result(request("e", None, 0), known), EnqueueResult::Duplicate);
    assert_eq!(remaining_acceptances(5, 3), 2);
    assert_eq!(remaining_acceptances(3, 5), 0);
}

#[test]
fn results_of_the_queue_are_answered() {
    let id = MessageId::new();
    let refusal = |result| reason_of(validate_enqueue_result(Ok(result), &id).unwrap_err());
    assert!(validate_enqueue_result(Ok(EnqueueResult::Inserted), &id).is_ok());
    assert!(validate_enqueue_result(Ok(EnqueueResult::Duplicate), &id).is_ok());
    assert_eq!(refusal(EnqueueResult::QueueFull), "400: recipient's message queue is full");
    assert_eq!(refusal(EnqueueResult::RecipientNotFound), "404: not found");
    assert_eq!(
        refusal(EnqueueResult::MessageIdConflict),
        "400: message ID already used with different content"
    );
    assert_eq!(
        refusal(EnqueueResult::AcceptanceLedgerFull),
        "400: too many unconfirmed sent messages"
    );
    assert!(matches!(
        validate_enqueue_result(Ok(EnqueueResult::SignedPrekeyExpired), &id),
        Err(ServerMessage::MessageRejected { message_id, reason })
            if message_id == id && reason == "signed pre-key expired"
    ));
    assert!(matches!(
        validate_enqueue_result(Ok(EnqueueResult::PrekeyReservationInvalid), &id),
        Err(ServerMessage::MessageRejected { reason, .. })
            if reason == "one-time pre-key reservation expired"
    ));
    assert_eq!(
        reason_of(validate_enqueue_result(Err(StorageError), &id).unwrap_err()),
        "500: internal server error"
    );
    let (notice, reply) = answer_send(&id, true);
    assert!(matches!(
        notice,
        Some(ServerMessage::MessageDelivered { message_ids }) if message_ids == [id]
    ));
    assert_eq!(reply, ServerMessage::MessageSent { message_id: id });
    assert!(answer_send(&id, false).0.is_none());
}

#[test]
fn envelopes_are_validated() {
    let good = ratchet_envelope(2, &[0u8; 32], b"opaque");
    assert!(validate_envelope(&good).is_ok());
    assert_eq!(
        validate_envelope(&ratchet_envelope(1, &[0u8; 32], b"opaque")),
        Err("unsupported protocol version")
    );
    assert_eq!(
        validate_envelope(&ratchet_envelope(3, &[0u8; 32], b"opaque")),
        Err("unsupported protocol version")
    );
    let mut bad = good.clone();
    bad.ciphertext = "***".to_owned();
    assert_eq!(validate_envelope(&bad), Err("invalid ciphertext encoding"));
    bad.ciphertext = "A".repeat(524_289);
    assert_eq!(validate_envelope(&bad), Err("ciphertext exceeds maximum size"));
    let mut bad = good.clone();
    bad.header = MessageHeader::Ratchet(RatchetHeader {
        ratchet_key: "***".to_owned(),
        previous_chain_length: 0,
        message_number: 0,
    });
    assert_eq!(validate_envelope(&bad), Err("invalid key encoding"));

    let id = MessageId::new();
    let inbound = check_send("alice", &id, good.clone(), 5).unwrap();
    assert_eq!(inbound.timestamp, 5);
    let asked = enqueue_request(&inbound, &user("bob"), "json".to_owned(), 5);
    assert_eq!(asked.message_id, id.to_text());
    assert_eq!(asked.max_queue_per_user, 10_000);
    assert_eq!(asked.signed_prekey_id, None);
    assert_eq!(
        reason_of(check_send("", &id, good, 5).unwrap_err()),
        "500: internal server error"
    );
    assert!(check_page_size(Some(540_672)).is_ok());
    assert_eq!(
        reason_of(check_page_size(Some(540_673)).unwrap_err()),
        "400: message exceeds queued delivery size"
    );
    assert_eq!(reason_of(check_page_size(None).unwrap_err()), "400: invalid envelope");
}

#[test]
fn acknowledgements_are_bounded() {
    let ids = |count: usize| (0..count).map(|_| MessageId::new()).collect::<Vec<_>>();
    assert!(check_ack(&ids(1_000)).is_none());
    assert_eq!(
        reason_of(check_ack(&ids(1_001)).unwrap()),
        "400: ack batch exceeds maximum size"
    );
    assert!(check_receipt_ack(&ids(100)).is_none());
    assert_eq!(
        reason_of(check_receipt_ack(&ids(101)).unwrap()),
        "400: read receipt ack exceeds maximum size"
    );
    let ack_id = MessageId::new();
    let batch = ids(2);
    assert_eq!(
        answer_ack(&ack_id, batch.clone(), Ok(())),
        ServerMessage::AckSuccess { ack_id, message_ids: batch }
    );
    assert!(matches!(
        typing_notice("alice"),
        Some(ServerMessage::PeerTyping { sender_id }) if sender_id.as_str() == "alice"
    ));
    assert!(typing_notice("").is_none());
}

#[test]
fn receipts_are_queued_once() {
    let alice = "alice".to_owned();
    let bob = "bob".to_owned();
    let receipt = |existing, recipient_count, sender_count| {
        messenger::server::receipts::enqueue(
            &bob,
            &alice,
            10,
            &ReceiptFacts { existing, recipient_count, sender_count },
        )
    };
    let known = |recipient: &str, acknowledged| {
        Some(KnownReceipt {
            recipient_id: recipient.to_owned(),
            sender_id: "alice".to_owned(),
            acknowledged,
        })
    };
    assert_eq!(receipt(None, 9, 9), Receipt::Inserted);
    assert_eq!(receipt(None, 10, 0), Receipt::QueueFull);
    assert_eq!(receipt(None, 0, 10), Receipt::QueueFull);
    assert_eq!(receipt(known("bob", false), 10, 10), Receipt::Duplicate);
    assert_eq!(receipt(known("bob", true), 0, 0), Receipt::AlreadyAcknowledged);
    assert_eq!(receipt(known("carol", false), 0, 0), Receipt::Collision);

    let id = MessageId::new();
    assert!(answer_receipt(Ok(Receipt::Inserted), &id).is_none());
    assert_eq!(
        answer_receipt(Ok(Receipt::AlreadyAcknowledged), &id),
        Some(ServerMessage::ReadReceiptSent { receipt_id: id })
    );
    assert_eq!(
        reason_of(answer_receipt(Ok(Receipt::Collision), &id).unwrap()),
        "400: read receipt ID already exists"
    );
    assert_eq!(
        reason_of(answer_receipt(Ok(Receipt::QueueFull), &id).unwrap()),
        "400: recipient read receipt queue is full"
    );

    let notices = receipt_notices(&vec![
        (id.to_text(), "alice".to_owned()),
        ("no uuid".to_owned(), "bob".to_owned()),
    ]);
    assert_eq!(notices.len(), 1);
    assert_eq!(
        notices[0],
        ("alice".to_owned(), ServerMessage::ReadReceiptSent { receipt_id: id })
    );
}

#[test]
fn queued_receipts_are_read_or_refused() {
    let id = MessageId::new();
    let receipt = QueuedReceipt {
        receipt_id: id.to_text(),
        sender_id: "alice".to_owned(),
        envelope: String::new(),
    };
    let good = ratchet_envelope(2, &[0u8; 32], b"opaque");
    assert!(matches!(
        queued_receipt_to_message(&receipt, Some(good)),
        Some(ServerMessage::IncomingReadReceipt { receipt_id, .. }) if receipt_id == id
    ));
    assert!(queued_receipt_to_message(&receipt, None).is_none());
    assert!(
        queued_receipt_to_message(&receipt, Some(ratchet_envelope(1, &[0u8; 32], b"x"))).is_none()
    );
    assert_eq!(readable_ids(&vec!["?".to_owned(), id.to_text()]), [id]);
}

#[test]
fn uploads_are_capped_and_repeatable() {
    let prekeys: Vec<(u32, Vec<u8>)> = (0..3).map(|id| (id, vec![0_u8; 32])).collect();
    assert!(matches!(
        upload_prekeys(&Vec::new(), &prekeys, 3),
        UploadResult::Accepted(3)
    ));
    assert!(matches!(
        upload_prekeys(&vec![0, 1, 2], &prekeys, 3),
        UploadResult::Accepted(3)
    ));
    assert!(matches!(
        upload_prekeys(&vec![0, 1, 2], &vec![(3, vec![3; 32])], 3),
        UploadResult::InventoryFull(3)
    ));
    assert!(matches!(
        upload_prekeys(&vec![2], &vec![(1, vec![3; 32])], 3),
        UploadResult::Accepted(2)
    ));
    assert!(matches!(
        upload_prekeys(&vec![1, 2], &vec![(0, vec![3; 32]), (0, vec![4; 32])], 3),
        UploadResult::InventoryFull(2)
    ));
}

#[test]
fn uploads_are_checked_and_answered() {
    assert_eq!(
        reason_of(check_upload(&Vec::new()).unwrap_err()),
        "400: prekey upload cannot be empty"
    );
    let keys = |count: u32| {
        (0..count)
            .map(|key_id| OneTimePreKey { key_id, public_key: B64.encode([1u8; 32]) })
            .collect::<Vec<_>>()
    };
    assert_eq!(check_upload(&keys(200)).unwrap().len(), 200);
    assert_eq!(reason_of(check_upload(&keys(201)).unwrap_err()), "400: too many prekeys");
    let upload_id = MessageId::new();
    assert_eq!(
        answer_upload(&upload_id, Ok(UploadResult::InventoryFull(9))),
        ServerMessage::PreKeysUploaded { upload_id, accepted: false, remaining: 9 }
    );
    assert_eq!(
        reason_of(answer_upload(&upload_id, Ok(UploadResult::InvalidSequence))),
        "400: prekey IDs must increase monotonically"
    );
}

#[test]
fn fetches_are_limited() {
    let limits = FetchLimits { window_secs: 3_600, per_requester: 2, per_target: 3 };
    let fetch = |requester_count, target_count, prekey| {
        fetch_for_requester(&limits, FetchFacts { requester_count, target_count, prekey })
    };
    assert!(matches!(
        fetch(1, 2, Some((4, vec![7]))),
        FetchResult::Fetched { key_id: 4, public_key } if public_key == [7]
    ));
    assert!(matches!(fetch(2, 0, Some((4, vec![7]))), FetchResult::RateLimited));
    assert!(matches!(fetch(0, 3, Some((4, vec![7]))), FetchResult::RateLimited));
    assert!(matches!(fetch(0, 0, None), FetchResult::Empty));
    assert_eq!(limits.cutoff(4_000), 400);
    assert_eq!(limits.cutoff(400), 0);
    assert_eq!(FetchLimits::standard().per_requester, 10);
    assert_eq!(reserved_until(1_000), 4_600);
    assert_eq!(reserved_until(u64::MAX), u64::MAX);
}

#[test]
fn a_bundle_is_put_together() {
    assert_eq!(
        reason_of(check_fetch(&"bob".to_owned(), &user("bob")).unwrap()),
        "400: cannot fetch your own pre-key bundle"
    );
    assert!(check_fetch(&"alice".to_owned(), &user("bob")).is_none());
    assert_eq!(reason_of(bundle_identity(Ok(None)).unwrap_err()), "404: not found");
    let identity = bundle_identity(Ok(Some(vec![1u8; 32]))).unwrap();
    assert_eq!(identity, B64.encode([1u8; 32]));
    let row = SignedPreKeyRow { key_id: 5, public_key: vec![2u8; 32], signature: vec![3u8; 64] };
    let bundle = bundle_signed(identity, Ok(Some(row))).unwrap();
    assert_eq!(bundle.signed_prekey_id, 5);
    let reply = answer_fetch(
        user("bob"),
        bundle,
        Ok(FetchResult::Fetched { key_id: 8, public_key: vec![4u8; 32] }),
    );
    let ServerMessage::PreKeyBundleResponse { user_id, bundle } = reply else {
        panic!("expected a bundle");
    };
    assert_eq!(user_id.as_str(), "bob");
    let prekey = bundle.one_time_prekey.clone().unwrap();
    assert_eq!(prekey.key_id, 8);
    assert_eq!(prekey.public_key, B64.encode([4u8; 32]));
    assert_eq!(
        reason_of(answer_fetch(user("bob"), bundle, Ok(FetchResult::RateLimited))),
        "429: pre-key fetch rate limit exceeded"
    );
    assert!(low_notice(10).is_none());
    assert_eq!(low_notice(9), Some(ServerMessage::PreKeyLow { remaining: 9 }));
}

#[test]
fn signed_prekeys_are_rotated_forward() {
    let identity = IdentityKeyPair::generate();
    let spk = SignedPreKey::generate(2, &identity);
    let (public, signature) = decode_signed_prekey(
        &B64.encode(spk.public().as_bytes()),
        &B64.encode(spk.signature().to_bytes()),
    )
    .unwrap();
    let key = || Ok(Some(identity.verifying_key().as_bytes().to_vec()));
    assert!(verify_signed_prekey(key(), &public, &signature).is_ok());
    assert_eq!(
        reason_of(verify_signed_prekey(key(), &[0u8; 32], &signature).unwrap_err()),
        "400: signed prekey signature is invalid"
    );
    assert_eq!(
        reason_of(verify_signed_prekey(Ok(None), &public, &signature).unwrap_err()),
        "404: not found"
    );
    assert_eq!(
        reason_of(decode_signed_prekey("***", "").unwrap_err()),
        "400: invalid signed prekey encoding"
    );
    assert_eq!(
        reason_of(decode_signed_prekey(&B64.encode([1u8; 32]), &B64.encode([1u8; 1])).unwrap_err()),
        "400: signed prekey signature must be 64 bytes"
    );

    let row = |public_key: &[u8]| {
        Some(SignedPreKeyRow {
            key_id: 2,
            public_key: public_key.to_vec(),
            signature: signature.to_vec(),
        })
    };
    let rotate = |current_key_id, same_id| {
        rotate_signed_prekey(2, &public, &signature, &RotationFacts { current_key_id, same_id })
    };
    assert!(matches!(
        rotate(1, None),
        SignedPreKeyRotationResult::Accepted { current_key_id: 2 }
    ));
    assert!(matches!(
        rotate(2, row(&public)),
        SignedPreKeyRotationResult::Accepted { current_key_id: 2 }
    ));
    assert!(matches!(
        rotate(5, row(&public)),
        SignedPreKeyRotationResult::PreviouslyAccepted { current_key_id: 5 }
    ));
    assert!(matches!(
        rotate(5, row(&[0u8; 32])),
        SignedPreKeyRotationResult::Conflict { current_key_id: 5 }
    ));
    assert!(matches!(
        rotate(5, None),
        SignedPreKeyRotationResult::InvalidSequence { current_key_id: 5 }
    ));
    let rotation_id = MessageId::new();
    assert_eq!(
        answer_rotation(
            &rotation_id,
            Ok(SignedPreKeyRotationResult::PreviouslyAccepted { current_key_id: 5 })
        ),
        ServerMessage::SignedPreKeyRotated {
            rotation_id,
            accepted: false,
            previously_accepted: true,
            current_key_id: 5,
        }
    );
}

fn message_from(sender: &str) -> InboundMessage {
    InboundMessage {
        message_id: MessageId::new(),
        sender_id: user(sender),
        envelope: ratchet_envelope(2, &[0u8; 32], b"opaque"),
        timestamp: 0,
    }
}

#[test]
fn pages_are_bounded_by_count() {
    let mut pager = Pager::new(40);
    let mut pages = Vec::new();
    for row_id in 1..=130 {
        assert_eq!(pager.next_after(), Some(row_id - 1));
        pager.visit(row_id);
        if let PageStep::Full(page) = pager.offer(message_from("alice"), 100) {
            pages.push(page.len());
        }
    }
    pages.push(pager.finish().unwrap().len());
    assert_eq!(pages, [64, 64, 2]);
}

#[test]
fn pages_are_bounded_by_size() {
    let mut pager = Pager::new(40);
    assert!(matches!(pager.offer(message_from("alice"), 540_632), PageStep::Added));
    assert!(matches!(pager.offer(message_from("alice"), 540_633), PageStep::TooLarge));
    assert!(matches!(
        pager.offer(message_from("bob"), 1),
        PageStep::Full(page) if page.len() == 1
    ));
    assert_eq!(pager.finish().unwrap().len(), 1);
    assert!(Pager::new(40).finish().is_none());
}

#[test]
fn a_delivery_visits_a_thousand_messages() {
    let mut pager = Pager::new(40);
    for row_id in 1..=1_000 {
        assert!(pager.next_after().is_some());
        pager.visit(row_id);
    }
    assert!(pager.next_after().is_none());
}

#[test]
fn senders_are_told_together() {
    let messages = vec![message_from("alice"), message_from("bob"), message_from("alice")];
    let groups = group_by_sender(&messages);
    assert_eq!(groups.len(), 2);
    assert_eq!(groups[0].0, "alice");
    assert_eq!(groups[0].1, [messages[0].message_id, messages[2].message_id]);
    assert_eq!(groups[1].1, [messages[1].message_id]);
}

#[test]
fn older_databases_are_migrated() {
    assert_eq!(pending_migrations(0), [1, 2, 3, 4, 5, 6, 7, 8]);
    assert_eq!(pending_migrations(7), [8]);
    assert!(pending_migrations(8).is_empty());
    assert!(pending_migrations(9).is_empty());
    assert!(check_queued_version(2).is_ok());
    assert_eq!(
        check_queued_version(1).unwrap_err(),
        "queued ciphertext uses protocol version 1; drain or reset queued data before starting protocol version 2"
    );
}

#[test]
fn rows_that_cannot_be_delivered_are_removed() {
    let mut pager = Pager::new(40);
    let row = QueuedRow {
        row_id: 7,
        message_id: MessageId::new().to_text(),
        sender_id: "alice".to_owned(),
        envelope_json: "?".to_owned(),
        created_at: "2024-01-01 00:00:00".to_owned(),
    };
    assert!(matches!(pager.look_at(&row, None), RowStep::Remove(RowFault::Encoding)));
    assert_eq!(pager.next_after(), Some(7));
    let envelope = ratchet_envelope(2, &[0u8; 32], b"opaque");
    let RowStep::Measure(message) = pager.look_at(&row, Some(envelope)) else {
        panic!("expected a message");
    };
    assert_eq!(message.timestamp, 1_704_067_200);
    assert!(matches!(pager.measured(message, None), PageStep::TooLarge));
    assert!(matches!(pager.measured(message_from("bob"), Some(100)), PageStep::Added));
    let page = pager.finish().unwrap();
    assert_eq!(page.len(), 1);
    let notices = delivery_notices(&page);
    assert_eq!(notices.len(), 1);
    assert_eq!(notices[0].0, "bob");
    assert_eq!(
        notices[0].1,
        ServerMessage::MessageDelivered { message_ids: vec![page[0].message_id] }
    );
}
