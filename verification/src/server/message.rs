//! Messages as clients send and acknowledge them.

use super::handlers::{error_400, error_404, error_500_generic, StorageError};
use super::queue::{EnqueueRequest, EnqueueResult};
use crate::encoding::decode;
use crate::protocol::consts::{
    MAX_ACK_BATCH, MAX_CIPHERTEXT_BYTES, MAX_QUEUED_PAGE_BYTES, MAX_QUEUE_PER_USER,
    PROTOCOL_VERSION,
};
use crate::protocol::{
    EncryptedEnvelope, InboundMessage, MessageHeader, MessageId, ServerMessage, UserId,
};
use vstd::prelude::*;
use vstd::string::*;

verus! {

use super::handlers::{is_error, is_internal_error};
use crate::encoding::{base64_bytes, texts};
use crate::protocol::types::{uuid_text, valid_user_id};
use crate::text::byte_len;

/// Why a key is refused, or nothing if it is the base64 form of 32 bytes.
pub open spec fn key_fault(text: Seq<char>) -> Option<Seq<char>> {
    match base64_bytes(text) {
        None => Some("invalid key encoding"@),
        Some(bytes) => if bytes.len() != 32 {
            Some("invalid key length"@)
        } else {
            None
        },
    }
}

/// Why an envelope is refused, or nothing if it is well-formed.
pub open spec fn envelope_fault(envelope: EncryptedEnvelope) -> Option<Seq<char>> {
    if envelope.version != PROTOCOL_VERSION {
        Some("unsupported protocol version"@)
    } else if byte_len(envelope.ciphertext@) > MAX_CIPHERTEXT_BYTES {
        Some("ciphertext exceeds maximum size"@)
    } else if base64_bytes(envelope.ciphertext@) is None {
        Some("invalid ciphertext encoding"@)
    } else {
        match envelope.header {
            MessageHeader::PreKey { sender_identity_key, sender_ephemeral_key, ratchet, .. } => {
                if key_fault(sender_identity_key@) is Some {
                    key_fault(sender_identity_key@)
                } else if key_fault(sender_ephemeral_key@) is Some {
                    key_fault(sender_ephemeral_key@)
                } else {
                    key_fault(ratchet.ratchet_key@)
                }
            },
            MessageHeader::Ratchet(ratchet) => key_fault(ratchet.ratchet_key@),
        }
    }
}

/// Checks that a text is the base64 form of 32 bytes.
pub fn validate_key(encoded: &str) -> (out: Result<(), &'static str>)
    ensures
        match out {
            Ok(_) => key_fault(encoded@) is None,
            Err(reason) => key_fault(encoded@) == Some(reason@),
        },
{
    match decode(encoded) {
        None => Err("invalid key encoding"),
        Some(bytes) => if bytes.len() != 32 {
            Err("invalid key length")
        } else {
            Ok(())
        },
    }
}

/// Checks an envelope as far as the relay can: it does not hold the keys.
pub fn validate_envelope(envelope: &EncryptedEnvelope) -> (out: Result<(), &'static str>)
    ensures
        match out {
            Ok(_) => envelope_fault(*envelope) is None,
            Err(reason) => envelope_fault(*envelope) == Some(reason@),
        },
{
    if envelope.version != PROTOCOL_VERSION {
        return Err("unsupported protocol version");
    }
    if envelope.ciphertext.as_str().as_bytes().len() > MAX_CIPHERTEXT_BYTES {
        return Err("ciphertext exceeds maximum size");
    }
    if decode(envelope.ciphertext.as_str()).is_none() {
        return Err("invalid ciphertext encoding");
    }
    match &envelope.header {
        MessageHeader::PreKey { sender_identity_key, sender_ephemeral_key, ratchet, .. } => {
            match validate_key(sender_identity_key.as_str()) {
                Ok(()) => {},
                Err(reason) => return Err(reason),
            }
            match validate_key(sender_ephemeral_key.as_str()) {
                Ok(()) => {},
                Err(reason) => return Err(reason),
            }
            validate_key(ratchet.ratchet_key.as_str())
        },
        MessageHeader::Ratchet(ratchet) => validate_key(ratchet.ratchet_key.as_str()),
    }
}

/// The pre-keys that a message names: signed and one-time.
pub open spec fn named_prekeys(header: MessageHeader) -> (Option<u32>, Option<u32>) {
    match header {
        MessageHeader::PreKey {
            recipient_signed_prekey_id,
            recipient_one_time_prekey_id,
            ..
        } => (Some(recipient_signed_prekey_id), recipient_one_time_prekey_id),
        MessageHeader::Ratchet(_) => (None, None),
    }
}

/// The pre-keys that a message names: signed and one-time.
pub fn envelope_prekey_ids(header: &MessageHeader) -> (out: (Option<u32>, Option<u32>))
    ensures
        out == named_prekeys(*header),
{
    match header {
        MessageHeader::PreKey {
            recipient_signed_prekey_id,
            recipient_one_time_prekey_id,
            ..
        } => (Some(*recipient_signed_prekey_id), *recipient_one_time_prekey_id),
        MessageHeader::Ratchet(_) => (None, None),
    }
}

/// Checks a message that a user sends, and puts it in the form in which the
/// recipient gets it.
pub fn check_send(
    sender_id: &str,
    message_id: &MessageId,
    envelope: EncryptedEnvelope,
    now: u64,
) -> (out: Result<InboundMessage, ServerMessage>)
    ensures
        match envelope_fault(envelope) {
            Some(reason) => out matches Err(reply) && is_error(reply, 400, reason),
            None => if !valid_user_id(sender_id@) {
                out matches Err(reply) && is_internal_error(reply)
            } else {
                out matches Ok(inbound) && inbound.message_id == *message_id
                    && inbound.sender_id@ == sender_id@ && inbound.envelope == envelope
                    && inbound.timestamp == now
            },
        },
{
    match validate_envelope(&envelope) {
        Ok(()) => {},
        Err(reason) => return Err(error_400(reason)),
    }
    match UserId::new(sender_id) {
        Ok(sender_id) => Ok(
            InboundMessage { message_id: *message_id, sender_id, envelope, timestamp: now },
        ),
        Err(_) => Err(error_500_generic()),
    }
}

/// Checks that a message can be delivered from the queue: alone on a page, it
/// must fit. `encoded` is the size of that page, if it could be encoded.
pub fn check_page_size(encoded: Option<usize>) -> (out: Result<(), ServerMessage>)
    ensures
        match encoded {
            None => out matches Err(reply) && is_error(reply, 400, "invalid envelope"@),
            Some(size) => if size > MAX_QUEUED_PAGE_BYTES {
                out matches Err(reply) && is_error(
                    reply,
                    400,
                    "message exceeds queued delivery size"@,
                )
            } else {
                out is Ok
            },
        },
{
    match encoded {
        None => Err(error_400("invalid envelope")),
        Some(size) => if size > MAX_QUEUED_PAGE_BYTES {
            Err(error_400("message exceeds queued delivery size"))
        } else {
            Ok(())
        },
    }
}

/// The request with which a message is taken in.
pub fn enqueue_request(
    inbound: &InboundMessage,
    recipient_id: &UserId,
    envelope_json: String,
    now: u64,
) -> (out: EnqueueRequest)
    ensures
        out.message_id@ == uuid_text(inbound.message_id@),
        out.recipient_id@ == recipient_id@,
        out.sender_id@ == inbound.sender_id@,
        out.envelope_json == envelope_json,
        out.max_queue_per_user == MAX_QUEUE_PER_USER,
        (out.signed_prekey_id, out.one_time_prekey_id) == named_prekeys(inbound.envelope.header),
        out.now == now,
{
    let (signed_prekey_id, one_time_prekey_id) = envelope_prekey_ids(&inbound.envelope.header);
    EnqueueRequest {
        message_id: inbound.message_id.to_text(),
        recipient_id: recipient_id.as_str().to_owned(),
        sender_id: inbound.sender_id.as_str().to_owned(),
        envelope_json,
        max_queue_per_user: MAX_QUEUE_PER_USER,
        signed_prekey_id,
        one_time_prekey_id,
        now,
    }
}

/// The refusal of one message.
pub open spec fn is_rejection(reply: ServerMessage, id: MessageId, text: Seq<char>) -> bool {
    reply matches ServerMessage::MessageRejected { message_id, reason } && message_id == id
        && reason@ == text
}

/// The database has the message.
pub open spec fn on_its_way(result: Result<EnqueueResult, StorageError>) -> bool {
    result == Ok::<EnqueueResult, StorageError>(EnqueueResult::Inserted) || result == Ok::<
        EnqueueResult,
        StorageError,
    >(EnqueueResult::Duplicate)
}

/// What the sender of a message is answered that the database does not have.
pub open spec fn refuses_message(
    result: Result<EnqueueResult, StorageError>,
    id: MessageId,
    reply: ServerMessage,
) -> bool {
    match result {
        Ok(EnqueueResult::Inserted) => false,
        Ok(EnqueueResult::Duplicate) => false,
        Ok(EnqueueResult::QueueFull) => is_error(reply, 400, "recipient's message queue is full"@),
        Ok(EnqueueResult::RecipientNotFound) => is_error(reply, 404, "not found"@),
        Ok(EnqueueResult::PrekeyReservationInvalid) => is_rejection(
            reply,
            id,
            "one-time pre-key reservation expired"@,
        ),
        Ok(EnqueueResult::SignedPrekeyExpired) => is_rejection(
            reply,
            id,
            "signed pre-key expired"@,
        ),
        Ok(EnqueueResult::MessageIdConflict) => is_error(
            reply,
            400,
            "message ID already used with different content"@,
        ),
        Ok(EnqueueResult::AcceptanceLedgerFull) => is_error(
            reply,
            400,
            "too many unconfirmed sent messages"@,
        ),
        Err(_) => is_internal_error(reply),
    }
}

/// Whether a message is on its way, and if not what its sender is answered.
pub fn validate_enqueue_result(
    result: Result<EnqueueResult, StorageError>,
    message_id: &MessageId,
) -> (out: Result<(), ServerMessage>)
    ensures
        match out {
            Ok(_) => on_its_way(result),
            Err(reply) => refuses_message(result, *message_id, reply),
        },
{
    match result {
        Ok(EnqueueResult::Inserted) => Ok(()),
        Ok(EnqueueResult::Duplicate) => Ok(()),
        Ok(EnqueueResult::QueueFull) => Err(error_400("recipient's message queue is full")),
        Ok(EnqueueResult::RecipientNotFound) => Err(error_404("not found")),
        Ok(EnqueueResult::PrekeyReservationInvalid) => Err(
            ServerMessage::MessageRejected {
                message_id: *message_id,
                reason: "one-time pre-key reservation expired".to_owned(),
            },
        ),
        Ok(EnqueueResult::SignedPrekeyExpired) => Err(
            ServerMessage::MessageRejected {
                message_id: *message_id,
                reason: "signed pre-key expired".to_owned(),
            },
        ),
        Ok(EnqueueResult::MessageIdConflict) => Err(
            error_400("message ID already used with different content"),
        ),
        Ok(EnqueueResult::AcceptanceLedgerFull) => Err(
            error_400("too many unconfirmed sent messages"),
        ),
        Err(_) => Err(error_500_generic()),
    }
}

/// A list of one identifier.
fn only(id: &MessageId) -> (out: Vec<MessageId>)
    ensures
        out@ == seq![*id],
{
    let mut ids: Vec<MessageId> = Vec::new();
    ids.push(*id);
    assert(ids@ =~= seq![*id]);
    ids
}

/// What the sender hears of a message that is on its way: that it was pushed
/// to the recipient's device, if it was, and that the relay has it.
pub fn answer_send(message_id: &MessageId, pushed: bool) -> (out: (
    Option<ServerMessage>,
    ServerMessage,
))
    ensures
        pushed == (out.0 is Some),
        out.0 matches Some(notice) ==> (notice matches ServerMessage::MessageDelivered { message_ids }
            && message_ids@ == seq![*message_id]),
        out.1 == (ServerMessage::MessageSent { message_id: *message_id }),
{
    let notice = if pushed {
        Some(ServerMessage::MessageDelivered { message_ids: only(message_id) })
    } else {
        None
    };
    (notice, ServerMessage::MessageSent { message_id: *message_id })
}

/// The texts of identifiers.
pub open spec fn id_texts(ids: Seq<MessageId>) -> Seq<Seq<char>> {
    ids.map_values(|id: MessageId| uuid_text(id@))
}

/// The texts of identifiers, as the database holds them.
pub fn texts_of_ids(ids: &Vec<MessageId>) -> (out: Vec<String>)
    ensures
        texts(out@) == id_texts(ids@),
{
    let mut out: Vec<String> = Vec::new();
    let mut i: usize = 0;
    while i < ids.len()
        invariant
            i <= ids@.len(),
            out@.len() == i,
            forall|j: int| 0 <= j < i ==> (#[trigger] out@[j])@ == uuid_text(ids@[j]@),
        decreases ids@.len() - i,
    {
        out.push(ids[i].to_text());
        i += 1;
    }
    assert(texts(out@) =~= id_texts(ids@));
    out
}

/// Refuses an acknowledgement of too many messages.
pub fn check_ack(message_ids: &Vec<MessageId>) -> (out: Option<ServerMessage>)
    ensures
        match out {
            None => message_ids@.len() <= MAX_ACK_BATCH,
            Some(reply) => message_ids@.len() > MAX_ACK_BATCH && is_error(
                reply,
                400,
                "ack batch exceeds maximum size"@,
            ),
        },
{
    if message_ids.len() > MAX_ACK_BATCH {
        Some(error_400("ack batch exceeds maximum size"))
    } else {
        None
    }
}

/// What an acknowledgement is answered.
pub fn answer_ack(
    ack_id: &MessageId,
    message_ids: Vec<MessageId>,
    stored: Result<(), StorageError>,
) -> (out: ServerMessage)
    ensures
        match stored {
            Ok(_) => out == (ServerMessage::AckSuccess { ack_id: *ack_id, message_ids }),
            Err(_) => is_internal_error(out),
        },
{
    match stored {
        Ok(()) => ServerMessage::AckSuccess { ack_id: *ack_id, message_ids },
        Err(_) => error_500_generic(),
    }
}

/// What the confirmation of sent messages is answered, if anything.
pub fn answer_sent_ack(stored: Result<(), StorageError>) -> (out: Option<ServerMessage>)
    ensures
        match stored {
            Ok(_) => out is None,
            Err(_) => out matches Some(reply) && is_internal_error(reply),
        },
{
    match stored {
        Ok(()) => None,
        Err(_) => Some(error_500_generic()),
    }
}

/// The notice that a user is typing, if the user's name is valid.
pub fn typing_notice(from: &str) -> (out: Option<ServerMessage>)
    ensures
        match out {
            Some(notice) => valid_user_id(from@) && (notice matches ServerMessage::PeerTyping {
                sender_id,
            } && sender_id@ == from@),
            None => !valid_user_id(from@),
        },
{
    match UserId::new(from) {
        Ok(sender_id) => Some(ServerMessage::PeerTyping { sender_id }),
        Err(_) => None,
    }
}

/// An envelope of the current version whose ciphertext is base64 of at most the
/// permitted size, and whose keys are the base64 forms of 32 bytes, is
/// well-formed, whatever its counters and the pre-keys that it names; and no
/// other is.
pub proof fn law_well_formed_envelope(envelope: EncryptedEnvelope)
    ensures
        envelope_fault(envelope) is None <==> {
            &&& envelope.version == PROTOCOL_VERSION
            &&& vstd::utf8::encode_utf8(envelope.ciphertext@).len() <= MAX_CIPHERTEXT_BYTES
            &&& base64_bytes(envelope.ciphertext@) is Some
            &&& match envelope.header {
                MessageHeader::PreKey { sender_identity_key, sender_ephemeral_key, ratchet, .. } => {
                    &&& base64_bytes(sender_identity_key@) matches Some(key) && key.len() == 32
                    &&& base64_bytes(sender_ephemeral_key@) matches Some(key) && key.len() == 32
                    &&& base64_bytes(ratchet.ratchet_key@) matches Some(key) && key.len() == 32
                },
                MessageHeader::Ratchet(ratchet) => base64_bytes(ratchet.ratchet_key@) matches Some(
                    key,
                ) && key.len() == 32,
            }
        },
{
}

/// A malformed envelope is refused with what is wrong with it, the version
/// first, then the size, then the encoding, and of its keys the first bad one.
pub proof fn law_envelope_fault_says_why(envelope: EncryptedEnvelope)
    ensures
        ({
            let large = vstd::utf8::encode_utf8(envelope.ciphertext@).len() > MAX_CIPHERTEXT_BYTES;
            let encoded = base64_bytes(envelope.ciphertext@) is Some;
            let fault = envelope_fault(envelope);
            &&& envelope.version != PROTOCOL_VERSION ==> fault == Some(
                "unsupported protocol version"@,
            )
            &&& envelope.version == PROTOCOL_VERSION && large ==> fault == Some(
                "ciphertext exceeds maximum size"@,
            )
            &&& envelope.version == PROTOCOL_VERSION && !large && !encoded ==> fault == Some(
                "invalid ciphertext encoding"@,
            )
            &&& envelope.version == PROTOCOL_VERSION && !large && encoded && fault is Some
                ==> exists|key: Seq<char>|
                {
                    &&& match envelope.header {
                        MessageHeader::PreKey {
                            sender_identity_key,
                            sender_ephemeral_key,
                            ratchet,
                            ..
                        } => key == sender_identity_key@ || key == sender_ephemeral_key@ || key
                            == ratchet.ratchet_key@,
                        MessageHeader::Ratchet(ratchet) => key == ratchet.ratchet_key@,
                    }
                    &&& match #[trigger] base64_bytes(key) {
                        None => fault == Some("invalid key encoding"@),
                        Some(bytes) => bytes.len() != 32 && fault == Some("invalid key length"@),
                    }
                }
        }),
{
}

/// What a message is taken in for is what its header says: the pre-keys that a
/// first message names, and none otherwise.
pub proof fn law_only_first_messages_name_prekeys(header: MessageHeader)
    ensures
        match header {
            MessageHeader::PreKey {
                recipient_signed_prekey_id,
                recipient_one_time_prekey_id,
                ..
            } => named_prekeys(header).0 == Some(recipient_signed_prekey_id) && named_prekeys(
                header,
            ).1 == recipient_one_time_prekey_id,
            MessageHeader::Ratchet(_) => named_prekeys(header).0 is None && named_prekeys(
                header,
            ).1 is None,
        },
{
}

/// A sender is told of a message either that it is on its way or why it is not,
/// and never both; each reason has its own words, and only what is wrong with a
/// session is said of the message alone.
pub proof fn law_sender_is_answered(
    result: Result<EnqueueResult, StorageError>,
    id: MessageId,
    reply: ServerMessage,
)
    ensures
        on_its_way(result) <==> (result matches Ok(found) && (found == EnqueueResult::Inserted
            || found == EnqueueResult::Duplicate)),
        refuses_message(result, id, reply) ==> !on_its_way(result),
        refuses_message(result, id, reply) && (reply matches ServerMessage::MessageRejected {
            message_id,
            reason,
        }) ==> {
            &&& reply->MessageRejected_message_id == id
            &&& result == Ok::<EnqueueResult, StorageError>(EnqueueResult::PrekeyReservationInvalid)
                ==> reply->MessageRejected_reason@ == "one-time pre-key reservation expired"@
            &&& result == Ok::<EnqueueResult, StorageError>(EnqueueResult::SignedPrekeyExpired)
                ==> reply->MessageRejected_reason@ == "signed pre-key expired"@
            &&& result == Ok::<EnqueueResult, StorageError>(EnqueueResult::PrekeyReservationInvalid)
                || result == Ok::<EnqueueResult, StorageError>(EnqueueResult::SignedPrekeyExpired)
        },
        refuses_message(result, id, reply) && !(reply is MessageRejected) ==> (reply matches
            ServerMessage::Error { code, message } && match result {
            Ok(EnqueueResult::QueueFull) => code == 400 && message@
                == "recipient's message queue is full"@,
            Ok(EnqueueResult::RecipientNotFound) => code == 404 && message@ == "not found"@,
            Ok(EnqueueResult::MessageIdConflict) => code == 400 && message@
                == "message ID already used with different content"@,
            Ok(EnqueueResult::AcceptanceLedgerFull) => code == 400 && message@
                == "too many unconfirmed sent messages"@,
            Ok(_) => false,
            Err(_) => code == 500 && message@ == "internal server error"@,
        }),
{
}

} // verus!
