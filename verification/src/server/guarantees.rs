//! What users of the relay may rely on, stated of the functions that serve
//! them: of every call, whatever its arguments.

use super::auth::{
    answer_challenge, begin_challenge_with, check_registration, check_response, login_bytes,
    take_challenge, PendingChallenge, Registration,
};
use super::delivery::{
    delivery_notices, queued_receipt_to_message, queued_row_to_inbound, readable_ids, PageStep,
    Pager, RowFault,
};
use super::handlers::{decode_prekeys, handle_message, Route, Session, StorageError};
use super::message::{
    check_ack, check_send, enqueue_request, typing_notice, validate_enqueue_result,
    validate_envelope,
};
use super::prekeys::{
    answer_fetch, check_fetch, check_upload, decode_signed_prekey, fetch_for_requester, low_notice,
    reserved_until, rotate_signed_prekey, upload_prekeys, verify_signed_prekey, FetchFacts,
    FetchLimits, FetchResult, RotationFacts, SignedPreKeyRotationResult, UploadResult,
};
use super::queue::{
    enqueue, EnqueueDecision, EnqueueRequest, EnqueueResult, QueueFacts, QueuedRow,
};
use super::receipts::{
    answer_receipt, enqueue as enqueue_receipt, receipt_notices, EnqueueResult as ReceiptResult,
    QueuedReceipt, ReceiptFacts,
};
use crate::protocol::{
    ClientMessage, EncryptedEnvelope, InboundMessage, MessageHeader, MessageId, OneTimePreKey,
    PreKeyBundle, ServerMessage, UserId,
};
use super::connection::ConnectionRegistry;
use crate::crypto::keys::IdentityKeyPair;
use vstd::prelude::*;
use vstd::string::*;

verus! {

use crate::crypto::primitives::{
    ed25519_decodes, ed25519_public, ed25519_sign, ed25519_verifies, sha256,
};
use crate::encoding::base64_bytes;
use crate::protocol::types::uuid_value;
use vstd::utf8::encode_utf8;

/// A text is the base64 form of so many bytes.
pub open spec fn stands_for_bytes(text: Seq<char>, count: nat) -> bool {
    base64_bytes(text) matches Some(bytes) && bytes.len() == count
}

/// An envelope that the relay can pass on: of version 2, with a base64
/// ciphertext of at most 512 KiB and 32-byte keys.
pub open spec fn passable(envelope: EncryptedEnvelope) -> bool {
    &&& envelope.version == 2
    &&& encode_utf8(envelope.ciphertext@).len() <= 524_288
    &&& base64_bytes(envelope.ciphertext@) is Some
    &&& match envelope.header {
        MessageHeader::PreKey { sender_identity_key, sender_ephemeral_key, ratchet, .. } => {
            &&& stands_for_bytes(sender_identity_key@, 32)
            &&& stands_for_bytes(sender_ephemeral_key@, 32)
            &&& stands_for_bytes(ratchet.ratchet_key@, 32)
        },
        MessageHeader::Ratchet(ratchet) => stands_for_bytes(ratchet.ratchet_key@, 32),
    }
}

/// A name that a user can have: 1 to 128 ASCII characters, not all of them
/// white space, none of them a control character, a slash or a backslash, and
/// no two dots in a row.
pub open spec fn nameable(name: Seq<char>) -> bool {
    &&& encode_utf8(name).len() <= 128
    &&& exists|i: int|
        0 <= i < name.len() && #[trigger] name[i] != ' ' && 0x20 < name[i] as u32
    &&& forall|i: int|
        0 <= i < name.len() ==> 0x20 <= #[trigger] name[i] as u32 && (name[i] as u32) < 0x7F
            && name[i] != '/' && name[i] != '\\'
    &&& forall|i: int|
        0 <= i < name.len() - 1 ==> !(#[trigger] name[i] == '.' && name[i + 1] == '.')
}

/// A user can have exactly the names that are nameable, and keeps the name as
/// it was given.
pub proof fn law_names(name: &str, out: Result<UserId, crate::protocol::types::InvalidUserId>)
    requires
        call_ensures(UserId::new, (name,), out),
    ensures
        out is Ok <==> nameable(name@),
        out matches Ok(user) ==> user@ == name@,
{
    lemma_nameable(name@);
}

proof fn lemma_code(c: char)
    ensures
        c as u32 == c as int,
{
}

pub proof fn lemma_nameable(name: Seq<char>)
    ensures
        crate::protocol::types::valid_user_id(name) <==> nameable(name),
{
    if nameable(name) {
        assert(vstd::utf8::is_ascii_chars(name)) by {
            assert forall|j: int| 0 <= j < name.len() implies '\0' <= #[trigger] name[j]
                <= '\u{7f}' by {
                lemma_code(name[j]);
            }
        }
        let i = choose|i: int| 0 <= i < name.len() && #[trigger] name[i] != ' ' && 0x20 < name[i] as u32;
        assert(!crate::text::white_space(name[i]));
        assert forall|j: int| 0 <= j < name.len() implies !crate::protocol::types::is_control(
            #[trigger] name[j],
        ) by {
            assert(0x20 <= name[j] as u32);
        }
        assert forall|j: int| 0 <= j < name.len() implies !#[trigger]
            crate::protocol::types::path_part_at(name, j) by {
            assert(name[j] != '/' && name[j] != '\\');
        }
    }
    if crate::protocol::types::valid_user_id(name) {
        assert forall|j: int| 0 <= j < name.len() implies 0x20 <= #[trigger] name[j] as u32 && (
        name[j] as u32) < 0x7F && name[j] != '/' && name[j] != '\\' by {
            assert(!crate::protocol::types::is_control(name[j]));
            assert(!crate::protocol::types::path_part_at(name, j));
        }
        assert forall|j: int| 0 <= j < name.len() - 1 implies !(#[trigger] name[j] == '.' && name[j
            + 1] == '.') by {
            assert(!crate::protocol::types::path_part_at(name, j));
        }
        let i = choose|i: int|
            0 <= i < name.len() && !crate::text::white_space(#[trigger] name[i]);
        assert(name[i] != ' ' && 0x20 < name[i] as u32);
    }
}

/// The relay passes an envelope on if it is passable, whatever its counters and
/// the pre-keys that it names, and refuses every other.
pub proof fn law_passable_envelopes(envelope: &EncryptedEnvelope, out: Result<(), &'static str>)
    requires
        call_ensures(validate_envelope, (envelope,), out),
    ensures
        out is Ok <==> passable(*envelope),
{
}

/// A message that is sent reaches the recipient as it was sent: with its own
/// identifier, the name of its sender, the same envelope and the time.
pub proof fn law_message_is_passed_on(
    sender: &str,
    message_id: &MessageId,
    envelope: EncryptedEnvelope,
    now: u64,
    out: Result<InboundMessage, ServerMessage>,
)
    requires
        call_ensures(check_send, (sender, message_id, envelope, now), out),
    ensures
        out is Ok <==> passable(envelope) && nameable(sender@),
        out matches Ok(inbound) ==> inbound.message_id == *message_id && inbound.sender_id@
            == sender@ && inbound.envelope == envelope && inbound.timestamp == now,
        out matches Err(reply) ==> (reply matches ServerMessage::Error { code, message } && (code
            == 400 || code == 500 && passable(envelope) && message@ == "internal server error"@)),
{
    lemma_nameable(sender@);
}

/// What is asked of the database for a message is what its header and its
/// recipient say, with room for 10 000 messages for each recipient.
pub proof fn law_message_is_queued_for_its_recipient(
    inbound: &InboundMessage,
    recipient: &UserId,
    envelope_json: String,
    now: u64,
    out: EnqueueRequest,
)
    requires
        call_ensures(enqueue_request, (inbound, recipient, envelope_json, now), out),
    ensures
        out.recipient_id@ == recipient@,
        out.sender_id@ == inbound.sender_id@,
        out.envelope_json == envelope_json,
        out.max_queue_per_user == 10_000,
        out.now == now,
        match inbound.envelope.header {
            MessageHeader::PreKey {
                recipient_signed_prekey_id,
                recipient_one_time_prekey_id,
                ..
            } => out.signed_prekey_id == Some(recipient_signed_prekey_id)
                && out.one_time_prekey_id == recipient_one_time_prekey_id,
            MessageHeader::Ratchet(_) => out.signed_prekey_id is None && out.one_time_prekey_id
                is None,
        },
{
}

/// A new message to a registered recipient, within all limits, is queued, and
/// its digest remembered, if the signed pre-key that it names is kept and the
/// one-time pre-key that it names is reserved for its sender until now or
/// later; otherwise the first reason against it is given and nothing is
/// written.
pub proof fn law_queueing(request: &EnqueueRequest, facts: &QueueFacts, out: EnqueueDecision)
    requires
        call_ensures(enqueue, (request, facts), out),
        facts.existing is None,
    ensures
        ({
            let room = facts.queue_depth < request.max_queue_per_user;
            let ledger = facts.sender_acceptances < 1000 && facts.global_acceptances < 1_000_000;
            let kept = request.signed_prekey_id is Some ==> facts.signed_prekey_kept;
            let reserved = request.one_time_prekey_id is Some ==> (facts.reserved_until matches
                Some(until) && request.now <= until);
            let taken = facts.recipient_exists && room && ledger && kept && reserved;
            &&& taken ==> (out.commit matches Some(digest) && digest@ == sha256(
                encode_utf8(request.envelope_json@),
            ))
            &&& taken && !facts.queued ==> out.result == EnqueueResult::Inserted
            &&& taken && facts.queued ==> out.result == EnqueueResult::Duplicate
            &&& !taken ==> out.commit is None
            &&& !facts.recipient_exists ==> out.result == EnqueueResult::RecipientNotFound
            &&& facts.recipient_exists && !room ==> out.result == EnqueueResult::QueueFull
            &&& facts.recipient_exists && room && !ledger ==> out.result
                == EnqueueResult::AcceptanceLedgerFull
            &&& facts.recipient_exists && room && ledger && !kept ==> out.result
                == EnqueueResult::SignedPrekeyExpired
            &&& facts.recipient_exists && room && ledger && kept && !reserved ==> out.result
                == EnqueueResult::PrekeyReservationInvalid
        }),
{
}

/// Under an identifier that was taken nothing is written again: the same
/// message is recognised by its sender, its recipient and its digest, and
/// another is a conflict.
pub proof fn law_queueing_again(request: &EnqueueRequest, facts: &QueueFacts, out: EnqueueDecision)
    requires
        call_ensures(enqueue, (request, facts), out),
        facts.existing is Some,
    ensures
        out.commit is None,
        out.result == EnqueueResult::Duplicate || out.result == EnqueueResult::MessageIdConflict,
        out.result == EnqueueResult::Duplicate <==> {
            &&& facts.existing->0.sender_id@ == request.sender_id@
            &&& facts.existing->0.recipient_id@ == request.recipient_id@
            &&& facts.existing->0.envelope_digest@ == sha256(encode_utf8(request.envelope_json@))
        },
{
}

/// The sender of a message hears nothing of a refusal where the message is on
/// its way, and otherwise why it is not.
pub proof fn law_refusal_is_told(
    result: Result<EnqueueResult, StorageError>,
    id: &MessageId,
    out: Result<(), ServerMessage>,
)
    requires
        call_ensures(validate_enqueue_result, (result, id), out),
    ensures
        out is Ok <==> (result matches Ok(found) && (found == EnqueueResult::Inserted || found
            == EnqueueResult::Duplicate)),
        out matches Err(reply) ==> match result {
            Ok(EnqueueResult::PrekeyReservationInvalid) => reply matches
                ServerMessage::MessageRejected { message_id, reason } && message_id == *id
                && reason@ == "one-time pre-key reservation expired"@,
            Ok(EnqueueResult::SignedPrekeyExpired) => reply matches
                ServerMessage::MessageRejected { message_id, reason } && message_id == *id
                && reason@ == "signed pre-key expired"@,
            Ok(EnqueueResult::RecipientNotFound) => reply matches ServerMessage::Error {
                code,
                message,
            } && code == 404 && message@ == "not found"@,
            Ok(EnqueueResult::QueueFull) => reply matches ServerMessage::Error { code, message }
                && code == 400 && message@ == "recipient's message queue is full"@,
            Ok(EnqueueResult::MessageIdConflict) => reply matches ServerMessage::Error {
                code,
                message,
            } && code == 400 && message@ == "message ID already used with different content"@,
            Ok(EnqueueResult::AcceptanceLedgerFull) => reply matches ServerMessage::Error {
                code,
                message,
            } && code == 400 && message@ == "too many unconfirmed sent messages"@,
            Ok(_) => false,
            Err(_) => reply matches ServerMessage::Error { code, message } && code == 500 && message@
                == "internal server error"@,
        },
{
}

/// A read receipt is queued if its identifier is new and neither its recipient
/// nor its sender has too many; one that is sent again is recognised, and said
/// to be acknowledged if it is; nobody else's identifier can be used.
pub proof fn law_receipt_queueing(
    recipient: &String,
    sender: &String,
    most: usize,
    facts: &ReceiptFacts,
    out: ReceiptResult,
)
    requires
        call_ensures(enqueue_receipt, (recipient, sender, most, facts), out),
    ensures
        ({
            let same = facts.existing matches Some(known) && known.recipient_id@ == recipient@
                && known.sender_id@ == sender@;
            &&& out == ReceiptResult::Inserted <==> facts.existing is None && facts.recipient_count
                < most && facts.sender_count < most
            &&& out == ReceiptResult::QueueFull <==> facts.existing is None && (
            facts.recipient_count >= most || facts.sender_count >= most)
            &&& out == ReceiptResult::Duplicate <==> same && !facts.existing->0.acknowledged
            &&& out == ReceiptResult::AlreadyAcknowledged <==> same
                && facts.existing->0.acknowledged
            &&& out == ReceiptResult::Collision <==> facts.existing is Some && !same
        }),
{
}

/// A receipt that waits is not answered yet; one that was acknowledged is
/// answered so under its own identifier; and every other gets an error.
pub proof fn law_receipt_answer(
    result: Result<ReceiptResult, StorageError>,
    id: &MessageId,
    out: Option<ServerMessage>,
)
    requires
        call_ensures(answer_receipt, (result, id), out),
    ensures
        out is None <==> (result matches Ok(found) && (found == ReceiptResult::Inserted || found
            == ReceiptResult::Duplicate)),
        out matches Some(ServerMessage::ReadReceiptSent { receipt_id }) ==> receipt_id == *id,
        out matches Some(reply) ==> match result {
            Ok(ReceiptResult::AlreadyAcknowledged) => reply is ReadReceiptSent,
            Ok(ReceiptResult::QueueFull) => reply matches ServerMessage::Error { code, message }
                && code == 400 && message@ == "recipient read receipt queue is full"@,
            Ok(ReceiptResult::Collision) => reply matches ServerMessage::Error { code, message }
                && code == 400 && message@ == "read receipt ID already exists"@,
            Ok(_) => false,
            Err(_) => reply matches ServerMessage::Error { code, message } && code == 500,
        },
{
}

/// Every sender of an acknowledged receipt is told of it, in order, and nobody
/// is told of anything else: what is told of two lists in a row is what is told
/// of each. A receipt whose identifier cannot be read is told to nobody.
pub proof fn law_receipt_senders_are_told(
    first: &Vec<(String, String)>,
    second: &Vec<(String, String)>,
    both: &Vec<(String, String)>,
    told_first: Vec<(String, ServerMessage)>,
    told_second: Vec<(String, ServerMessage)>,
    told: Vec<(String, ServerMessage)>,
)
    requires
        call_ensures(receipt_notices, (first,), told_first),
        call_ensures(receipt_notices, (second,), told_second),
        call_ensures(receipt_notices, (both,), told),
        both@ == first@ + second@,
    ensures
        told@.len() == told_first@.len() + told_second@.len(),
        forall|i: int|
            0 <= i < told_first@.len() ==> (#[trigger] told@[i]).0@ == told_first@[i].0@
                && told@[i].1 == told_first@[i].1,
        forall|i: int|
            0 <= i < told_second@.len() ==> (#[trigger] told@[told_first@.len() + i]).0@
                == told_second@[i].0@ && told@[told_first@.len() + i].1 == told_second@[i].1,
        first@.len() == 1 ==> match uuid_value(first@[0].0@) {
            Some(id) => told_first@.len() == 1 && told_first@[0].0@ == first@[0].1@ && (
            told_first@[0].1 matches ServerMessage::ReadReceiptSent { receipt_id } && receipt_id@
                == id),
            None => told_first@.len() == 0,
        },
        first@.len() == 0 ==> told_first@.len() == 0,
{
    lemma_readable_sum(first@, second@);
    assert forall|i: int| 0 <= i < told_first@.len() implies (#[trigger] told@[i]).0@
        == told_first@[i].0@ && told@[i].1 == told_first@[i].1 by {
        assert(super::receipts::is_notice(told_first@[i], super::receipts::readable_receipts(
            first@,
        )[i]));
        lemma_same_notice(told@[i], told_first@[i], super::receipts::readable_receipts(first@)[i]);
    }
    assert forall|i: int| 0 <= i < told_second@.len() implies (#[trigger] told@[told_first@.len()
        + i]).0@ == told_second@[i].0@ && told@[told_first@.len() + i].1 == told_second@[i].1 by {
        assert(super::receipts::is_notice(told_second@[i], super::receipts::readable_receipts(
            second@,
        )[i]));
        lemma_same_notice(
            told@[told_first@.len() + i],
            told_second@[i],
            super::receipts::readable_receipts(second@)[i],
        );
    }
    if first@.len() == 1 {
        assert(super::receipts::readable_receipts(first@.drop_last()) =~= Seq::empty());
        if uuid_value(first@[0].0@) is Some {
            assert(super::receipts::is_notice(told_first@[0], super::receipts::readable_receipts(
                first@,
            )[0]));
        }
    }
}

proof fn lemma_same_notice(
    a: (String, ServerMessage),
    b: (String, ServerMessage),
    to: (Seq<char>, u128),
)
    requires
        super::receipts::is_notice(a, to),
        super::receipts::is_notice(b, to),
    ensures
        a.0@ == b.0@,
        a.1 == b.1,
{
    crate::protocol::types::lemma_same_identifier(a.1->ReadReceiptSent_receipt_id, b.1->ReadReceiptSent_receipt_id);
}

proof fn lemma_readable_sum(first: Seq<(String, String)>, second: Seq<(String, String)>)
    ensures
        super::receipts::readable_receipts(first + second) == super::receipts::readable_receipts(
            first,
        ) + super::receipts::readable_receipts(second),
    decreases second.len(),
{
    if second.len() == 0 {
        assert(first + second =~= first);
        assert(super::receipts::readable_receipts(second) =~= Seq::empty());
        assert(super::receipts::readable_receipts(first) + super::receipts::readable_receipts(
            second,
        ) =~= super::receipts::readable_receipts(first));
    } else {
        let all = first + second;
        lemma_readable_sum(first, second.drop_last());
        assert(all.drop_last() =~= first + second.drop_last());
        assert(all.last() == second.last());
        assert(super::receipts::readable_receipts(all) =~= super::receipts::readable_receipts(first)
            + super::receipts::readable_receipts(second));
    }
}

/// A pre-key can be used if it is the base64 form of 32 bytes.
pub open spec fn usable(prekey: OneTimePreKey) -> bool {
    stands_for_bytes(prekey.public_key@, 32)
}

/// Every pre-key of a list is handed on with its identifier and its bytes, in
/// order, or none is: a list with one that cannot be used is refused.
pub proof fn law_prekeys_all_or_none(
    prekeys: &Vec<OneTimePreKey>,
    out: Result<Vec<(u32, Vec<u8>)>, ServerMessage>,
)
    requires
        call_ensures(decode_prekeys, (prekeys,), out),
    ensures
        out is Ok <==> forall|i: int| 0 <= i < prekeys@.len() ==> usable(#[trigger] prekeys@[i]),
        out matches Ok(pairs) ==> pairs@.len() == prekeys@.len() && forall|i: int|
            0 <= i < prekeys@.len() ==> (#[trigger] pairs@[i]).0 == prekeys@[i].key_id && Some(
                pairs@[i].1@,
            ) == base64_bytes(prekeys@[i].public_key@),
{
    if forall|i: int| 0 <= i < prekeys@.len() ==> usable(#[trigger] prekeys@[i]) {
        assert forall|i: int| 0 <= i < prekeys@.len() implies super::handlers::valid_prekey(
            #[trigger] prekeys@[i],
        ) by {
            assert(usable(prekeys@[i]));
        }
    }
    if super::handlers::valid_prekeys(prekeys@) {
        assert forall|i: int| 0 <= i < prekeys@.len() implies usable(#[trigger] prekeys@[i]) by {
            assert(super::handlers::valid_prekey(prekeys@[i]));
        }
    }
}

/// An upload of 1 to 200 usable pre-keys is passed on whole, and every other is
/// refused.
pub proof fn law_upload_is_passed_on(
    prekeys: &Vec<OneTimePreKey>,
    out: Result<Vec<(u32, Vec<u8>)>, ServerMessage>,
)
    requires
        call_ensures(check_upload, (prekeys,), out),
    ensures
        out is Ok <==> 0 < prekeys@.len() <= 200 && forall|i: int|
            0 <= i < prekeys@.len() ==> usable(#[trigger] prekeys@[i]),
        out matches Ok(pairs) ==> pairs@.len() == prekeys@.len() && forall|i: int|
            0 <= i < prekeys@.len() ==> (#[trigger] pairs@[i]).0 == prekeys@[i].key_id && Some(
                pairs@[i].1@,
            ) == base64_bytes(prekeys@[i].public_key@),
        out matches Err(reply) ==> (reply matches ServerMessage::Error { code, .. } && code == 400),
{
    if forall|i: int| 0 <= i < prekeys@.len() ==> usable(#[trigger] prekeys@[i]) {
        assert forall|i: int| 0 <= i < prekeys@.len() implies super::handlers::valid_prekey(
            #[trigger] prekeys@[i],
        ) by {
            assert(usable(prekeys@[i]));
        }
    }
    if super::handlers::valid_prekeys(prekeys@) {
        assert forall|i: int| 0 <= i < prekeys@.len() implies usable(#[trigger] prekeys@[i]) by {
            assert(super::handlers::valid_prekey(prekeys@[i]));
        }
    }
}

/// The positions of an upload whose identifiers are not in the inventory.
pub open spec fn new_positions(inventory: Seq<u32>, prekeys: Seq<(u32, Vec<u8>)>) -> Set<int> {
    Set::new(|i: int| 0 <= i < prekeys.len() && !inventory.contains(prekeys[i].0))
}

/// An upload is accepted exactly if the keys that are not there yet fit beside
/// those that are; it is then answered with how many different keys there are,
/// and otherwise with how many there were.
pub proof fn law_upload_fits_or_not(
    inventory: &Vec<u32>,
    prekeys: &Vec<(u32, Vec<u8>)>,
    most: usize,
    out: UploadResult,
)
    requires
        call_ensures(upload_prekeys, (inventory, prekeys, most), out),
        inventory@.no_duplicates(),
        inventory@.len() + prekeys@.len() <= u32::MAX,
    ensures
        ({
            let fits = inventory@.len() + new_positions(inventory@, prekeys@).len() <= most;
            let all = inventory@.to_set().union(
                prekeys@.map_values(|prekey: (u32, Vec<u8>)| prekey.0).to_set(),
            );
            &&& fits ==> out == UploadResult::Accepted(all.len() as u32)
            &&& !fits ==> out == UploadResult::InventoryFull(inventory@.len() as u32)
        }),
{
    let ids = super::prekeys::prekey_ids(prekeys@);
    lemma_new_positions(inventory@, prekeys@);
    lemma_union(inventory@, ids);
    assert(ids =~= prekeys@.map_values(|prekey: (u32, Vec<u8>)| prekey.0));
}

proof fn lemma_new_positions(inventory: Seq<u32>, prekeys: Seq<(u32, Vec<u8>)>)
    ensures
        new_positions(inventory, prekeys).finite(),
        new_positions(inventory, prekeys).len() == super::prekeys::count_new(
            inventory,
            super::prekeys::prekey_ids(prekeys),
        ),
        new_positions(inventory, prekeys).len() <= prekeys.len(),
    decreases prekeys.len(),
{
    reveal(Seq::filter);
    let all = new_positions(inventory, prekeys);
    let ids = super::prekeys::prekey_ids(prekeys);
    if prekeys.len() == 0 {
        assert(all =~= Set::empty());
    } else {
        let rest = prekeys.drop_last();
        let last = prekeys.len() - 1;
        lemma_new_positions(inventory, rest);
        assert(ids.drop_last() =~= super::prekeys::prekey_ids(rest));
        assert(ids.last() == prekeys[last].0);
        if inventory.contains(prekeys[last].0) {
            assert(all =~= new_positions(inventory, rest));
        } else {
            assert(all =~= new_positions(inventory, rest).insert(last));
        }
    }
}

proof fn lemma_union(inventory: Seq<u32>, ids: Seq<u32>)
    requires
        inventory.no_duplicates(),
    ensures
        super::prekeys::with_new(inventory, ids).no_duplicates(),
        super::prekeys::with_new(inventory, ids).len() == inventory.to_set().union(
            ids.to_set(),
        ).len(),
        super::prekeys::with_new(inventory, ids).to_set() == inventory.to_set().union(
            ids.to_set(),
        ),
        super::prekeys::with_new(inventory, ids).len() <= inventory.len() + ids.len(),
    decreases ids.len(),
{
    let all = super::prekeys::with_new(inventory, ids);
    if ids.len() == 0 {
        assert(inventory.to_set().union(ids.to_set()) =~= inventory.to_set());
    } else {
        let rest = ids.drop_last();
        let before = super::prekeys::with_new(inventory, rest);
        lemma_union(inventory, rest);
        assert(ids =~= rest.push(ids.last()));
        assert(ids.to_set() =~= rest.to_set().insert(ids.last()));
        if before.contains(ids.last()) {
            assert(before.to_set().contains(ids.last()));
            assert(all.to_set() =~= inventory.to_set().union(ids.to_set()));
        } else {
            assert(all == before.push(ids.last()));
            assert forall|id: u32| all.to_set().contains(id) <==> before.to_set().insert(
                ids.last(),
            ).contains(id) by {
                if all.contains(id) {
                    let i = choose|i: int| 0 <= i < all.len() && all[i] == id;
                    if i < before.len() {
                        assert(before[i] == id);
                    }
                }
                if before.contains(id) {
                    let i = choose|i: int| 0 <= i < before.len() && before[i] == id;
                    assert(all[i] == id);
                }
                assert(all[before.len() as int] == ids.last());
            }
            assert(all.to_set() =~= before.to_set().insert(ids.last()));
            assert(all.to_set() =~= inventory.to_set().union(ids.to_set()));
        }
    }
    all.unique_seq_to_set();
}

/// A one-time pre-key is handed out, as it is kept, unless the requester or the
/// target has reached its limit, or none is left.
pub proof fn law_prekey_is_handed_out(limits: &FetchLimits, facts: FetchFacts, out: FetchResult)
    requires
        call_ensures(fetch_for_requester, (limits, facts), out),
    ensures
        out is RateLimited <==> facts.requester_count >= limits.per_requester || facts.target_count
            >= limits.per_target,
        out is Empty <==> !(out is RateLimited) && facts.prekey is None,
        out matches FetchResult::Fetched { key_id, public_key } ==> facts.prekey == Some(
            (key_id, public_key),
        ),
{
}

/// The relay allows ten fetches to a user and twenty of a user within an hour,
/// and reserves a key for an hour.
pub proof fn law_fetch_limits(limits: FetchLimits, now: u64, since: u64, until: u64)
    requires
        call_ensures(FetchLimits::standard, (), limits),
        call_ensures(FetchLimits::cutoff, (&limits, now), since),
        call_ensures(reserved_until, (now,), until),
    ensures
        limits.per_requester == 10,
        limits.per_target == 20,
        now >= 3600 ==> since == now - 3600,
        now < 3600 ==> since == 0,
        now + 3600 <= u64::MAX ==> until == now + 3600,
        until >= now,
{
}

/// A user cannot fetch their own bundle, and can ask for any other.
pub proof fn law_own_bundle_is_refused(
    requester: &String,
    target: &UserId,
    out: Option<ServerMessage>,
)
    requires
        call_ensures(check_fetch, (requester, target), out),
    ensures
        out is Some <==> requester@ == target@,
        out matches Some(reply) ==> (reply matches ServerMessage::Error { code, .. } && code == 400),
{
}

/// A fetched bundle is the target's: its identity and signed pre-key as they
/// are kept, with the one-time pre-key that was taken for it and no other.
pub proof fn law_bundle_is_the_targets(
    target: UserId,
    bundle: PreKeyBundle,
    fetched: Result<FetchResult, StorageError>,
    out: ServerMessage,
)
    requires
        call_ensures(answer_fetch, (target, bundle, fetched), out),
    ensures
        out matches ServerMessage::PreKeyBundleResponse { user_id, bundle: sent } ==> {
            &&& user_id == target
            &&& sent.identity_key == bundle.identity_key
            &&& sent.signed_prekey == bundle.signed_prekey
            &&& sent.signed_prekey_id == bundle.signed_prekey_id
            &&& sent.signed_prekey_signature == bundle.signed_prekey_signature
            &&& match fetched {
                Ok(FetchResult::Fetched { key_id, public_key }) => sent.one_time_prekey matches Some(
                    key,
                ) && key.key_id == key_id && base64_bytes(key.public_key@) == Some(public_key@),
                Ok(FetchResult::Empty) => sent.one_time_prekey is None,
                _ => false,
            }
        },
        fetched matches Ok(FetchResult::Empty) ==> out is PreKeyBundleResponse,
        fetched matches Ok(FetchResult::Fetched { public_key, .. }) ==> public_key@.len() <= 32 ==>
            out is PreKeyBundleResponse,
        fetched matches Ok(FetchResult::RateLimited) ==> (out matches ServerMessage::Error {
            code,
            ..
        } && code == 429),
        fetched is Err ==> (out matches ServerMessage::Error { code, .. } && code == 500),
{
}

/// A user is told that keys run low exactly below ten, and how many are left.
pub proof fn law_low_keys_are_told(remaining: u32, out: Option<ServerMessage>)
    requires
        call_ensures(low_notice, (remaining,), out),
    ensures
        remaining < 10 ==> out == Some(ServerMessage::PreKeyLow { remaining }),
        remaining >= 10 ==> out is None,
{
}

/// A signed pre-key and its signature are taken as they were given if they are
/// the base64 forms of 32 and 64 bytes, and refused otherwise.
pub proof fn law_signed_prekey_is_read(
    public_key: &str,
    signature: &str,
    out: Result<([u8; 32], [u8; 64]), ServerMessage>,
)
    requires
        call_ensures(decode_signed_prekey, (public_key, signature), out),
    ensures
        out is Ok <==> stands_for_bytes(public_key@, 32) && stands_for_bytes(signature@, 64),
        out matches Ok(read) ==> base64_bytes(public_key@) == Some(read.0@) && base64_bytes(
            signature@,
        ) == Some(read.1@),
{
}

/// A new signed pre-key is let in only with the signature of the identity key
/// that is stored for the user.
pub proof fn law_signed_prekey_needs_the_identity(
    found: Result<Option<Vec<u8>>, StorageError>,
    public_key: &[u8; 32],
    signature: &[u8; 64],
    out: Result<(), ServerMessage>,
)
    requires
        call_ensures(verify_signed_prekey, (found, public_key, signature), out),
    ensures
        out is Ok <==> (found matches Ok(Some(key)) && key@.len() == 32 && ed25519_decodes(key@)
            && ed25519_verifies(key@, public_key@, signature@)),
{
}

/// A signed pre-key only ever gives way to one with a higher identifier. One
/// that is there is recognised by its bytes, and never changed.
pub proof fn law_signed_prekeys_go_up(
    key_id: u32,
    public_key: &[u8; 32],
    signature: &[u8; 64],
    facts: &RotationFacts,
    out: SignedPreKeyRotationResult,
)
    requires
        call_ensures(rotate_signed_prekey, (key_id, public_key, signature, facts), out),
    ensures
        ({
            let current = facts.current_key_id;
            let same = facts.same_id matches Some(row) && row.public_key@ == public_key@
                && row.signature@ == signature@;
            &&& facts.same_id is None && key_id > current ==> out == (
            SignedPreKeyRotationResult::Accepted { current_key_id: key_id })
            &&& facts.same_id is None && key_id <= current ==> out == (
            SignedPreKeyRotationResult::InvalidSequence { current_key_id: current })
            &&& same && key_id == current ==> out == (SignedPreKeyRotationResult::Accepted {
                current_key_id: current,
            })
            &&& same && key_id != current ==> out == (
            SignedPreKeyRotationResult::PreviouslyAccepted { current_key_id: current })
            &&& facts.same_id is Some && !same ==> out == (SignedPreKeyRotationResult::Conflict {
                current_key_id: current,
            })
        }),
{
}

/// A queued message is delivered exactly if its envelope could be read and is
/// passable, its sender has a name and its identifier can be read; it is then
/// the message that was sent, with its identifier, sender and envelope.
pub proof fn law_queued_message_is_delivered(
    row: &QueuedRow,
    envelope: Option<EncryptedEnvelope>,
    out: Result<InboundMessage, RowFault>,
)
    requires
        call_ensures(queued_row_to_inbound, (row, envelope), out),
    ensures
        out is Ok <==> {
            &&& envelope matches Some(read) && passable(read)
            &&& nameable(row.sender_id@)
            &&& uuid_value(row.message_id@) is Some
        },
        out matches Ok(message) ==> {
            &&& envelope == Some(message.envelope)
            &&& message.sender_id@ == row.sender_id@
            &&& uuid_value(row.message_id@) == Some(message.message_id@)
        },
        out matches Err(fault) ==> match fault {
            RowFault::Encoding => envelope is None,
            RowFault::Envelope(_) => envelope matches Some(read) && !passable(read),
            RowFault::Sender => !nameable(row.sender_id@),
            RowFault::Identifier => uuid_value(row.message_id@) is None,
        },
{
    lemma_nameable(row.sender_id@);
}

/// A queued read receipt is delivered under the same conditions, and as it was
/// sent.
pub proof fn law_queued_receipt_is_delivered(
    receipt: &QueuedReceipt,
    envelope: Option<EncryptedEnvelope>,
    out: Option<ServerMessage>,
)
    requires
        call_ensures(queued_receipt_to_message, (receipt, envelope), out),
    ensures
        out is Some <==> {
            &&& envelope matches Some(read) && passable(read)
            &&& nameable(receipt.sender_id@)
            &&& uuid_value(receipt.receipt_id@) is Some
        },
        out matches Some(message) ==> (message matches ServerMessage::IncomingReadReceipt {
            sender_id,
            receipt_id,
            envelope: sent,
        } && sender_id@ == receipt.sender_id@ && uuid_value(receipt.receipt_id@) == Some(
            receipt_id@,
        ) && envelope == Some(sent)),
{
    lemma_nameable(receipt.sender_id@);
}

/// Of delivered messages every sender is told once, and each of all of its
/// messages and of no other.
pub proof fn law_senders_hear_of_delivery(
    messages: &Vec<InboundMessage>,
    out: Vec<(String, ServerMessage)>,
)
    requires
        call_ensures(delivery_notices, (messages,), out),
    ensures
        forall|i: int|
            0 <= i < out@.len() ==> (#[trigger] out@[i]).1 is MessageDelivered,
        forall|i: int, j: int|
            0 <= i < j < out@.len() ==> (#[trigger] out@[i]).0@ != (#[trigger] out@[j]).0@,
        forall|m: int|
            0 <= m < messages@.len() ==> exists|i: int|
                0 <= i < out@.len() && (#[trigger] out@[i]).0@ == (
                #[trigger] messages@[m]).sender_id@ && (out@[i].1->MessageDelivered_message_ids)@.contains(
                    messages@[m].message_id,
                ),
        forall|i: int, id: MessageId| #![trigger (out@[i].1->MessageDelivered_message_ids)@.contains(id)]
            0 <= i < out@.len() && (out@[i].1->MessageDelivered_message_ids)@.contains(id) ==> exists|m: int|
                0 <= m < messages@.len() && (#[trigger] messages@[m]).sender_id@ == out@[i].0@
                    && messages@[m].message_id == id,
{
    let groups = choose|groups: Seq<(String, Vec<MessageId>)>| #[trigger]
        super::delivery::grouped(groups, messages@) && out@.len() == groups.len() && forall|i: int|
            0 <= i < out@.len() ==> super::delivery::tells_delivered(#[trigger] out@[i], groups[i]);
    assert forall|i: int| 0 <= i < out@.len() implies (#[trigger] out@[i]).1 is MessageDelivered by {
        assert(super::delivery::tells_delivered(out@[i], groups[i]));
    }
    assert forall|i: int, j: int| 0 <= i < j < out@.len() implies (#[trigger] out@[i]).0@ != (
    #[trigger] out@[j]).0@ by {
        assert(super::delivery::tells_delivered(out@[i], groups[i]));
        assert(super::delivery::tells_delivered(out@[j], groups[j]));
    }
    assert forall|m: int| 0 <= m < messages@.len() implies exists|i: int|
        0 <= i < out@.len() && (#[trigger] out@[i]).0@ == (#[trigger] messages@[m]).sender_id@ && (
        out@[i].1->MessageDelivered_message_ids)@.contains(messages@[m].message_id) by {
        let sender = messages@[m].sender_id@;
        assert(super::delivery::is_sender(messages@, sender));
        assert(super::delivery::has_group(groups, sender));
        let i = choose|i: int| 0 <= i < groups.len() && (#[trigger] groups[i]).0@ == sender;
        assert(super::delivery::tells_delivered(out@[i], groups[i]));
        lemma_ids_from(messages@, sender, messages@[m].message_id);
        assert(super::delivery::ids_from(messages@, sender).contains(messages@[m].message_id));
    }
    assert forall|i: int, id: MessageId| #![trigger (out@[i].1->MessageDelivered_message_ids)@.contains(id)]
        0 <= i < out@.len() && (out@[i].1->MessageDelivered_message_ids)@.contains(id) implies exists|m: int|
        0 <= m < messages@.len() && (#[trigger] messages@[m]).sender_id@ == out@[i].0@
            && messages@[m].message_id == id by {
        assert(super::delivery::tells_delivered(out@[i], groups[i]));
        lemma_ids_from(messages@, out@[i].0@, id);
    }
}

proof fn lemma_ids_from(messages: Seq<InboundMessage>, sender: Seq<char>, id: MessageId)
    ensures
        super::delivery::ids_from(messages, sender).contains(id) <==> exists|m: int|
            0 <= m < messages.len() && (#[trigger] messages[m]).sender_id@ == sender
                && messages[m].message_id == id,
    decreases messages.len(),
{
    if messages.len() > 0 {
        let rest = messages.drop_last();
        let before = super::delivery::ids_from(rest, sender);
        let all = super::delivery::ids_from(messages, sender);
        lemma_ids_from(rest, sender, id);
        if before.contains(id) {
            let m = choose|m: int|
                0 <= m < rest.len() && (#[trigger] rest[m]).sender_id@ == sender
                    && rest[m].message_id == id;
            assert(messages[m].sender_id@ == sender && messages[m].message_id == id);
            let i = choose|i: int| 0 <= i < before.len() && before[i] == id;
            assert(all[i] == id);
        }
        if messages.last().sender_id@ == sender {
            assert(all[before.len() as int] == messages.last().message_id);
            assert(messages[messages.len() - 1] == messages.last());
        }
        if all.contains(id) {
            let i = choose|i: int| 0 <= i < all.len() && all[i] == id;
            if i < before.len() {
                assert(before[i] == id);
            }
        }
        if exists|m: int|
            0 <= m < messages.len() && (#[trigger] messages[m]).sender_id@ == sender
                && messages[m].message_id == id {
            let m = choose|m: int|
                0 <= m < messages.len() && (#[trigger] messages[m]).sender_id@ == sender
                    && messages[m].message_id == id;
            if m < rest.len() {
                assert(rest[m].sender_id@ == sender && rest[m].message_id == id);
            }
        }
    }
}

/// The sizes of messages, each with a byte for what separates it from the next.
pub open spec fn room_taken(sizes: Seq<nat>) -> nat
    decreases sizes.len(),
{
    if sizes.len() == 0 {
        0
    } else {
        room_taken(sizes.drop_first()) + sizes[0] + 1
    }
}

proof fn lemma_room_taken(sizes: Seq<nat>)
    ensures
        room_taken(sizes) == super::delivery::sum(sizes) + sizes.len(),
    decreases sizes.len(),
{
    if sizes.len() > 0 {
        lemma_room_taken(sizes.drop_first());
        lemma_sum_first(sizes);
    }
}

proof fn lemma_sum_first(sizes: Seq<nat>)
    requires
        sizes.len() > 0,
    ensures
        super::delivery::sum(sizes) == sizes[0] + super::delivery::sum(sizes.drop_first()),
    decreases sizes.len(),
{
    if sizes.len() > 1 {
        lemma_sum_first(sizes.drop_last());
        assert(sizes.drop_last().drop_first() =~= sizes.drop_first().drop_last());
    } else {
        assert(sizes.drop_last() =~= Seq::<nat>::empty());
        assert(sizes.drop_first() =~= Seq::<nat>::empty());
        assert(super::delivery::sum(sizes.drop_last()) == 0);
        assert(super::delivery::sum(sizes.drop_first()) == 0);
    }
}

/// A message goes on the page whenever the page has fewer than 64 messages and
/// its encoded size, with a comma between every two, stays within 540 672
/// bytes. Otherwise the page is sent as it is and the message begins the next.
/// Only a message that does not fit on an empty page is left out, and it
/// changes nothing.
pub proof fn law_paging(pager: &mut Pager, message: InboundMessage, size: usize, out: PageStep)
    requires
        call_ensures(Pager::offer, (pager, message, size), out),
    ensures
        ({
            let page = old(pager).spec_page();
            let sizes = old(pager).spec_sizes();
            let too_large = old(pager).spec_empty() + size > 540_672;
            let fits = sizes.len() < 64 && old(pager).spec_empty() + room_taken(sizes) + size
                <= 540_672;
            &&& out is TooLarge <==> too_large
            &&& too_large ==> final(pager).spec_page() == page && final(pager).spec_sizes() == sizes
            &&& out is Added <==> !too_large && fits
            &&& out is Added ==> final(pager).spec_page() == page.push(message)
            &&& out is Added ==> final(pager).spec_sizes() == sizes.push(size as nat)
            &&& out matches PageStep::Full(sent) ==> sent@ == page && final(pager).spec_page()
                == seq![message] && final(pager).spec_sizes() == seq![size as nat]
            &&& final(pager).spec_empty() == old(pager).spec_empty()
        }),
{
    let sizes = old(pager).spec_sizes();
    lemma_room_taken(sizes);
    let more = sizes.push(size as nat);
    assert(more.drop_last() =~= sizes);
}

/// A user registers exactly if nobody is logged in on the connection, there are
/// at most 200 one-time pre-keys and all of them can be used, and the identity
/// key has signed the signed pre-key. What is registered are those keys.
pub proof fn law_registration(
    session: &Session,
    user: UserId,
    bundle: &PreKeyBundle,
    prekeys: &Vec<OneTimePreKey>,
    out: Result<Registration, ServerMessage>,
)
    requires
        call_ensures(check_registration, (session, user, bundle, prekeys), out),
    ensures
        out is Ok <==> {
            &&& session.authed_user is None
            &&& prekeys@.len() <= 200
            &&& forall|i: int| 0 <= i < prekeys@.len() ==> usable(#[trigger] prekeys@[i])
            &&& stands_for_bytes(bundle.identity_key@, 32)
            &&& stands_for_bytes(bundle.signed_prekey@, 32)
            &&& stands_for_bytes(bundle.signed_prekey_signature@, 64)
            &&& ed25519_decodes(base64_bytes(bundle.identity_key@)->0)
            &&& ed25519_verifies(
                base64_bytes(bundle.identity_key@)->0,
                base64_bytes(bundle.signed_prekey@)->0,
                base64_bytes(bundle.signed_prekey_signature@)->0,
            )
        },
        out matches Ok(made) ==> {
            &&& made.user_id == user
            &&& made.signed_prekey_id == bundle.signed_prekey_id
            &&& base64_bytes(bundle.identity_key@) == Some(made.identity_key@)
            &&& base64_bytes(bundle.signed_prekey@) == Some(made.signed_prekey_public@)
            &&& base64_bytes(bundle.signed_prekey_signature@) == Some(made.signed_prekey_signature@)
            &&& made.one_time_prekeys@.len() == prekeys@.len()
            &&& forall|i: int|
                0 <= i < prekeys@.len() ==> (#[trigger] made.one_time_prekeys@[i]).0
                    == prekeys@[i].key_id && base64_bytes(prekeys@[i].public_key@) == Some(
                    made.one_time_prekeys@[i].1@,
                )
        },
        out matches Err(reply) ==> reply is AuthFailure || (reply matches ServerMessage::Error {
            code,
            ..
        } && code == 400),
{
    if forall|i: int| 0 <= i < prekeys@.len() ==> usable(#[trigger] prekeys@[i]) {
        assert forall|i: int| 0 <= i < prekeys@.len() implies super::handlers::valid_prekey(
            #[trigger] prekeys@[i],
        ) by {
            assert(usable(prekeys@[i]));
        }
    }
    if super::handlers::valid_prekeys(prekeys@) {
        assert forall|i: int| 0 <= i < prekeys@.len() implies usable(#[trigger] prekeys@[i]) by {
            assert(super::handlers::valid_prekey(prekeys@[i]));
        }
    }
}

/// What a login signs is the nonce, then the eight bytes of the time, then the
/// name of the server, and nothing else.
pub proof fn law_login_bytes(nonce: &[u8], timestamp: u64, server: &str, out: Vec<u8>)
    requires
        call_ensures(login_bytes, (nonce, timestamp, server), out),
    ensures
        out@.len() == nonce@.len() + 8 + encode_utf8(server@).len(),
        out@.take(nonce@.len() as int) == nonce@,
        out@.skip(nonce@.len() as int + 8) == encode_utf8(server@),
        ({
            let t = out@.subrange(nonce@.len() as int, nonce@.len() as int + 8);
            t[0] * 0x100_0000_0000_0000 + t[1] * 0x1_0000_0000_0000 + t[2] * 0x100_0000_0000 + t[3]
                * 0x1_0000_0000 + t[4] * 0x100_0000 + t[5] * 0x1_0000 + t[6] * 0x100 + t[7]
                == timestamp
        }),
{
    crate::bytes::law_be64_adds_up(timestamp);
    assert(out@.take(nonce@.len() as int) =~= nonce@);
    assert(out@.skip(nonce@.len() as int + 8) =~= encode_utf8(server@));
    assert(out@.subrange(nonce@.len() as int, nonce@.len() as int + 8) =~= crate::bytes::be64(timestamp));
}

/// A registered user who is not logged in is challenged with the nonce, the
/// time and the name of the server, and the relay remembers exactly that for
/// that user. Everybody else is refused, and nothing is remembered.
pub proof fn law_challenge(
    session: &mut Session,
    user: &UserId,
    known: Result<bool, StorageError>,
    now: u64,
    server: &str,
    nonce: [u8; 32],
    out: ServerMessage,
)
    requires
        call_ensures(begin_challenge_with, (session, user, known, now, server, nonce), out),
    ensures
        old(session).authed_user is None && known == Ok::<bool, StorageError>(true) ==> {
            &&& out matches ServerMessage::Challenge { nonce: sent, timestamp, server_id }
                && base64_bytes(sent@) == Some(nonce@) && timestamp == now && server_id@ == server@
            &&& final(session).pending_challenge matches Some(challenge) && challenge.user_id@
                == user@ && challenge.nonce@ == nonce@ && challenge.timestamp == now
            &&& final(session).authed_user is None
        },
        !(old(session).authed_user is None && known == Ok::<bool, StorageError>(true)) ==> *final(session) == *old(session) && (out is AuthFailure || out is Error),
{
}

/// A challenge serves once, and only within a minute: it is gone after the first
/// attempt, and what is taken is what was remembered.
pub proof fn law_challenge_serves_once(
    session: &mut Session,
    now: u64,
    out: Result<PendingChallenge, ServerMessage>,
)
    requires
        call_ensures(take_challenge, (session, now), out),
    ensures
        out is Ok <==> old(session).authed_user is None && (old(session).pending_challenge matches
            Some(challenge) && now <= challenge.timestamp + 60),
        out matches Ok(taken) ==> old(session).pending_challenge == Some(taken),
        old(session).authed_user is None ==> final(session).pending_challenge is None,
        final(session).authed_user == old(session).authed_user,
        final(session).conn_id == old(session).conn_id,
{
}

/// An answer to a challenge is accepted exactly if it is the signature, with the
/// key that is stored for the user, of the nonce and the time of this challenge
/// and the name of this server.
pub proof fn law_login_answer(
    challenge: &PendingChallenge,
    found: Result<Option<Vec<u8>>, StorageError>,
    signature: &str,
    server: &str,
    signed: Vec<u8>,
    out: Result<(), ServerMessage>,
)
    requires
        call_ensures(check_response, (challenge, found, signature, server), out),
        call_ensures(login_bytes, (&challenge.nonce, challenge.timestamp, server), signed),
    ensures
        out is Ok <==> {
            &&& found matches Ok(Some(key)) && key@.len() == 32 && ed25519_decodes(key@)
            &&& base64_bytes(signature@) matches Some(bytes) && bytes.len() == 64
            &&& ed25519_verifies(found->Ok_0->0@, signed@, base64_bytes(signature@)->0)
        },
{
}

/// The client answers a challenge with the signature of its identity key over
/// the nonce, the time and the name of the server.
pub proof fn law_client_answers(
    identity: &IdentityKeyPair,
    nonce: &str,
    bytes: &[u8],
    timestamp: u64,
    server: &str,
    signed: Vec<u8>,
    out: Option<String>,
)
    requires
        call_ensures(answer_challenge, (identity, nonce, timestamp, server), out),
        call_ensures(login_bytes, (bytes, timestamp, server), signed),
    ensures
        base64_bytes(nonce@) is None ==> out is None,
        base64_bytes(nonce@) == Some(bytes@) ==> (out matches Some(text) && base64_bytes(text@)
            == Some(ed25519_sign(identity@, signed@)) && ed25519_verifies(
            ed25519_public(identity@),
            signed@,
            ed25519_sign(identity@, signed@),
        )),
{
}

/// Before a user is known only registering and logging in is possible. A known
/// user is served under that name, as long as the connection is the one through
/// which the user is online; from a replaced one nothing is served.
pub proof fn law_routing(
    session: &Session,
    registry: &ConnectionRegistry,
    request: ClientMessage,
    out: Route,
)
    requires
        call_ensures(handle_message, (session, registry, request), out),
    ensures
        ({
            let entering = request is Register || request is AuthChallenge || request
                is AuthResponse;
            let current = session.authed_user matches Some(user) && (session.conn_id matches Some(
                conn,
            ) && registry@.contains_key(user@) && registry@[user@] == conn);
            &&& session.authed_user is None && entering ==> out == Route::Auth(request)
            &&& session.authed_user is None && !entering ==> (out matches Route::Answer(reply)
                && reply is AuthFailure)
            &&& session.authed_user is Some && !current ==> out is Stop
            &&& session.authed_user is Some && current && entering ==> out == Route::Auth(request)
            &&& session.authed_user is Some && current && !entering ==> (out matches Route::User {
                user_id,
                request: served,
            } && user_id@ == session.authed_user->0@ && served == request)
        }),
{
}

/// Whoever connects is online through the new connection, which has a number of
/// its own; the one before is named; and nobody else is touched.
pub proof fn law_connecting(
    registry: &mut ConnectionRegistry,
    user: String,
    other: Seq<char>,
    out: (u64, Option<u64>),
)
    requires
        call_ensures(ConnectionRegistry::insert, (registry, user), out),
    ensures
        final(registry)@.contains_key(user@),
        final(registry)@[user@] == out.0,
        out.1 is Some <==> old(registry)@.contains_key(user@),
        out.1 matches Some(before) ==> old(registry)@[user@] == before,
        other != user@ ==> (final(registry)@.contains_key(other) <==> old(registry)@.contains_key(other)) && (old(registry)@.contains_key(other) ==> final(registry)@[other] == old(registry)@[other]),
        old(registry).spec_next() < u64::MAX ==> final(registry).spec_next() > out.0,
{
}

/// Whoever closes a connection is offline, unless online through another one by
/// then; and nobody else is touched.
pub proof fn law_disconnecting(
    registry: &mut ConnectionRegistry,
    user: &str,
    conn: u64,
    other: Seq<char>,
)
    requires
        call_ensures(ConnectionRegistry::remove_if_match, (registry, user, conn), ()),
    ensures
        old(registry)@.contains_key(user@) && old(registry)@[user@] == conn ==> !final(registry)@.contains_key(user@),
        old(registry)@.contains_key(user@) && old(registry)@[user@] != conn ==> final(registry)@.contains_key(user@) && final(registry)@[user@] == old(registry)@[user@],
        other != user@ ==> (final(registry)@.contains_key(other) <==> old(registry)@.contains_key(other)) && (old(registry)@.contains_key(other) ==> final(registry)@[other] == old(registry)@[other]),
{
}

/// An acknowledgement of more than a thousand messages is refused, and no other.
pub proof fn law_ack_limit(ids: &Vec<MessageId>, out: Option<ServerMessage>)
    requires
        call_ensures(check_ack, (ids,), out),
    ensures
        out is Some <==> ids@.len() > 1000,
{
}

/// Whoever types is named to the other side.
pub proof fn law_typing(from: &str, out: Option<ServerMessage>)
    requires
        call_ensures(typing_notice, (from,), out),
    ensures
        out is Some <==> nameable(from@),
        out matches Some(notice) ==> (notice matches ServerMessage::PeerTyping { sender_id }
            && sender_id@ == from@),
{
    lemma_nameable(from@);
}

/// Identifiers that can be read are read, in order, and the others left out:
/// those of two lists in a row are those of each.
pub proof fn law_readable_identifiers(
    first: &Vec<String>,
    second: &Vec<String>,
    both: &Vec<String>,
    ids_first: Vec<MessageId>,
    ids_second: Vec<MessageId>,
    ids: Vec<MessageId>,
)
    requires
        call_ensures(readable_ids, (first,), ids_first),
        call_ensures(readable_ids, (second,), ids_second),
        call_ensures(readable_ids, (both,), ids),
        both@ == first@ + second@,
    ensures
        ids@ == ids_first@ + ids_second@,
        first@.len() == 0 ==> ids_first@.len() == 0,
        first@.len() == 1 ==> match uuid_value(first@[0]@) {
            Some(value) => ids_first@.len() == 1 && ids_first@[0]@ == value,
            None => ids_first@.len() == 0,
        },
{
    lemma_identifiers_sum(first@, second@);
    assert forall|i: int| 0 <= i < ids@.len() implies #[trigger] ids@[i] == (ids_first@
        + ids_second@)[i] by {
        crate::protocol::types::lemma_same_identifier(ids@[i], (ids_first@ + ids_second@)[i]);
    }
    assert(ids@ =~= ids_first@ + ids_second@);
    if first@.len() == 1 {
        assert(super::delivery::identifiers(first@.drop_last()) =~= Seq::empty());
    }
}

proof fn lemma_identifiers_sum(first: Seq<String>, second: Seq<String>)
    ensures
        super::delivery::identifiers(first + second) == super::delivery::identifiers(first)
            + super::delivery::identifiers(second),
    decreases second.len(),
{
    if second.len() == 0 {
        assert(first + second =~= first);
        assert(super::delivery::identifiers(second) =~= Seq::empty());
        assert(super::delivery::identifiers(first) + super::delivery::identifiers(second)
            =~= super::delivery::identifiers(first));
    } else {
        let all = first + second;
        lemma_identifiers_sum(first, second.drop_last());
        assert(all.drop_last() =~= first + second.drop_last());
        assert(all.last() == second.last());
        assert(super::delivery::identifiers(all) =~= super::delivery::identifiers(first)
            + super::delivery::identifiers(second));
    }
}

/// Which messages are of a sender.
pub open spec fn wrote(sender: Seq<char>) -> spec_fn(InboundMessage) -> bool {
    |message: InboundMessage| message.sender_id@ == sender
}

/// A notice of delivery names the messages in the order in which they were
/// delivered, and each as often as it was: a message stands behind the earlier
/// ones of its sender.
pub proof fn law_notice_keeps_the_order(
    messages: &Vec<InboundMessage>,
    out: Vec<(String, ServerMessage)>,
    i: int,
    m: int,
)
    requires
        call_ensures(delivery_notices, (messages,), out),
        0 <= i < out@.len(),
        0 <= m < messages@.len(),
        messages@[m].sender_id@ == out@[i].0@,
    ensures
        ({
            let own = wrote(out@[i].0@);
            let told = (out@[i].1->MessageDelivered_message_ids)@;
            let at = messages@.take(m).filter(own).len();
            &&& told.len() == messages@.filter(own).len()
            &&& at < told.len()
            &&& told[at as int] == messages@[m].message_id
        }),
{
    let groups = choose|groups: Seq<(String, Vec<MessageId>)>| #[trigger]
        super::delivery::grouped(groups, messages@) && out@.len() == groups.len() && forall|i: int|
            0 <= i < out@.len() ==> super::delivery::tells_delivered(#[trigger] out@[i], groups[i]);
    assert(super::delivery::tells_delivered(out@[i], groups[i]));
    lemma_ids_in_order(messages@, out@[i].0@, m);
}

proof fn lemma_ids_in_order(messages: Seq<InboundMessage>, sender: Seq<char>, m: int)
    ensures
        ({
            let own = wrote(sender);
            let ids = super::delivery::ids_from(messages, sender);
            let at = messages.take(m).filter(own).len();
            &&& ids.len() == messages.filter(own).len()
            &&& 0 <= m < messages.len() && messages[m].sender_id@ == sender ==> at < ids.len()
                && ids[at as int] == messages[m].message_id
        }),
    decreases messages.len(),
{
    reveal(Seq::filter);
    if messages.len() > 0 {
        let rest = messages.drop_last();
        lemma_ids_in_order(rest, sender, m);
        if m == messages.len() - 1 {
            assert(messages.take(m) =~= rest);
        } else if 0 <= m < rest.len() {
            assert(messages.take(m) =~= rest.take(m));
        }
    }
}

} // verus!
