//! The queue of messages: which message is taken in, and what that changes.
//!
//! The database answers [`QueueFacts`] and carries out what [`enqueue`]
//! decides, in one transaction.

use crate::bytes::same_bytes;
use crate::crypto::primitives::sha256_digest;
use crate::protocol::consts::MAX_PENDING_OUTBOUND_ITEMS;
use vstd::prelude::*;
use vstd::string::*;

verus! {

use crate::crypto::primitives::sha256;
use vstd::utf8::encode_utf8;

/// How many messages may wait for the confirmation of their senders.
pub const MAX_GLOBAL_ACCEPTANCES: u64 = 1_000_000;

/// How long a message stays in the queue, in days.
pub const MAX_AGE_DAYS: u32 = 30;

/// A message that is to be taken in.
pub struct EnqueueRequest {
    pub message_id: String,
    pub recipient_id: String,
    pub sender_id: String,
    pub envelope_json: String,
    pub max_queue_per_user: usize,
    pub signed_prekey_id: Option<u32>,
    pub one_time_prekey_id: Option<u32>,
    pub now: u64,
}

/// What became of a message.
#[derive(Debug, Clone, Copy, PartialEq, Eq, Structural)]
#[non_exhaustive]
pub enum EnqueueResult {
    Inserted,
    Duplicate,
    QueueFull,
    RecipientNotFound,
    PrekeyReservationInvalid,
    SignedPrekeyExpired,
    MessageIdConflict,
    AcceptanceLedgerFull,
}

/// A message that was taken in, as far as the relay remembers it until the
/// sender has heard of it.
pub struct Acceptance {
    pub recipient_id: String,
    pub sender_id: String,
    pub envelope_digest: Vec<u8>,
}

/// What the database holds that matters for a message.
pub struct QueueFacts {
    /// The message that was taken in under the same identifier.
    pub existing: Option<Acceptance>,
    /// Whether the recipient is registered.
    pub recipient_exists: bool,
    /// How many messages wait for the recipient.
    pub queue_depth: u64,
    /// How many messages of the sender wait for confirmation.
    pub sender_acceptances: u64,
    /// How many messages of all senders wait for confirmation.
    pub global_acceptances: u64,
    /// Whether the recipient's signed pre-key that the message names is kept.
    pub signed_prekey_kept: bool,
    /// Until when the one-time pre-key that the message names is reserved for
    /// the sender.
    pub reserved_until: Option<u64>,
    /// Whether a message with the same identifier is in the queue.
    pub queued: bool,
}

/// A message in the queue.
pub struct QueuedRow {
    pub row_id: i64,
    pub message_id: String,
    pub sender_id: String,
    pub envelope_json: String,
    pub created_at: String,
}

/// The digest by which an envelope is recognised.
pub open spec fn digest_of(envelope_json: Seq<char>) -> Seq<u8> {
    sha256(encode_utf8(envelope_json))
}

/// The digest by which an envelope is recognised.
pub fn envelope_digest(envelope_json: &str) -> (out: [u8; 32])
    ensures
        out@ == digest_of(envelope_json@),
{
    sha256_digest(envelope_json.as_bytes())
}

/// What becomes of a message, by what the database holds.
pub open spec fn verdict(request: EnqueueRequest, facts: QueueFacts) -> EnqueueResult {
    if facts.existing is Some {
        let existing = facts.existing->0;
        if existing.recipient_id@ == request.recipient_id@ && existing.sender_id@
            == request.sender_id@ && existing.envelope_digest@ == digest_of(
            request.envelope_json@,
        ) {
            EnqueueResult::Duplicate
        } else {
            EnqueueResult::MessageIdConflict
        }
    } else if !facts.recipient_exists {
        EnqueueResult::RecipientNotFound
    } else if facts.queue_depth >= request.max_queue_per_user {
        EnqueueResult::QueueFull
    } else if facts.sender_acceptances >= MAX_PENDING_OUTBOUND_ITEMS || facts.global_acceptances
        >= MAX_GLOBAL_ACCEPTANCES {
        EnqueueResult::AcceptanceLedgerFull
    } else if request.signed_prekey_id is Some && !facts.signed_prekey_kept {
        EnqueueResult::SignedPrekeyExpired
    } else if request.one_time_prekey_id is Some && !(facts.reserved_until matches Some(until)
        && until >= request.now) {
        EnqueueResult::PrekeyReservationInvalid
    } else if facts.queued {
        EnqueueResult::Duplicate
    } else {
        EnqueueResult::Inserted
    }
}

/// The message is taken in: it is remembered and, unless it is there already,
/// put in the queue; reservations that are over, and the one that the message
/// used, are dropped.
pub open spec fn takes_in(request: EnqueueRequest, facts: QueueFacts) -> bool {
    facts.existing is None && (verdict(request, facts) is Inserted || verdict(request, facts)
        is Duplicate)
}

/// What is to be done with a message.
pub struct EnqueueDecision {
    pub result: EnqueueResult,
    /// The digest of the envelope, where the message is taken in. Otherwise
    /// nothing is to be written.
    pub commit: Option<[u8; 32]>,
}

/// Decides what becomes of a message.
pub fn enqueue(request: &EnqueueRequest, facts: &QueueFacts) -> (out: EnqueueDecision)
    ensures
        out.result == verdict(*request, *facts),
        match out.commit {
            Some(digest) => takes_in(*request, *facts) && digest@ == digest_of(
                request.envelope_json@,
            ),
            None => !takes_in(*request, *facts),
        },
{
    let digest = envelope_digest(request.envelope_json.as_str());
    match &facts.existing {
        Some(existing) => {
            let same = existing.recipient_id == request.recipient_id && existing.sender_id
                == request.sender_id && same_bytes(&existing.envelope_digest, &digest);
            let result = if same {
                EnqueueResult::Duplicate
            } else {
                EnqueueResult::MessageIdConflict
            };
            return EnqueueDecision { result, commit: None };
        },
        None => {},
    }
    if !facts.recipient_exists {
        return EnqueueDecision { result: EnqueueResult::RecipientNotFound, commit: None };
    }
    if facts.queue_depth >= request.max_queue_per_user as u64 {
        return EnqueueDecision { result: EnqueueResult::QueueFull, commit: None };
    }
    if facts.sender_acceptances >= MAX_PENDING_OUTBOUND_ITEMS as u64 || facts.global_acceptances
        >= MAX_GLOBAL_ACCEPTANCES {
        return EnqueueDecision { result: EnqueueResult::AcceptanceLedgerFull, commit: None };
    }
    if request.signed_prekey_id.is_some() && !facts.signed_prekey_kept {
        return EnqueueDecision { result: EnqueueResult::SignedPrekeyExpired, commit: None };
    }
    if request.one_time_prekey_id.is_some() {
        let reserved = match facts.reserved_until {
            Some(until) => until >= request.now,
            None => false,
        };
        if !reserved {
            return EnqueueDecision {
                result: EnqueueResult::PrekeyReservationInvalid,
                commit: None,
            };
        }
    }
    let result = if facts.queued {
        EnqueueResult::Duplicate
    } else {
        EnqueueResult::Inserted
    };
    EnqueueDecision { result, commit: Some(digest) }
}

/// How many messages waiting for confirmation are left after so many were
/// confirmed.
pub fn remaining_acceptances(count: u64, confirmed: u64) -> (out: u64)
    ensures
        out == (if confirmed >= count { 0 } else { count - confirmed }),
{
    count.saturating_sub(confirmed)
}

/// A new message gets to its recipient: where the recipient is registered, the
/// queue and both ledgers have room, the signed pre-key that it names is kept
/// and the one-time pre-key that it names is reserved for its sender until now
/// or later, it is taken in, whatever else it says. It is put in the queue
/// unless it is there.
pub proof fn law_new_message_is_taken_in(request: EnqueueRequest, facts: QueueFacts)
    requires
        facts.existing is None,
        facts.recipient_exists,
        facts.queue_depth < request.max_queue_per_user,
        facts.sender_acceptances < MAX_PENDING_OUTBOUND_ITEMS,
        facts.global_acceptances < 1_000_000,
        request.signed_prekey_id is None || facts.signed_prekey_kept,
        request.one_time_prekey_id is None || (facts.reserved_until matches Some(until)
            && request.now <= until),
    ensures
        takes_in(request, facts),
        !facts.queued ==> verdict(request, facts) == EnqueueResult::Inserted,
        facts.queued ==> verdict(request, facts) == EnqueueResult::Duplicate,
{
}

/// What is wrong with a new message is said, the first of it that applies: each
/// refusal comes exactly where its reason holds and none before it.
pub proof fn law_refusals_have_their_reason(request: EnqueueRequest, facts: QueueFacts)
    requires
        facts.existing is None,
    ensures
        ({
            let result = verdict(request, facts);
            let full = facts.queue_depth >= request.max_queue_per_user;
            let ledger = facts.sender_acceptances >= MAX_PENDING_OUTBOUND_ITEMS
                || facts.global_acceptances >= 1_000_000;
            let rotated = request.signed_prekey_id is Some && !facts.signed_prekey_kept;
            let late = request.one_time_prekey_id is Some && (facts.reserved_until is None
                || facts.reserved_until->0 < request.now);
            &&& result == EnqueueResult::RecipientNotFound <==> !facts.recipient_exists
            &&& result == EnqueueResult::QueueFull <==> facts.recipient_exists && full
            &&& result == EnqueueResult::AcceptanceLedgerFull <==> facts.recipient_exists && !full
                && ledger
            &&& result == EnqueueResult::SignedPrekeyExpired <==> facts.recipient_exists && !full
                && !ledger && rotated
            &&& result == EnqueueResult::PrekeyReservationInvalid <==> facts.recipient_exists
                && !full && !ledger && !rotated && late
            &&& result != EnqueueResult::MessageIdConflict
            &&& takes_in(request, facts) <==> facts.recipient_exists && !full && !ledger && !rotated
                && !late
        }),
{
}

/// A message under an identifier that was taken is never taken in again: it is
/// the same one if sender, recipient and the SHA-256 digest of the envelope are
/// the same, and a conflict otherwise, whatever else the database holds.
pub proof fn law_known_identifier_decides(request: EnqueueRequest, facts: QueueFacts)
    requires
        facts.existing is Some,
    ensures
        ({
            let known = facts.existing->0;
            let same = known.sender_id@ == request.sender_id@ && known.recipient_id@
                == request.recipient_id@ && known.envelope_digest@ == sha256(
                encode_utf8(request.envelope_json@),
            );
            &&& same ==> verdict(request, facts) == EnqueueResult::Duplicate
            &&& !same ==> verdict(request, facts) == EnqueueResult::MessageIdConflict
            &&& !takes_in(request, facts)
        }),
{
}

} // verus!
