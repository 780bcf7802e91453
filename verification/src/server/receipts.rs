//! The queue of read receipts. A receipt stays until its sender has heard that
//! its recipient acknowledged it.

use super::handlers::{error_400, error_500_generic, StorageError};
use crate::protocol::consts::MAX_RECEIPT_BATCH;
use crate::protocol::{EncryptedEnvelope, MessageId, ServerMessage, UserId};
use vstd::prelude::*;
use vstd::string::*;

verus! {

use super::handlers::{is_error, is_internal_error};
use crate::protocol::types::uuid_value;

/// What became of a receipt.
#[derive(Debug, Clone, Copy, PartialEq, Eq, Structural)]
#[non_exhaustive]
pub enum EnqueueResult {
    Inserted,
    Duplicate,
    AlreadyAcknowledged,
    Collision,
    QueueFull,
}

/// A receipt in the queue.
pub struct QueuedReceipt {
    pub receipt_id: String,
    pub sender_id: String,
    pub envelope: String,
}

/// A receipt that is in the queue under some identifier.
pub struct KnownReceipt {
    pub recipient_id: String,
    pub sender_id: String,
    pub acknowledged: bool,
}

/// What the database holds that matters for a receipt.
pub struct ReceiptFacts {
    /// The receipt that is there under the same identifier.
    pub existing: Option<KnownReceipt>,
    /// How many receipts wait for the recipient.
    pub recipient_count: u64,
    /// How many receipts of the sender there are.
    pub sender_count: u64,
}

/// What becomes of a receipt, by what the database holds.
pub open spec fn receipt_verdict(
    recipient: Seq<char>,
    sender: Seq<char>,
    max_queue_per_user: usize,
    facts: ReceiptFacts,
) -> EnqueueResult {
    if facts.existing is Some {
        let existing = facts.existing->0;
        if existing.recipient_id@ != recipient || existing.sender_id@ != sender {
            EnqueueResult::Collision
        } else if existing.acknowledged {
            EnqueueResult::AlreadyAcknowledged
        } else {
            EnqueueResult::Duplicate
        }
    } else if facts.recipient_count >= max_queue_per_user || facts.sender_count
        >= max_queue_per_user {
        EnqueueResult::QueueFull
    } else {
        EnqueueResult::Inserted
    }
}

/// Decides what becomes of a receipt. It is written exactly if it is
/// `Inserted`.
pub fn enqueue(
    recipient_id: &String,
    sender_id: &String,
    max_queue_per_user: usize,
    facts: &ReceiptFacts,
) -> (out: EnqueueResult)
    ensures
        out == receipt_verdict(recipient_id@, sender_id@, max_queue_per_user, *facts),
{
    match &facts.existing {
        Some(existing) => {
            if !(existing.recipient_id == *recipient_id) || !(existing.sender_id == *sender_id) {
                EnqueueResult::Collision
            } else if existing.acknowledged {
                EnqueueResult::AlreadyAcknowledged
            } else {
                EnqueueResult::Duplicate
            }
        },
        None => {
            if facts.recipient_count >= max_queue_per_user as u64 || facts.sender_count
                >= max_queue_per_user as u64 {
                EnqueueResult::QueueFull
            } else {
                EnqueueResult::Inserted
            }
        },
    }
}

/// What a receipt is answered, if it is answered at once.
pub open spec fn receipt_reply(
    result: Result<EnqueueResult, StorageError>,
    id: MessageId,
    reply: Option<ServerMessage>,
) -> bool {
    match result {
        Ok(EnqueueResult::Inserted) => reply is None,
        Ok(EnqueueResult::Duplicate) => reply is None,
        Ok(EnqueueResult::AlreadyAcknowledged) => reply == Some(
            ServerMessage::ReadReceiptSent { receipt_id: id },
        ),
        Ok(EnqueueResult::QueueFull) => reply matches Some(error) && is_error(
            error,
            400,
            "recipient read receipt queue is full"@,
        ),
        Ok(EnqueueResult::Collision) => reply matches Some(error) && is_error(
            error,
            400,
            "read receipt ID already exists"@,
        ),
        Err(_) => reply matches Some(error) && is_internal_error(error),
    }
}

/// Answers a receipt. If there is no answer, the receipt is handed to its
/// recipient, and the sender hears of it when that has acknowledged it.
pub fn answer_receipt(result: Result<EnqueueResult, StorageError>, receipt_id: &MessageId) -> (out:
    Option<ServerMessage>)
    ensures
        receipt_reply(result, *receipt_id, out),
{
    match result {
        Ok(EnqueueResult::Inserted) => None,
        Ok(EnqueueResult::Duplicate) => None,
        Ok(EnqueueResult::AlreadyAcknowledged) => Some(
            ServerMessage::ReadReceiptSent { receipt_id: *receipt_id },
        ),
        Ok(EnqueueResult::QueueFull) => Some(error_400("recipient read receipt queue is full")),
        Ok(EnqueueResult::Collision) => Some(error_400("read receipt ID already exists")),
        Err(_) => Some(error_500_generic()),
    }
}

/// The receipt as its recipient gets it.
pub fn relayed_receipt(sender: UserId, receipt_id: &MessageId, envelope: EncryptedEnvelope) -> (out:
    ServerMessage)
    ensures
        out == (ServerMessage::IncomingReadReceipt {
            sender_id: sender,
            receipt_id: *receipt_id,
            envelope,
        }),
{
    ServerMessage::IncomingReadReceipt { sender_id: sender, receipt_id: *receipt_id, envelope }
}

/// Refuses an acknowledgement of too many receipts.
pub fn check_receipt_ack(receipt_ids: &Vec<MessageId>) -> (out: Option<ServerMessage>)
    ensures
        match out {
            None => receipt_ids@.len() <= MAX_RECEIPT_BATCH,
            Some(reply) => receipt_ids@.len() > MAX_RECEIPT_BATCH && is_error(
                reply,
                400,
                "read receipt ack exceeds maximum size"@,
            ),
        },
{
    if receipt_ids.len() > MAX_RECEIPT_BATCH {
        Some(error_400("read receipt ack exceeds maximum size"))
    } else {
        None
    }
}

/// Refuses a confirmation of too many receipts.
pub fn check_receipt_confirmation(receipt_ids: &Vec<MessageId>) -> (out: Option<ServerMessage>)
    ensures
        match out {
            None => receipt_ids@.len() <= MAX_RECEIPT_BATCH,
            Some(reply) => receipt_ids@.len() > MAX_RECEIPT_BATCH && is_error(
                reply,
                400,
                "read receipt confirmation exceeds maximum size"@,
            ),
        },
{
    if receipt_ids.len() > MAX_RECEIPT_BATCH {
        Some(error_400("read receipt confirmation exceeds maximum size"))
    } else {
        None
    }
}

/// What the confirmation of receipts is answered.
pub fn answer_receipt_confirmation(stored: Result<(), StorageError>) -> (out: ServerMessage)
    ensures
        match stored {
            Ok(_) => out is Success,
            Err(_) => is_internal_error(out),
        },
{
    match stored {
        Ok(()) => ServerMessage::Success,
        Err(_) => error_500_generic(),
    }
}

/// The receipts of a list whose identifiers can be read.
pub open spec fn readable_receipts(acknowledged: Seq<(String, String)>) -> Seq<
    (Seq<char>, u128),
>
    decreases acknowledged.len(),
{
    if acknowledged.len() == 0 {
        Seq::empty()
    } else {
        let before = readable_receipts(acknowledged.drop_last());
        match uuid_value(acknowledged.last().0@) {
            Some(value) => before.push((acknowledged.last().1@, value)),
            None => before,
        }
    }
}

/// A notice tells a sender that one of its receipts was acknowledged.
pub open spec fn is_notice(notice: (String, ServerMessage), to: (Seq<char>, u128)) -> bool {
    &&& notice.0@ == to.0
    &&& notice.1 matches ServerMessage::ReadReceiptSent { receipt_id } && receipt_id@ == to.1
}

/// The notices for the senders of acknowledged receipts, which are given as
/// pairs of identifier and sender.
pub fn receipt_notices(acknowledged: &Vec<(String, String)>) -> (out: Vec<(String, ServerMessage)>)
    ensures
        out@.len() == readable_receipts(acknowledged@).len(),
        forall|i: int|
            0 <= i < out@.len() ==> is_notice(
                #[trigger] out@[i],
                readable_receipts(acknowledged@)[i],
            ),
{
    let mut out: Vec<(String, ServerMessage)> = Vec::new();
    let mut i: usize = 0;
    while i < acknowledged.len()
        invariant
            i <= acknowledged@.len(),
            out@.len() == readable_receipts(acknowledged@.take(i as int)).len(),
            forall|j: int|
                0 <= j < out@.len() ==> is_notice(
                    #[trigger] out@[j],
                    readable_receipts(acknowledged@.take(i as int))[j],
                ),
        decreases acknowledged@.len() - i,
    {
        let ghost more = acknowledged@.take(i + 1);
        assert(more.drop_last() =~= acknowledged@.take(i as int));
        assert(more.last() == acknowledged@[i as int]);
        match MessageId::parse(acknowledged[i].0.as_str()) {
            Some(receipt_id) => {
                out.push(
                    (acknowledged[i].1.clone(), ServerMessage::ReadReceiptSent { receipt_id }),
                );
            },
            None => {},
        }
        i += 1;
    }
    assert(acknowledged@.take(i as int) =~= acknowledged@);
    out
}

/// What the database holds of receipts.
pub struct Receipt {
    pub recipient: Seq<char>,
    pub sender: Seq<char>,
    pub acknowledged: bool,
}

/// `facts` is what a set of receipts answers about one with this identifier.
pub open spec fn receipts_answer(
    receipts: Map<Seq<char>, Receipt>,
    id: Seq<char>,
    recipient: Seq<char>,
    sender: Seq<char>,
    facts: ReceiptFacts,
) -> bool {
    &&& match facts.existing {
        Some(existing) => {
            &&& receipts.contains_key(id)
            &&& receipts[id] == (Receipt {
                recipient: existing.recipient_id@,
                sender: existing.sender_id@,
                acknowledged: existing.acknowledged,
            })
        },
        None => !receipts.contains_key(id),
    }
    &&& facts.recipient_count == receipts.dom().filter(
        |other: Seq<char>|
            receipts[other].recipient == recipient && !receipts[other].acknowledged,
    ).len()
    &&& facts.sender_count == receipts.dom().filter(
        |other: Seq<char>| receipts[other].sender == sender,
    ).len()
}

/// A receipt that is sent again is recognised, and where it has been
/// acknowledged its sender hears of that again.
pub proof fn law_receipt_retry(
    receipts: Map<Seq<char>, Receipt>,
    id: Seq<char>,
    recipient: Seq<char>,
    sender: Seq<char>,
    acknowledged: bool,
    max_queue_per_user: usize,
    facts: ReceiptFacts,
)
    requires
        receipts.contains_key(id),
        receipts[id] == (Receipt { recipient, sender, acknowledged }),
        receipts_answer(receipts, id, recipient, sender, facts),
    ensures
        receipt_verdict(recipient, sender, max_queue_per_user, facts) == (if acknowledged {
            EnqueueResult::AlreadyAcknowledged
        } else {
            EnqueueResult::Duplicate
        }),
{
}

/// Nobody's receipt can be taken over: under an identifier that is in use,
/// another sender or recipient is refused.
pub proof fn law_receipt_identifier_belongs_to_one(
    receipts: Map<Seq<char>, Receipt>,
    id: Seq<char>,
    recipient: Seq<char>,
    sender: Seq<char>,
    max_queue_per_user: usize,
    facts: ReceiptFacts,
)
    requires
        receipts.contains_key(id),
        receipts[id].recipient != recipient || receipts[id].sender != sender,
        receipts_answer(receipts, id, recipient, sender, facts),
    ensures
        receipt_verdict(recipient, sender, max_queue_per_user, facts) is Collision,
{
}

} // verus!
