//! The durable outbox: what has been handed to the server but not confirmed.

use super::error::CryptoError;
use crate::protocol::consts::{MAX_PENDING_OUTBOUND_BYTES, MAX_PENDING_OUTBOUND_ITEMS};
use crate::protocol::{ClientMessage, EncryptedEnvelope, MessageId, OneTimePreKey, UserId};
use vstd::prelude::*;
use vstd::string::*;

verus! {

use crate::protocol::types::uuid_text;
use crate::text::byte_len;

/// A request that is repeated until the server confirms it.
pub enum PendingOutbound {
    Message { recipient_id: UserId, message_id: MessageId, envelope: EncryptedEnvelope },
    ReadReceipt { recipient_id: UserId, receipt_id: MessageId, envelope: EncryptedEnvelope },
    Ack { ack_id: MessageId, message_ids: Vec<MessageId> },
    ReadReceiptAck { ack_id: MessageId, receipt_ids: Vec<MessageId> },
    PreKeyUpload { upload_id: MessageId, prekeys: Vec<OneTimePreKey> },
    SignedPreKeyRotation {
        rotation_id: MessageId,
        key_id: u32,
        public_key: String,
        signature: String,
    },
}

/// A copy of a list of identifiers.
pub fn copy_ids(ids: &Vec<MessageId>) -> (out: Vec<MessageId>)
    ensures
        out@ == ids@,
{
    let out = ids.clone();
    assert(out@ =~= ids@);
    out
}

/// A copy of a list of pre-keys.
pub fn copy_prekeys(prekeys: &Vec<OneTimePreKey>) -> (out: Vec<OneTimePreKey>)
    ensures
        out@ == prekeys@,
{
    let out = prekeys.clone();
    assert(out@ =~= prekeys@);
    out
}

impl PendingOutbound {
    /// `message` is the request that this item stands for.
    pub open spec fn asks(self, message: ClientMessage) -> bool {
        match self {
            PendingOutbound::Message { recipient_id, message_id, envelope } => message
                == (ClientMessage::SendMessage { recipient_id, message_id, envelope }),
            PendingOutbound::ReadReceipt { recipient_id, receipt_id, envelope } => message
                == (ClientMessage::SendReadReceipt { recipient_id, receipt_id, envelope }),
            PendingOutbound::Ack { ack_id, message_ids } => {
                message matches ClientMessage::Ack { ack_id: id, message_ids: ids } && id == ack_id
                    && ids@ == message_ids@
            },
            PendingOutbound::ReadReceiptAck { ack_id, receipt_ids } => {
                message matches ClientMessage::AckReadReceipt { ack_id: id, receipt_ids: ids } && id
                    == ack_id && ids@ == receipt_ids@
            },
            PendingOutbound::PreKeyUpload { upload_id, prekeys } => {
                message matches ClientMessage::UploadPreKeys { upload_id: id, prekeys: keys } && id
                    == upload_id && keys@ == prekeys@
            },
            PendingOutbound::SignedPreKeyRotation { rotation_id, key_id, public_key, signature } =>
                message == (ClientMessage::RotateSignedPreKey {
                    rotation_id,
                    key_id,
                    public_key,
                    signature,
                }),
        }
    }

    /// The identifier by which the server's answer is matched.
    pub open spec fn correlation(self) -> MessageId {
        match self {
            PendingOutbound::Message { message_id, .. } => message_id,
            PendingOutbound::ReadReceipt { receipt_id, .. } => receipt_id,
            PendingOutbound::Ack { ack_id, .. } => ack_id,
            PendingOutbound::ReadReceiptAck { ack_id, .. } => ack_id,
            PendingOutbound::PreKeyUpload { upload_id, .. } => upload_id,
            PendingOutbound::SignedPreKeyRotation { rotation_id, .. } => rotation_id,
        }
    }

    /// How many bytes the item counts for: those of its ciphertext, 36 for
    /// each identifier and 48 for each pre-key.
    pub open spec fn weight(self) -> nat {
        match self {
            PendingOutbound::Message { envelope, .. } => byte_len(envelope.ciphertext@),
            PendingOutbound::ReadReceipt { envelope, .. } => byte_len(envelope.ciphertext@),
            PendingOutbound::Ack { message_ids, .. } => message_ids@.len() * 36,
            PendingOutbound::ReadReceiptAck { receipt_ids, .. } => receipt_ids@.len() * 36,
            PendingOutbound::PreKeyUpload { prekeys, .. } => prekeys@.len() * 48,
            PendingOutbound::SignedPreKeyRotation { public_key, signature, .. } => byte_len(
                public_key@,
            ) + byte_len(signature@),
        }
    }

    /// The request that this item stands for.
    pub fn to_client_message(&self) -> (out: ClientMessage)
        ensures
            self.asks(out),
    {
        match self {
            PendingOutbound::Message { recipient_id, message_id, envelope } =>
                ClientMessage::SendMessage {
                    recipient_id: recipient_id.clone(),
                    message_id: *message_id,
                    envelope: envelope.clone(),
                },
            PendingOutbound::ReadReceipt { recipient_id, receipt_id, envelope } =>
                ClientMessage::SendReadReceipt {
                    recipient_id: recipient_id.clone(),
                    receipt_id: *receipt_id,
                    envelope: envelope.clone(),
                },
            PendingOutbound::Ack { ack_id, message_ids } => ClientMessage::Ack {
                ack_id: *ack_id,
                message_ids: copy_ids(message_ids),
            },
            PendingOutbound::ReadReceiptAck { ack_id, receipt_ids } =>
                ClientMessage::AckReadReceipt {
                    ack_id: *ack_id,
                    receipt_ids: copy_ids(receipt_ids),
                },
            PendingOutbound::PreKeyUpload { upload_id, prekeys } => ClientMessage::UploadPreKeys {
                upload_id: *upload_id,
                prekeys: copy_prekeys(prekeys),
            },
            PendingOutbound::SignedPreKeyRotation { rotation_id, key_id, public_key, signature } =>
                ClientMessage::RotateSignedPreKey {
                    rotation_id: *rotation_id,
                    key_id: *key_id,
                    public_key: public_key.clone(),
                    signature: signature.clone(),
                },
        }
    }

    /// The identifier by which the server's answer is matched, as text.
    pub fn correlation_id(&self) -> (out: String)
        ensures
            out@ == uuid_text(self.correlation()@),
    {
        match self {
            PendingOutbound::Message { message_id, .. } => message_id.to_text(),
            PendingOutbound::ReadReceipt { receipt_id, .. } => receipt_id.to_text(),
            PendingOutbound::Ack { ack_id, .. } => ack_id.to_text(),
            PendingOutbound::ReadReceiptAck { ack_id, .. } => ack_id.to_text(),
            PendingOutbound::PreKeyUpload { upload_id, .. } => upload_id.to_text(),
            PendingOutbound::SignedPreKeyRotation { rotation_id, .. } => rotation_id.to_text(),
        }
    }

    /// The item's weight, if it is at most `limit`.
    fn weight_up_to(&self, limit: usize) -> (out: Option<usize>)
        ensures
            out is Some <==> self.weight() <= limit,
            out matches Some(weight) ==> weight == self.weight(),
    {
        match self {
            PendingOutbound::Message { envelope, .. } => at_most(
                envelope.ciphertext.as_str().as_bytes().len(),
                limit,
            ),
            PendingOutbound::ReadReceipt { envelope, .. } => at_most(
                envelope.ciphertext.as_str().as_bytes().len(),
                limit,
            ),
            PendingOutbound::Ack { message_ids, .. } => times_at_most(
                message_ids.len(),
                36,
                limit,
            ),
            PendingOutbound::ReadReceiptAck { receipt_ids, .. } => times_at_most(
                receipt_ids.len(),
                36,
                limit,
            ),
            PendingOutbound::PreKeyUpload { prekeys, .. } => times_at_most(
                prekeys.len(),
                48,
                limit,
            ),
            PendingOutbound::SignedPreKeyRotation { public_key, signature, .. } => {
                let key_len: usize = public_key.as_str().as_bytes().len();
                let signature_len: usize = signature.as_str().as_bytes().len();
                if key_len <= limit && signature_len <= limit - key_len {
                    Some(key_len + signature_len)
                } else {
                    None
                }
            },
        }
    }
}

fn at_most(value: usize, limit: usize) -> (out: Option<usize>)
    ensures
        out == (if value <= limit { Some(value) } else { None }),
{
    if value <= limit {
        Some(value)
    } else {
        None
    }
}

fn times_at_most(count: usize, each: usize, limit: usize) -> (out: Option<usize>)
    requires
        each > 0,
    ensures
        out is Some <==> count * each <= limit,
        out matches Some(product) ==> product == count * each,
{
    if count > limit / each {
        assert(count * each > limit) by (nonlinear_arith)
            requires
                count > limit / each,
                each > 0,
        ;
        None
    } else {
        assert(count * each <= limit) by (nonlinear_arith)
            requires
                count <= limit / each,
                each > 0,
        ;
        Some(count * each)
    }
}

/// The weight of all items together.
pub open spec fn total_weight(pending: Seq<PendingOutbound>) -> nat
    decreases pending.len(),
{
    if pending.len() == 0 {
        0
    } else {
        total_weight(pending.drop_last()) + pending.last().weight()
    }
}

/// The encoded size of a ciphertext for so many bytes of text: with the tag,
/// and in base64.
pub open spec fn encoded_size(plaintext_len: nat) -> nat {
    (plaintext_len + 18) / 3 * 4
}

/// Another item with so many bytes of text fits.
pub open spec fn has_capacity(pending: Seq<PendingOutbound>, additional: nat) -> bool {
    &&& pending.len() < MAX_PENDING_OUTBOUND_ITEMS
    &&& total_weight(pending) + encoded_size(additional) <= MAX_PENDING_OUTBOUND_BYTES
}

proof fn lemma_weight_monotone(pending: Seq<PendingOutbound>, n: int)
    requires
        0 <= n <= pending.len(),
    ensures
        total_weight(pending.take(n)) <= total_weight(pending),
    decreases pending.len() - n,
{
    if n == pending.len() {
        assert(pending.take(n) =~= pending);
    } else {
        lemma_weight_monotone(pending, n + 1);
        assert(pending.take(n + 1).drop_last() =~= pending.take(n));
    }
}

/// Whether another item with so many bytes of text fits in the outbox.
pub fn ensure_capacity(pending: &Vec<PendingOutbound>, additional: usize) -> (out: Result<
    (),
    CryptoError,
>)
    ensures
        out is Ok <==> has_capacity(pending@, additional as nat),
        out matches Err(error) ==> error == CryptoError::OutboxFull,
{
    if pending.len() >= MAX_PENDING_OUTBOUND_ITEMS {
        return Err(CryptoError::OutboxFull);
    }
    if additional > MAX_PENDING_OUTBOUND_BYTES {
        return Err(CryptoError::OutboxFull);
    }
    let additional_bytes: usize = (additional + 18) / 3 * 4;
    if additional_bytes > MAX_PENDING_OUTBOUND_BYTES {
        return Err(CryptoError::OutboxFull);
    }
    let mut room: usize = MAX_PENDING_OUTBOUND_BYTES - additional_bytes;
    let mut i: usize = 0;
    while i < pending.len()
        invariant
            i <= pending@.len(),
            additional_bytes == encoded_size(additional as nat),
            room + total_weight(pending@.take(i as int)) + additional_bytes
                == MAX_PENDING_OUTBOUND_BYTES,
        decreases pending@.len() - i,
    {
        proof {
            assert(pending@.take(i + 1).drop_last() =~= pending@.take(i as int));
            lemma_weight_monotone(pending@, i + 1);
        }
        match pending[i].weight_up_to(room) {
            Some(weight) => {
                room = room - weight;
            },
            None => return Err(CryptoError::OutboxFull),
        }
        i += 1;
    }
    assert(pending@.take(i as int) =~= pending@);
    Ok(())
}

} // verus!
