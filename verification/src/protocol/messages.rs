//! What clients and the server say to each other.

use super::types::{EncryptedEnvelope, MessageId, OneTimePreKey, PreKeyBundle, UserId};
use vstd::prelude::*;

verus! {

/// A message from a client to the server.
#[derive(Debug, PartialEq, Eq)]
#[non_exhaustive]
pub enum ClientMessage {
    /// The bundle has no one-time pre-key: the batch is sent separately, with
    /// at most `MAX_PREKEYS_PER_UPLOAD` items.
    Register { user_id: UserId, bundle: PreKeyBundle, one_time_prekeys: Vec<OneTimePreKey> },
    AuthChallenge { user_id: UserId },
    /// Base64-encoded Ed25519 signature over nonce, timestamp and server id.
    AuthResponse { signature: String },
    /// At most `MAX_PREKEYS_PER_UPLOAD` items.
    UploadPreKeys { upload_id: MessageId, prekeys: Vec<OneTimePreKey> },
    RotateSignedPreKey {
        rotation_id: MessageId,
        key_id: u32,
        public_key: String,
        signature: String,
    },
    FetchPreKeyBundle { target_user_id: UserId },
    SendMessage { recipient_id: UserId, message_id: MessageId, envelope: EncryptedEnvelope },
    /// Acknowledges messages, which the server may then delete. At most
    /// `MAX_ACK_BATCH` items.
    Ack { ack_id: MessageId, message_ids: Vec<MessageId> },
    AckMessageSent { message_ids: Vec<MessageId> },
    /// Relayed to an online recipient only, never queued.
    Typing { recipient_id: UserId },
    /// An encrypted read receipt.
    SendReadReceipt { recipient_id: UserId, receipt_id: MessageId, envelope: EncryptedEnvelope },
    AckReadReceipt { ack_id: MessageId, receipt_ids: Vec<MessageId> },
    AckReadReceiptSent { receipt_ids: Vec<MessageId> },
}

/// A message from the server to a client.
#[derive(Debug, PartialEq, Eq)]
#[non_exhaustive]
pub enum ServerMessage {
    /// Login challenge: the client signs nonce, timestamp and server id.
    Challenge {
        /// Base64-encoded 32-byte random nonce.
        nonce: String,
        /// Seconds since the Unix epoch. The client responds within 60 s.
        timestamp: u64,
        server_id: String,
    },
    AuthSuccess,
    AuthFailure { reason: String },
    PreKeyBundleResponse { user_id: UserId, bundle: PreKeyBundle },
    IncomingMessage(InboundMessage),
    /// At most `MAX_QUEUED_MESSAGES_PER_PAGE` items and `MAX_QUEUED_PAGE_BYTES`
    /// encoded bytes per response.
    QueuedMessages { messages: Vec<InboundMessage> },
    MessageSent { message_id: MessageId },
    MessageRejected { message_id: MessageId, reason: String },
    AckSuccess { ack_id: MessageId, message_ids: Vec<MessageId> },
    ReadReceiptSent { receipt_id: MessageId },
    /// Generic success.
    Success,
    /// One-time pre-keys are running low.
    PreKeyLow { remaining: u32 },
    PreKeysUploaded { upload_id: MessageId, accepted: bool, remaining: u32 },
    SignedPreKeyRotated {
        rotation_id: MessageId,
        accepted: bool,
        /// The key had been accepted before and has been replaced since.
        previously_accepted: bool,
        /// The key that the server holds now.
        current_key_id: u32,
    },
    Error { code: u32, message: String },
    /// A peer is typing. Never queued.
    PeerTyping { sender_id: UserId },
    /// The messages were pushed to the recipient's device.
    MessageDelivered { message_ids: Vec<MessageId> },
    /// An encrypted read receipt from a peer.
    IncomingReadReceipt { sender_id: UserId, receipt_id: MessageId, envelope: EncryptedEnvelope },
}

/// A message from another user, live or queued.
#[derive(Debug, PartialEq, Eq)]
pub struct InboundMessage {
    pub message_id: MessageId,
    pub sender_id: UserId,
    pub envelope: EncryptedEnvelope,
    pub timestamp: u64,
}

impl Clone for InboundMessage {
    fn clone(&self) -> (out: Self)
        ensures
            out == *self,
    {
        InboundMessage {
            message_id: self.message_id,
            sender_id: self.sender_id.clone(),
            envelope: self.envelope.clone(),
            timestamp: self.timestamp,
        }
    }
}

} // verus!
