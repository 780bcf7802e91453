//! Protocol version and limits.

use vstd::prelude::*;

verus! {

/// The version of the envelopes that this crate writes and reads. There is no
/// fallback to an older one.
pub const PROTOCOL_VERSION: u32 = 2;

/// Maximum one-time pre-keys in a single upload or registration.
pub const MAX_PREKEYS_PER_UPLOAD: usize = 200;

/// Maximum one-time pre-keys that the server keeps for one user.
pub const MAX_PREKEYS_PER_USER: usize = 200;

/// How many one-time pre-keys a client generates at a time.
pub const PREKEY_TARGET: usize = 100;

/// How long a fetched one-time pre-key stays reserved for its requester.
pub const ONE_TIME_PREKEY_RESERVATION_SECS: u64 = 3600;

/// Maximum message IDs in a single Ack batch.
pub const MAX_ACK_BATCH: usize = 1000;

/// Maximum queued messages delivered during one authentication cycle.
pub const MAX_QUEUED_MESSAGES: usize = 1000;

/// Maximum queued messages in one WebSocket response. The byte limit below
/// will usually produce smaller pages for large ciphertexts.
pub const MAX_QUEUED_MESSAGES_PER_PAGE: usize = 64;

/// Maximum encoded size of a queued-delivery WebSocket response: a full-size
/// ciphertext and 16 KiB for the rest.
pub const MAX_QUEUED_PAGE_BYTES: usize = 540_672;

/// Maximum ciphertext field size in bytes (base64-encoded).
pub const MAX_CIPHERTEXT_BYTES: usize = 524_288;

/// Maximum queued messages per recipient before the server rejects new sends.
pub const MAX_QUEUE_PER_USER: usize = 10_000;

/// Maximum message IDs in a single read receipt batch.
pub const MAX_RECEIPT_BATCH: usize = 100;

/// Maximum durable outbound items retained by one client.
pub const MAX_PENDING_OUTBOUND_ITEMS: usize = 1000;

/// Maximum encoded ciphertext bytes retained in the durable client outbox.
pub const MAX_PENDING_OUTBOUND_BYTES: usize = 67_108_864;

/// Maximum unconfirmed processed-message IDs retained by one client.
pub const MAX_PROCESSED_MESSAGES: usize = 10_000;

} // verus!
