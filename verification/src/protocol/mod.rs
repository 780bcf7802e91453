//! The wire protocol: message types, limits and the canonical AEAD context.

pub mod aad;
pub mod consts;
pub mod error;
pub mod identifiers;
pub mod messages;
pub mod types;

pub use messages::{ClientMessage, InboundMessage, ServerMessage};
pub use types::{
    EncryptedEnvelope, InvalidUserId, MessageHeader, MessageId, OneTimePreKey, PreKeyBundle,
    RatchetHeader, UserId,
};
