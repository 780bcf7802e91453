//! End-to-end encrypted one-to-one messaging.
//!
//! * [`protocol`]: the wire types, the limits and the canonical AEAD context.
//! * [`crypto`]: key agreement, the Double Ratchet and safety numbers.
//! * [`client`]: what a client keeps, sends and shows.
//! * [`server`]: what a relay answers and decides, over what its database holds.
//! * [`table`], [`bytes`], [`text`] and [`encoding`]: what the others are made of.

pub mod bytes;
pub mod client;
pub mod crypto;
pub mod encoding;
pub mod protocol;
pub mod server;
pub mod table;
pub mod text;
