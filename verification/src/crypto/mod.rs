//! Pure cryptographic logic: X3DH, the Double Ratchet, key derivation and
//! safety numbers.

pub mod aead;
pub mod conversation;
pub mod error;
pub mod fingerprint;
pub mod guarantees;
pub mod kdf;
pub mod keys;
pub mod out_of_order;
pub mod primitives;
pub mod ratchet;
pub mod skipped;
pub mod store;
pub mod x3dh;
