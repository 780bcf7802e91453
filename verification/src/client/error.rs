//! Why the client's cryptographic layer refuses a request.

use crate::text::push_decimal;
use vstd::prelude::*;
use vstd::string::*;

verus! {

use crate::text::decimal;

/// Why the client's cryptographic layer refuses a request.
#[derive(Debug, PartialEq, Eq, Structural)]
#[non_exhaustive]
pub enum CryptoError {
    BadBundle,
    BadEnvelope,
    X3dhFailed,
    RatchetFailed,
    NoSession,
    DecryptFailed,
    /// The change was not written to durable storage and did not happen.
    Persistence,
    OutboxFull,
    ReplayLedgerFull,
    UnsupportedVersion(u32),
}

impl CryptoError {
    /// The text that [`CryptoError::message`] gives.
    pub open spec fn text(self) -> Seq<char> {
        match self {
            CryptoError::BadBundle => "invalid pre-key bundle"@,
            CryptoError::BadEnvelope => "invalid envelope"@,
            CryptoError::X3dhFailed => "key agreement failed"@,
            CryptoError::RatchetFailed => "ratchet error"@,
            CryptoError::NoSession => "no session with peer"@,
            CryptoError::DecryptFailed => "decryption failed"@,
            CryptoError::Persistence => "cryptographic state could not be persisted"@,
            CryptoError::OutboxFull => "durable message queue is full"@,
            CryptoError::ReplayLedgerFull => "processed-message ledger is full"@,
            CryptoError::UnsupportedVersion(version) => "unsupported protocol version "@ + decimal(
                version as nat,
            ),
        }
    }

    /// A description for people.
    pub fn message(&self) -> (out: String)
        ensures
            out@ == self.text(),
    {
        match self {
            CryptoError::BadBundle => "invalid pre-key bundle".to_owned(),
            CryptoError::BadEnvelope => "invalid envelope".to_owned(),
            CryptoError::X3dhFailed => "key agreement failed".to_owned(),
            CryptoError::RatchetFailed => "ratchet error".to_owned(),
            CryptoError::NoSession => "no session with peer".to_owned(),
            CryptoError::DecryptFailed => "decryption failed".to_owned(),
            CryptoError::Persistence => "cryptographic state could not be persisted".to_owned(),
            CryptoError::OutboxFull => "durable message queue is full".to_owned(),
            CryptoError::ReplayLedgerFull => "processed-message ledger is full".to_owned(),
            CryptoError::UnsupportedVersion(version) => {
                let mut out = "unsupported protocol version ".to_owned();
                push_decimal(&mut out, *version as u64);
                out
            },
        }
    }
}

} // verus!
