//! What can go wrong in the cryptographic layer.

use vstd::prelude::*;
use vstd::string::*;

verus! {

/// Why a cryptographic operation was refused.
#[derive(Debug)]
#[non_exhaustive]
pub enum CryptoError {
    InvalidSignature,
    InvalidBundle(String),
    EncryptionFailed,
    DecryptionFailed,
    NoSession,
    SkippedKeyLimitExceeded,
    KdfFailure,
    MessageCounterExhausted,
}

impl CryptoError {
    /// The text that [`CryptoError::message`] gives.
    pub open spec fn text(self) -> Seq<char> {
        match self {
            CryptoError::InvalidSignature => "invalid signature"@,
            CryptoError::InvalidBundle(reason) => "invalid pre-key bundle: "@ + reason@,
            CryptoError::EncryptionFailed => "encryption failed"@,
            CryptoError::DecryptionFailed => "decryption failed"@,
            CryptoError::NoSession => "no session found for peer"@,
            CryptoError::SkippedKeyLimitExceeded => "skipped message key limit exceeded"@,
            CryptoError::KdfFailure => "KDF expansion failed"@,
            CryptoError::MessageCounterExhausted =>
                "message counter exhausted (u32::MAX messages in a single chain)"@,
        }
    }

    /// A description for people.
    pub fn message(&self) -> (out: String)
        ensures
            out@ == self.text(),
    {
        match self {
            CryptoError::InvalidSignature => "invalid signature".to_owned(),
            CryptoError::InvalidBundle(reason) => {
                let mut out = "invalid pre-key bundle: ".to_owned();
                out.append(reason.as_str());
                out
            },
            CryptoError::EncryptionFailed => "encryption failed".to_owned(),
            CryptoError::DecryptionFailed => "decryption failed".to_owned(),
            CryptoError::NoSession => "no session found for peer".to_owned(),
            CryptoError::SkippedKeyLimitExceeded => "skipped message key limit exceeded".to_owned(),
            CryptoError::KdfFailure => "KDF expansion failed".to_owned(),
            CryptoError::MessageCounterExhausted =>
                "message counter exhausted (u32::MAX messages in a single chain)".to_owned(),
        }
    }
}

} // verus!
