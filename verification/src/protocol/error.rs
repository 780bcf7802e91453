//! Why a request was refused.

use super::types::UserId;
use crate::text::push_decimal;
use vstd::prelude::*;
use vstd::string::*;

verus! {

use crate::text::decimal;

/// Why a request was refused.
#[derive(Debug, PartialEq, Eq)]
#[non_exhaustive]
pub enum ProtocolError {
    UserNotFound(UserId),
    NoPreKeysAvailable(UserId),
    AuthFailed(String),
    InvalidFormat(String),
    RateLimited,
    MessageTooLarge,
    UnsupportedVersion { got: u32, max_supported: u32 },
}

impl ProtocolError {
    /// The text that [`ProtocolError::message`] gives.
    pub open spec fn text(self) -> Seq<char> {
        match self {
            ProtocolError::UserNotFound(user) => "user not found: "@ + user@,
            ProtocolError::NoPreKeysAvailable(user) => "no pre-keys available for user: "@ + user@,
            ProtocolError::AuthFailed(reason) => "authentication failed: "@ + reason@,
            ProtocolError::InvalidFormat(reason) => "invalid message format: "@ + reason@,
            ProtocolError::RateLimited => "rate limited"@,
            ProtocolError::MessageTooLarge => "message too large"@,
            ProtocolError::UnsupportedVersion { got, max_supported } =>
                "unsupported protocol version "@ + decimal(got as nat) + " (max supported: "@
                    + decimal(max_supported as nat) + ")"@,
        }
    }

    /// A description for people.
    pub fn message(&self) -> (out: String)
        ensures
            out@ == self.text(),
    {
        match self {
            ProtocolError::UserNotFound(user) => {
                let mut out = "user not found: ".to_owned();
                out.append(user.as_str());
                out
            },
            ProtocolError::NoPreKeysAvailable(user) => {
                let mut out = "no pre-keys available for user: ".to_owned();
                out.append(user.as_str());
                out
            },
            ProtocolError::AuthFailed(reason) => {
                let mut out = "authentication failed: ".to_owned();
                out.append(reason.as_str());
                out
            },
            ProtocolError::InvalidFormat(reason) => {
                let mut out = "invalid message format: ".to_owned();
                out.append(reason.as_str());
                out
            },
            ProtocolError::RateLimited => "rate limited".to_owned(),
            ProtocolError::MessageTooLarge => "message too large".to_owned(),
            ProtocolError::UnsupportedVersion { got, max_supported } => {
                let mut out = "unsupported protocol version ".to_owned();
                push_decimal(&mut out, *got as u64);
                out.append(" (max supported: ");
                push_decimal(&mut out, *max_supported as u64);
                out.append(")");
                out
            },
        }
    }
}

} // verus!
