//! The connection to the server: how it is retried, and what registers a user.

use super::reactions::AppEvent;
use crate::crypto::keys::{IdentityKeyPair, OneTimePreKey, SignedPreKey};
use crate::encoding::encode;
use crate::protocol::types::OneTimePreKey as WirePreKey;
use crate::protocol::{ClientMessage, PreKeyBundle, UserId};
use vstd::prelude::*;
use vstd::string::*;

verus! {

use crate::crypto::primitives::ed25519_public;
use crate::encoding::encodes;

/// How long the client waits after a first failure.
pub const FIRST_BACKOFF_SECS: u64 = 1;

/// How long it waits at most.
pub const MAX_BACKOFF_SECS: u64 = 30;

/// How a connection has ended.
#[derive(Debug, Clone, Copy, PartialEq, Eq, Structural)]
pub enum ConnectionEnd {
    /// The server was not reached, or was lost again before the login.
    NotReached,
    /// The challenge did not come, or could not be answered.
    ChallengeFailed,
    /// The server did not accept the answer.
    Refused,
    /// The connection was lost after the login.
    Lost,
}

/// How long to wait before the next attempt.
pub struct Backoff {
    secs: u64,
}

/// Twice as long, up to `MAX_BACKOFF_SECS`.
pub open spec fn doubled(secs: u64) -> u64 {
    if secs * 2 > MAX_BACKOFF_SECS {
        MAX_BACKOFF_SECS
    } else {
        (secs * 2) as u64
    }
}

impl View for Backoff {
    type V = u64;

    closed spec fn view(&self) -> u64 {
        self.secs
    }
}

impl Backoff {
    #[verifier::type_invariant]
    spec fn inv(self) -> bool {
        FIRST_BACKOFF_SECS <= self.secs <= MAX_BACKOFF_SECS
    }

    /// Before the first attempt.
    pub fn new() -> (out: Self)
        ensures
            out@ == FIRST_BACKOFF_SECS,
    {
        Backoff { secs: FIRST_BACKOFF_SECS }
    }

    /// The user is logged in: the next failure is a first one.
    pub fn logged_in(&mut self) -> (out: AppEvent)
        ensures
            final(self)@ == FIRST_BACKOFF_SECS,
            out is Authenticated,
    {
        self.secs = FIRST_BACKOFF_SECS;
        AppEvent::Authenticated
    }

    /// A connection has ended. Returns what the user is told, and how many
    /// seconds to wait. The wait after that is twice as long.
    pub fn ended(&mut self, how: ConnectionEnd) -> (out: (AppEvent, u64))
        ensures
            out.1 == old(self)@,
            FIRST_BACKOFF_SECS <= out.1 <= MAX_BACKOFF_SECS,
            final(self)@ == doubled(old(self)@),
            match how {
                ConnectionEnd::NotReached => out.0 is Disconnected,
                ConnectionEnd::ChallengeFailed => out.0 matches AppEvent::AuthFailed(reason)
                    && reason@ == "challenge-response failed"@,
                ConnectionEnd::Refused => out.0 matches AppEvent::AuthFailed(reason) && reason@
                    == "server rejected authentication"@,
                ConnectionEnd::Lost => out.0 is Disconnected,
            },
    {
        proof {
            use_type_invariant(&*self);
        }
        let wait: u64 = self.secs;
        self.secs = if wait * 2 > MAX_BACKOFF_SECS {
            MAX_BACKOFF_SECS
        } else {
            wait * 2
        };
        let event = match how {
            ConnectionEnd::NotReached => AppEvent::Disconnected,
            ConnectionEnd::ChallengeFailed => AppEvent::AuthFailed(
                "challenge-response failed".to_owned(),
            ),
            ConnectionEnd::Refused => AppEvent::AuthFailed(
                "server rejected authentication".to_owned(),
            ),
            ConnectionEnd::Lost => AppEvent::Disconnected,
        };
        (event, wait)
    }
}

/// The request registers a user under an identity, with these pre-keys.
pub open spec fn registers(
    request: ClientMessage,
    user: UserId,
    identity: Seq<u8>,
    signed: SignedPreKey,
    prekeys: Seq<OneTimePreKey>,
) -> bool {
    request matches ClientMessage::Register { user_id, bundle, one_time_prekeys } && user_id
        == user && encodes(bundle.identity_key@, ed25519_public(identity)) && encodes(
        bundle.signed_prekey@,
        signed.spec_public(),
    ) && encodes(bundle.signed_prekey_signature@, signed.spec_signature())
        && bundle.signed_prekey_id == signed.spec_key_id() && bundle.one_time_prekey is None
        && one_time_prekeys@.len() == prekeys.len() && forall|i: int|
        0 <= i < prekeys.len() ==> (#[trigger] one_time_prekeys@[i]).key_id
            == prekeys[i].spec_key_id() && encodes(
            one_time_prekeys@[i].public_key@,
            prekeys[i].spec_public(),
        )
}

/// The request that registers a user under an identity, with these pre-keys.
pub fn registration_request(
    user: &UserId,
    identity: &IdentityKeyPair,
    signed: &SignedPreKey,
    prekeys: &Vec<OneTimePreKey>,
) -> (out: ClientMessage)
    ensures
        registers(out, *user, identity@, *signed, prekeys@),
{
    let mut one_time_prekeys: Vec<WirePreKey> = Vec::new();
    let mut i: usize = 0;
    while i < prekeys.len()
        invariant
            i <= prekeys@.len(),
            one_time_prekeys@.len() == i,
            forall|j: int|
                0 <= j < i ==> (#[trigger] one_time_prekeys@[j]).key_id == prekeys@[j].spec_key_id()
                    && encodes(one_time_prekeys@[j].public_key@, prekeys@[j].spec_public()),
        decreases prekeys@.len() - i,
    {
        one_time_prekeys.push(
            WirePreKey {
                key_id: prekeys[i].key_id(),
                public_key: encode(prekeys[i].public().as_bytes()),
            },
        );
        i += 1;
    }
    ClientMessage::Register {
        user_id: user.clone(),
        bundle: PreKeyBundle {
            identity_key: encode(identity.verifying_key().as_bytes()),
            signed_prekey: encode(signed.public().as_bytes()),
            signed_prekey_signature: encode(&signed.signature().to_bytes()),
            signed_prekey_id: signed.key_id(),
            one_time_prekey: None,
        },
        one_time_prekeys,
    }
}

} // verus!
