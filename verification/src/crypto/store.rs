//! Where key material is kept between runs.

use super::error::CryptoError;
use super::keys::{IdentityKeyPair, OneTimePreKey, SignedPreKey};
use super::ratchet::SessionState;
use vstd::prelude::*;

verus! {

/// Keeps the session with each peer.
pub trait SessionStore {
    /// The session with a peer, if there is one.
    fn load_session(&self, peer_id: &str) -> Result<Option<SessionState>, CryptoError>;

    /// Stores the session with a peer, in place of one that was there.
    fn store_session(&mut self, peer_id: &str, state: &SessionState) -> Result<(), CryptoError>;
}

/// Keeps the private halves of one-time pre-keys.
pub trait PreKeyStore {
    /// Takes a one-time pre-key out of the store.
    fn take_prekey(&mut self, key_id: u32) -> Result<Option<OneTimePreKey>, CryptoError>;
}

/// Keeps the private halves of signed pre-keys.
pub trait SignedPreKeyStore {
    /// A signed pre-key by its identifier.
    fn load_signed_prekey(&self, key_id: u32) -> Result<Option<SignedPreKey>, CryptoError>;
}

/// Keeps the identity key pair of this installation.
pub trait IdentityKeyStore {
    /// The identity key pair.
    fn get_identity(&self) -> Result<IdentityKeyPair, CryptoError>;
}

} // verus!
