//! X3DH: how two parties that have never talked agree on a first secret.

use super::error::CryptoError;
use super::kdf::{hkdf_expand, HKDF_INFO_X3DH, ZERO_SALT};
use super::keys::{
    verifying_key_to_x25519, EphemeralKeyPair, IdentityKeyPair, OneTimePreKey, PublicKey,
    SharedSecret, Signature, SignedPreKey, VerifyingKey,
};
use super::primitives::{wipe, wipe_vec};
use crate::bytes::{array32_at, push_all};
use vstd::prelude::*;

verus! {

use super::keys::identity_converts;
use super::primitives::{
    dh_pair, ed25519_montgomery, ed25519_public, ed25519_scalar, ed25519_verifies, hkdf_sha256,
    x25519, x25519_base,
};

/// Domain separator in front of the shared secrets: 32 bytes of `0xFF`.
pub const X3DH_DOMAIN_SEPARATOR: [u8; 32] = [
    0xFF, 0xFF, 0xFF, 0xFF, 0xFF, 0xFF, 0xFF, 0xFF, 0xFF, 0xFF, 0xFF, 0xFF, 0xFF, 0xFF, 0xFF, 0xFF,
    0xFF, 0xFF, 0xFF, 0xFF, 0xFF, 0xFF, 0xFF, 0xFF, 0xFF, 0xFF, 0xFF, 0xFF, 0xFF, 0xFF, 0xFF, 0xFF,
];

/// What the initiator gets out of the agreement.
pub struct X3dhInitResult {
    pub shared_secret: [u8; 32],
    pub ephemeral_public: PublicKey,
}

impl Drop for X3dhInitResult {
    fn drop(&mut self)
        opens_invariants none
        no_unwind
    {
        wipe(&mut self.shared_secret);
    }
}

/// The public keys of a peer that the initiator needs.
pub struct PeerPreKeyBundle {
    pub identity_key: VerifyingKey,
    pub signed_prekey: PublicKey,
    pub signed_prekey_id: u32,
    pub signed_prekey_signature: Signature,
    pub one_time_prekey: Option<(u32, PublicKey)>,
}

impl PeerPreKeyBundle {
    /// The signed pre-key carries the identity's signature.
    pub open spec fn authentic(&self) -> bool {
        ed25519_verifies(
            self.identity_key@,
            self.signed_prekey@,
            self.signed_prekey_signature@,
        )
    }

    /// The one-time pre-key, if the bundle has one.
    pub open spec fn spec_one_time(&self) -> Option<Seq<u8>> {
        match self.one_time_prekey {
            Some(pair) => Some(pair.1@),
            None => None,
        }
    }
}

/// The secret derived from three or four shared secrets.
pub open spec fn x3dh_secret(
    dh1: Seq<u8>,
    dh2: Seq<u8>,
    dh3: Seq<u8>,
    dh4: Option<Seq<u8>>,
) -> Seq<u8> {
    let tail = match dh4 {
        Some(dh4) => dh4,
        None => Seq::<u8>::empty(),
    };
    hkdf_sha256(
        ZERO_SALT@,
        X3DH_DOMAIN_SEPARATOR@ + dh1 + dh2 + dh3 + tail,
        HKDF_INFO_X3DH@,
        32,
    )
}

/// The initiator's side: its identity seed and ephemeral secret against the
/// peer's identity key, signed pre-key and one-time pre-key.
pub open spec fn x3dh_initiator(
    identity_seed: Seq<u8>,
    ephemeral_secret: Seq<u8>,
    peer_identity: Seq<u8>,
    peer_signed: Seq<u8>,
    peer_one_time: Option<Seq<u8>>,
) -> Seq<u8> {
    x3dh_secret(
        x25519(ed25519_scalar(identity_seed), peer_signed),
        x25519(ephemeral_secret, ed25519_montgomery(peer_identity)),
        x25519(ephemeral_secret, peer_signed),
        match peer_one_time {
            Some(key) => Some(x25519(ephemeral_secret, key)),
            None => None,
        },
    )
}

/// The responder's side: its identity seed and pre-key secrets against the
/// initiator's identity key and ephemeral key.
pub open spec fn x3dh_responder(
    identity_seed: Seq<u8>,
    signed_secret: Seq<u8>,
    one_time_secret: Option<Seq<u8>>,
    peer_identity: Seq<u8>,
    peer_ephemeral: Seq<u8>,
) -> Seq<u8> {
    x3dh_secret(
        x25519(signed_secret, ed25519_montgomery(peer_identity)),
        x25519(ed25519_scalar(identity_seed), peer_ephemeral),
        x25519(signed_secret, peer_ephemeral),
        match one_time_secret {
            Some(secret) => Some(x25519(secret, peer_ephemeral)),
            None => None,
        },
    )
}

/// Initiates X3DH with a peer's bundle: three or four key agreements,
/// depending on whether the bundle has a one-time pre-key.
///
/// It fails exactly if the signature of the signed pre-key does not verify.
/// Otherwise the secret belongs to some ephemeral key whose public half is
/// returned beside it.
pub fn alice_initiate(alice_identity: &IdentityKeyPair, bob_bundle: &PeerPreKeyBundle) -> (out:
    Result<X3dhInitResult, CryptoError>)
    ensures
        out is Ok <==> bob_bundle.authentic(),
        out matches Ok(result) ==> exists|ephemeral: Seq<u8>|
            {
                &&& #[trigger] dh_pair(ephemeral, result.ephemeral_public@)
                &&& result.shared_secret@ == x3dh_initiator(
                    alice_identity@,
                    ephemeral,
                    bob_bundle.identity_key@,
                    bob_bundle.signed_prekey@,
                    bob_bundle.spec_one_time(),
                )
            },
        out matches Err(error) ==> error is InvalidSignature,
{
    alice_initiate_with(alice_identity, bob_bundle, &EphemeralKeyPair::generate())
}

/// [`alice_initiate`] with a given ephemeral key.
pub fn alice_initiate_with(
    alice_identity: &IdentityKeyPair,
    bob_bundle: &PeerPreKeyBundle,
    ephemeral: &EphemeralKeyPair,
) -> (out: Result<X3dhInitResult, CryptoError>)
    ensures
        out is Ok <==> bob_bundle.authentic(),
        out matches Ok(result) ==> {
            &&& result.ephemeral_public@ == ephemeral.spec_public()
            &&& result.shared_secret@ == x3dh_initiator(
                alice_identity@,
                ephemeral.spec_secret(),
                bob_bundle.identity_key@,
                bob_bundle.signed_prekey@,
                bob_bundle.spec_one_time(),
            )
        },
        out matches Err(error) ==> error is InvalidSignature,
{
    match bob_bundle.identity_key.verify(
        bob_bundle.signed_prekey.as_bytes(),
        &bob_bundle.signed_prekey_signature,
    ) {
        Ok(()) => {},
        Err(error) => return Err(error),
    }
    let alice_secret = alice_identity.to_x25519_secret();
    let bob_identity = verifying_key_to_x25519(&bob_bundle.identity_key);
    let dh1 = alice_secret.diffie_hellman(&bob_bundle.signed_prekey);
    let dh2 = ephemeral.secret().diffie_hellman(&bob_identity);
    let dh3 = ephemeral.secret().diffie_hellman(&bob_bundle.signed_prekey);
    let dh4 = match &bob_bundle.one_time_prekey {
        Some(pair) => Some(ephemeral.secret().diffie_hellman(&pair.1)),
        None => None,
    };
    match derive_x3dh_secret(&dh1, &dh2, &dh3, &dh4) {
        Ok(shared_secret) => Ok(
            X3dhInitResult { shared_secret, ephemeral_public: *ephemeral.public() },
        ),
        Err(error) => Err(error),
    }
}

/// Answers an initiation. It succeeds on every input.
pub fn bob_respond(
    bob_identity: &IdentityKeyPair,
    bob_signed_prekey: &SignedPreKey,
    bob_one_time_prekey: Option<&OneTimePreKey>,
    alice_identity_key: &VerifyingKey,
    alice_ephemeral_key: &PublicKey,
) -> (out: Result<[u8; 32], CryptoError>)
    ensures
        out matches Ok(secret) && secret@ == x3dh_responder(
            bob_identity@,
            bob_signed_prekey.spec_secret(),
            match bob_one_time_prekey {
                Some(key) => Some(key.spec_secret()),
                None => None,
            },
            alice_identity_key@,
            alice_ephemeral_key@,
        ),
{
    let alice_identity = verifying_key_to_x25519(alice_identity_key);
    let bob_secret = bob_identity.to_x25519_secret();
    let dh1 = bob_signed_prekey.secret().diffie_hellman(&alice_identity);
    let dh2 = bob_secret.diffie_hellman(alice_ephemeral_key);
    let dh3 = bob_signed_prekey.secret().diffie_hellman(alice_ephemeral_key);
    let dh4 = match bob_one_time_prekey {
        Some(key) => Some(key.secret().diffie_hellman(alice_ephemeral_key)),
        None => None,
    };
    derive_x3dh_secret(&dh1, &dh2, &dh3, &dh4)
}

/// Concatenates the shared secrets behind the domain separator and derives
/// the agreed secret.
fn derive_x3dh_secret(
    dh1: &SharedSecret,
    dh2: &SharedSecret,
    dh3: &SharedSecret,
    dh4: &Option<SharedSecret>,
) -> (out: Result<[u8; 32], CryptoError>)
    ensures
        out matches Ok(secret) && secret@ == x3dh_secret(
            dh1@,
            dh2@,
            dh3@,
            match dh4 {
                Some(dh4) => Some(dh4@),
                None => None,
            },
        ),
{
    let mut ikm: Vec<u8> = Vec::with_capacity(160);
    push_all(&mut ikm, &X3DH_DOMAIN_SEPARATOR);
    push_all(&mut ikm, dh1.as_bytes());
    push_all(&mut ikm, dh2.as_bytes());
    push_all(&mut ikm, dh3.as_bytes());
    match dh4 {
        Some(dh4) => push_all(&mut ikm, dh4.as_bytes()),
        None => {},
    }
    assert(dh4 is None ==> ikm@ =~= X3DH_DOMAIN_SEPARATOR@ + dh1@ + dh2@ + dh3@
        + Seq::<u8>::empty());
    let derived = hkdf_expand(&ZERO_SALT, &ikm, &HKDF_INFO_X3DH, 32);
    wipe_vec(&mut ikm);
    match derived {
        Ok(mut okm) => {
            assert(okm@.subrange(0, 32) =~= okm@);
            let secret = array32_at(&okm, 0);
            wipe_vec(&mut okm);
            Ok(secret)
        },
        Err(error) => Err(error),
    }
}

/// Both sides of an X3DH exchange derive the same secret: the initiator from
/// the responder's public keys, the responder from its own secrets and the
/// initiator's identity and ephemeral keys. A one-time pre-key is used by both
/// or by neither.
pub proof fn law_x3dh_agreement(
    alice_seed: Seq<u8>,
    ephemeral_secret: Seq<u8>,
    ephemeral_public: Seq<u8>,
    bob_seed: Seq<u8>,
    signed_secret: Seq<u8>,
    signed_public: Seq<u8>,
    one_time: Option<(Seq<u8>, Seq<u8>)>,
)
    requires
        identity_converts(alice_seed),
        ed25519_scalar(alice_seed).len() == 32,
        identity_converts(bob_seed),
        ed25519_scalar(bob_seed).len() == 32,
        dh_pair(ephemeral_secret, ephemeral_public),
        dh_pair(signed_secret, signed_public),
        one_time matches Some(pair) ==> dh_pair(pair.0, pair.1),
    ensures
        x3dh_initiator(
            alice_seed,
            ephemeral_secret,
            ed25519_public(bob_seed),
            signed_public,
            match one_time {
                Some(pair) => Some(pair.1),
                None => None,
            },
        ) == x3dh_responder(
            bob_seed,
            signed_secret,
            match one_time {
                Some(pair) => Some(pair.0),
                None => None,
            },
            ed25519_public(alice_seed),
            ephemeral_public,
        ),
{
    let alice_scalar = ed25519_scalar(alice_seed);
    let bob_scalar = ed25519_scalar(bob_seed);
    assert(x25519(alice_scalar, signed_public) == x25519(
        signed_secret,
        x25519_base(alice_scalar),
    ));
    assert(x25519(bob_scalar, ephemeral_public) == x25519(
        ephemeral_secret,
        x25519_base(bob_scalar),
    ));
    assert(x25519(signed_secret, ephemeral_public) == x25519(
        ephemeral_secret,
        x25519_base(signed_secret),
    ));
    if let Some(pair) = one_time {
        assert(x25519(pair.0, ephemeral_public) == x25519(ephemeral_secret, x25519_base(pair.0)));
    }
}

} // verus!
