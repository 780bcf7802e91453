//! Key material: identity keys, pre-keys, ephemeral keys and ratchet keys.

use super::error::CryptoError;
use super::primitives::{
    ed25519_accepts, ed25519_montgomery_bytes, ed25519_public_key, ed25519_scalar_bytes,
    ed25519_signature, ed25519_verify, random_ed25519_seed, random_x25519_secret, wipe,
    x25519_public_key, x25519_shared_secret,
};
use vstd::prelude::*;

verus! {

use super::primitives::{
    dh_pair, ed25519_decodes, ed25519_montgomery, ed25519_public, ed25519_scalar, ed25519_sign,
    ed25519_verifies, x25519, x25519_base,
};

/// An X25519 public key.
#[derive(Clone, Copy, Debug, PartialEq, Eq)]
pub struct PublicKey {
    bytes: [u8; 32],
}

impl View for PublicKey {
    type V = Seq<u8>;

    closed spec fn view(&self) -> Seq<u8> {
        self.bytes@
    }
}

impl PublicKey {
    /// The public key with the given bytes.
    pub fn from_bytes(bytes: [u8; 32]) -> (out: Self)
        ensures
            out@ == bytes@,
    {
        PublicKey { bytes }
    }

    pub fn as_bytes(&self) -> (out: &[u8; 32])
        ensures
            out@ == self@,
    {
        &self.bytes
    }

    pub fn to_bytes(&self) -> (out: [u8; 32])
        ensures
            out@ == self@,
    {
        self.bytes
    }
}

/// An Ed25519 signature.
#[derive(Clone, Copy, Debug, PartialEq, Eq)]
pub struct Signature {
    bytes: [u8; 64],
}

impl View for Signature {
    type V = Seq<u8>;

    closed spec fn view(&self) -> Seq<u8> {
        self.bytes@
    }
}

impl Signature {
    /// The signature with the given bytes.
    pub fn from_bytes(bytes: [u8; 64]) -> (out: Self)
        ensures
            out@ == bytes@,
    {
        Signature { bytes }
    }

    pub fn to_bytes(&self) -> (out: [u8; 64])
        ensures
            out@ == self@,
    {
        self.bytes
    }
}

/// An Ed25519 public key: 32 bytes that decode to a key.
#[derive(Clone, Copy, Debug, PartialEq, Eq)]
pub struct VerifyingKey {
    bytes: [u8; 32],
}

impl View for VerifyingKey {
    type V = Seq<u8>;

    closed spec fn view(&self) -> Seq<u8> {
        self.bytes@
    }
}

impl VerifyingKey {
    #[verifier::type_invariant]
    spec fn inv(self) -> bool {
        ed25519_decodes(self.bytes@)
    }

    /// The key with the given bytes, if they decode to one.
    pub fn from_bytes(bytes: &[u8; 32]) -> (out: Option<Self>)
        ensures
            out is Some <==> ed25519_decodes(bytes@),
            out matches Some(key) ==> key@ == bytes@,
    {
        if ed25519_accepts(bytes) {
            Some(VerifyingKey { bytes: *bytes })
        } else {
            None
        }
    }

    pub fn as_bytes(&self) -> (out: &[u8; 32])
        ensures
            out@ == self@,
            ed25519_decodes(out@),
    {
        proof {
            use_type_invariant(self);
        }
        &self.bytes
    }

    pub fn to_bytes(&self) -> (out: [u8; 32])
        ensures
            out@ == self@,
            ed25519_decodes(out@),
    {
        proof {
            use_type_invariant(self);
        }
        self.bytes
    }

    /// Whether `signature` is this key's signature of `message`.
    pub fn verify(&self, message: &[u8], signature: &Signature) -> (out: Result<(), CryptoError>)
        ensures
            out is Ok <==> ed25519_verifies(self@, message@, signature@),
            out matches Err(error) ==> error is InvalidSignature,
    {
        if ed25519_verify(&self.bytes, message, &signature.bytes) {
            Ok(())
        } else {
            Err(CryptoError::InvalidSignature)
        }
    }
}

/// The secret that two parties share after a Diffie-Hellman exchange.
pub struct SharedSecret {
    bytes: [u8; 32],
}

impl View for SharedSecret {
    type V = Seq<u8>;

    closed spec fn view(&self) -> Seq<u8> {
        self.bytes@
    }
}

impl SharedSecret {
    pub fn as_bytes(&self) -> (out: &[u8; 32])
        ensures
            out@ == self@,
    {
        &self.bytes
    }
}

impl Drop for SharedSecret {
    fn drop(&mut self)
        opens_invariants none
        no_unwind
    {
        wipe(&mut self.bytes);
    }
}

/// An X25519 secret key that is overwritten when it goes out of use.
pub struct ZeroizingStaticSecret {
    bytes: [u8; 32],
}

impl View for ZeroizingStaticSecret {
    type V = Seq<u8>;

    closed spec fn view(&self) -> Seq<u8> {
        self.bytes@
    }
}

impl Drop for ZeroizingStaticSecret {
    fn drop(&mut self)
        opens_invariants none
        no_unwind
    {
        wipe(&mut self.bytes);
    }
}

impl ZeroizingStaticSecret {
    /// A secret key from the system's random number generator.
    pub fn random() -> (out: Self)
        ensures
            out@.len() == 32,
    {
        ZeroizingStaticSecret { bytes: random_x25519_secret() }
    }

    /// The secret key with the given bytes.
    pub fn from_bytes(bytes: [u8; 32]) -> (out: Self)
        ensures
            out@ == bytes@,
    {
        ZeroizingStaticSecret { bytes }
    }

    /// The secret shared with the holder of `their_public`.
    pub fn diffie_hellman(&self, their_public: &PublicKey) -> (out: SharedSecret)
        ensures
            out@ == x25519(self@, their_public@),
    {
        SharedSecret { bytes: x25519_shared_secret(&self.bytes, &their_public.bytes) }
    }

    /// The public half of this key.
    pub fn to_public(&self) -> (out: PublicKey)
        ensures
            dh_pair(self@, out@),
    {
        PublicKey { bytes: x25519_public_key(&self.bytes) }
    }

    pub fn to_bytes(&self) -> (out: [u8; 32])
        ensures
            out@ == self@,
    {
        self.bytes
    }
}

/// An Ed25519 signing key with its public half.
pub struct SigningKey {
    seed: [u8; 32],
    verifying_key: VerifyingKey,
}

impl View for SigningKey {
    type V = Seq<u8>;

    closed spec fn view(&self) -> Seq<u8> {
        self.seed@
    }
}

impl Drop for SigningKey {
    fn drop(&mut self)
        opens_invariants none
        no_unwind
    {
        wipe(&mut self.seed);
    }
}

impl SigningKey {
    /// The public half belongs to the seed, and its Montgomery form is the
    /// X25519 public key of the seed's scalar.
    pub closed spec fn wf(&self) -> bool {
        &&& self.verifying_key@ == ed25519_public(self@)
        &&& identity_converts(self@)
    }

    fn from_seed(seed: [u8; 32]) -> (out: Self)
        ensures
            out@ == seed@,
            out.wf(),
    {
        let bytes = ed25519_public_key(&seed);
        SigningKey { seed, verifying_key: VerifyingKey { bytes } }
    }

    /// The public half of this key.
    pub fn verifying_key(&self) -> (out: VerifyingKey)
        requires
            self.wf(),
        ensures
            out@ == ed25519_public(self@),
            identity_converts(self@),
    {
        self.verifying_key
    }

    /// Signs `message`. The signature verifies under the public half.
    pub fn sign(&self, message: &[u8]) -> (out: Signature)
        ensures
            out@ == ed25519_sign(self@, message@),
            ed25519_verifies(ed25519_public(self@), message@, out@),
    {
        Signature { bytes: ed25519_signature(&self.seed, message) }
    }
}

/// The X25519 key that an identity's secret seed gives is the one that others
/// compute from its public key.
pub open spec fn identity_converts(seed: Seq<u8>) -> bool {
    ed25519_montgomery(ed25519_public(seed)) == x25519_base(ed25519_scalar(seed))
}

/// Long-term identity key pair: Ed25519 for signing, convertible to X25519
/// for key agreement.
pub struct IdentityKeyPair {
    signing_key: SigningKey,
}

impl View for IdentityKeyPair {
    type V = Seq<u8>;

    /// The secret seed.
    closed spec fn view(&self) -> Seq<u8> {
        self.signing_key@
    }
}

impl IdentityKeyPair {
    #[verifier::type_invariant]
    spec fn inv(self) -> bool {
        self.signing_key.wf()
    }

    /// The public identity key.
    pub open spec fn public_bytes(&self) -> Seq<u8> {
        ed25519_public(self@)
    }

    /// An identity from the system's random number generator.
    pub fn generate() -> (out: Self)
        ensures
            identity_converts(out@),
    {
        IdentityKeyPair { signing_key: SigningKey::from_seed(random_ed25519_seed()) }
    }

    /// The identity with the given secret seed.
    pub fn from_bytes(bytes: &[u8; 32]) -> (out: Self)
        ensures
            out@ == bytes@,
            identity_converts(out@),
    {
        IdentityKeyPair { signing_key: SigningKey::from_seed(*bytes) }
    }

    pub fn signing_key(&self) -> (out: &SigningKey)
        ensures
            out@ == self@,
            out.wf(),
    {
        proof {
            use_type_invariant(self);
        }
        &self.signing_key
    }

    pub fn verifying_key(&self) -> (out: VerifyingKey)
        ensures
            out@ == self.public_bytes(),
    {
        proof {
            use_type_invariant(self);
        }
        self.signing_key.verifying_key()
    }

    /// The X25519 secret key of this identity.
    pub fn to_x25519_secret(&self) -> (out: ZeroizingStaticSecret)
        ensures
            out@ == ed25519_scalar(self@),
            out@.len() == 32,
            identity_converts(self@),
    {
        proof {
            use_type_invariant(self);
        }
        ZeroizingStaticSecret { bytes: ed25519_scalar_bytes(&self.signing_key.seed) }
    }

    /// The X25519 public key of this identity.
    pub fn to_x25519_public(&self) -> (out: PublicKey)
        ensures
            out@ == ed25519_montgomery(self.public_bytes()),
            out@ == x25519_base(ed25519_scalar(self@)),
    {
        proof {
            use_type_invariant(self);
        }
        verifying_key_to_x25519(&self.verifying_key())
    }

    /// The secret seed, for persistence.
    pub fn to_bytes(&self) -> (out: [u8; 32])
        ensures
            out@ == self@,
    {
        self.signing_key.seed
    }
}

/// The X25519 public key (Montgomery form) of an Ed25519 public key.
pub fn verifying_key_to_x25519(key: &VerifyingKey) -> (out: PublicKey)
    ensures
        out@ == ed25519_montgomery(key@),
{
    proof {
        use_type_invariant(key);
    }
    match ed25519_montgomery_bytes(&key.bytes) {
        Some(bytes) => PublicKey { bytes },
        None => vstd::pervasive::unreached(),
    }
}

/// A signed pre-key: an X25519 key pair with an Ed25519 signature of its
/// public half.
pub struct SignedPreKey {
    key_id: u32,
    secret: ZeroizingStaticSecret,
    public: PublicKey,
    signature: Signature,
}

impl SignedPreKey {
    pub closed spec fn spec_key_id(&self) -> u32 {
        self.key_id
    }

    pub closed spec fn spec_secret(&self) -> Seq<u8> {
        self.secret@
    }

    pub closed spec fn spec_public(&self) -> Seq<u8> {
        self.public@
    }

    pub closed spec fn spec_signature(&self) -> Seq<u8> {
        self.signature@
    }

    /// The two halves belong together.
    pub open spec fn wf(&self) -> bool {
        dh_pair(self.spec_secret(), self.spec_public())
    }

    /// A new signed pre-key with a random secret, signed by `identity`.
    pub fn generate(key_id: u32, identity: &IdentityKeyPair) -> (out: Self)
        ensures
            out.spec_key_id() == key_id,
            out.wf(),
            out.spec_signature() == ed25519_sign(identity@, out.spec_public()),
            ed25519_verifies(identity.public_bytes(), out.spec_public(), out.spec_signature()),
    {
        let secret = ZeroizingStaticSecret::random();
        let public = secret.to_public();
        let signature = identity.signing_key().sign(public.as_bytes());
        SignedPreKey { key_id, secret, public, signature }
    }

    /// The signed pre-key with the given parts, which are not checked.
    pub fn from_parts(
        key_id: u32,
        secret_bytes: [u8; 32],
        public_bytes: [u8; 32],
        signature: Signature,
    ) -> (out: Self)
        ensures
            out.spec_key_id() == key_id,
            out.spec_secret() == secret_bytes@,
            out.spec_public() == public_bytes@,
            out.spec_signature() == signature@,
    {
        SignedPreKey {
            key_id,
            secret: ZeroizingStaticSecret::from_bytes(secret_bytes),
            public: PublicKey::from_bytes(public_bytes),
            signature,
        }
    }

    pub fn key_id(&self) -> (out: u32)
        ensures
            out == self.spec_key_id(),
    {
        self.key_id
    }

    pub fn secret(&self) -> (out: &ZeroizingStaticSecret)
        ensures
            out@ == self.spec_secret(),
    {
        &self.secret
    }

    pub fn public(&self) -> (out: &PublicKey)
        ensures
            out@ == self.spec_public(),
    {
        &self.public
    }

    pub fn signature(&self) -> (out: &Signature)
        ensures
            out@ == self.spec_signature(),
    {
        &self.signature
    }

    /// Checks the signature against the signer's identity key.
    pub fn verify(&self, identity_key: &VerifyingKey) -> (out: Result<(), CryptoError>)
        ensures
            out is Ok <==> ed25519_verifies(
                identity_key@,
                self.spec_public(),
                self.spec_signature(),
            ),
            out matches Err(error) ==> error is InvalidSignature,
    {
        identity_key.verify(self.public.as_bytes(), &self.signature)
    }

    /// A copy of this key.
    pub fn duplicate(&self) -> (out: Self)
        ensures
            out.spec_key_id() == self.spec_key_id(),
            out.spec_secret() == self.spec_secret(),
            out.spec_public() == self.spec_public(),
            out.spec_signature() == self.spec_signature(),
    {
        SignedPreKey::from_parts(
            self.key_id,
            self.secret.bytes,
            self.public.bytes,
            self.signature,
        )
    }
}

/// A one-time pre-key: an X25519 key pair that one handshake consumes.
pub struct OneTimePreKey {
    key_id: u32,
    secret: ZeroizingStaticSecret,
    public: PublicKey,
}

impl OneTimePreKey {
    pub closed spec fn spec_key_id(&self) -> u32 {
        self.key_id
    }

    pub closed spec fn spec_secret(&self) -> Seq<u8> {
        self.secret@
    }

    pub closed spec fn spec_public(&self) -> Seq<u8> {
        self.public@
    }

    /// The two halves belong together.
    pub open spec fn wf(&self) -> bool {
        dh_pair(self.spec_secret(), self.spec_public())
    }

    /// A new one-time pre-key with a random secret.
    pub fn generate(key_id: u32) -> (out: Self)
        ensures
            out.spec_key_id() == key_id,
            out.wf(),
    {
        let secret = ZeroizingStaticSecret::random();
        let public = secret.to_public();
        OneTimePreKey { key_id, secret, public }
    }

    /// The one-time pre-key with the given parts, which are not checked.
    pub fn from_parts(key_id: u32, secret_bytes: [u8; 32], public_bytes: [u8; 32]) -> (out: Self)
        ensures
            out.spec_key_id() == key_id,
            out.spec_secret() == secret_bytes@,
            out.spec_public() == public_bytes@,
    {
        OneTimePreKey {
            key_id,
            secret: ZeroizingStaticSecret::from_bytes(secret_bytes),
            public: PublicKey::from_bytes(public_bytes),
        }
    }

    pub fn key_id(&self) -> (out: u32)
        ensures
            out == self.spec_key_id(),
    {
        self.key_id
    }

    pub fn secret(&self) -> (out: &ZeroizingStaticSecret)
        ensures
            out@ == self.spec_secret(),
    {
        &self.secret
    }

    pub fn public(&self) -> (out: &PublicKey)
        ensures
            out@ == self.spec_public(),
    {
        &self.public
    }
}

/// A batch of one-time pre-keys with sequential identifiers from `start_id`.
///
/// It fails exactly if `start_id + count` does not fit in 32 bits.
pub fn generate_one_time_prekeys(start_id: u32, count: u32) -> (out: Result<
    Vec<OneTimePreKey>,
    CryptoError,
>)
    ensures
        out is Ok <==> start_id + count <= u32::MAX,
        out matches Ok(keys) ==> {
            &&& keys@.len() == count
            &&& forall|i: int|
                0 <= i < count ==> {
                    &&& (#[trigger] keys@[i]).spec_key_id() == start_id + i
                    &&& keys@[i].wf()
                }
        },
        out matches Err(error) ==> error matches CryptoError::InvalidBundle(reason) && reason@
            == "pre-key ID range overflow"@,
{
    let end: u32 = match start_id.checked_add(count) {
        Some(end) => end,
        None => return Err(CryptoError::InvalidBundle("pre-key ID range overflow".to_owned())),
    };
    let mut keys: Vec<OneTimePreKey> = Vec::new();
    let mut next: u32 = start_id;
    while next < end
        invariant
            start_id <= next <= end,
            end == start_id + count,
            keys@.len() == next - start_id,
            forall|i: int|
                0 <= i < keys@.len() ==> {
                    &&& (#[trigger] keys@[i]).spec_key_id() == start_id + i
                    &&& keys@[i].wf()
                },
        decreases end - next,
    {
        keys.push(OneTimePreKey::generate(next));
        next += 1;
    }
    Ok(keys)
}

/// Ephemeral X25519 key pair of one key agreement.
pub struct EphemeralKeyPair {
    secret: ZeroizingStaticSecret,
    public: PublicKey,
}

impl EphemeralKeyPair {
    pub closed spec fn spec_secret(&self) -> Seq<u8> {
        self.secret@
    }

    pub closed spec fn spec_public(&self) -> Seq<u8> {
        self.public@
    }

    /// The two halves belong together.
    pub open spec fn wf(&self) -> bool {
        dh_pair(self.spec_secret(), self.spec_public())
    }

    /// A key pair with a random secret.
    pub fn generate() -> (out: Self)
        ensures
            out.wf(),
    {
        EphemeralKeyPair::from_secret(ZeroizingStaticSecret::random())
    }

    /// The key pair with the given secret.
    pub fn from_secret(secret: ZeroizingStaticSecret) -> (out: Self)
        ensures
            out.spec_secret() == secret@,
            out.wf(),
    {
        let public = secret.to_public();
        EphemeralKeyPair { secret, public }
    }

    pub fn secret(&self) -> (out: &ZeroizingStaticSecret)
        ensures
            out@ == self.spec_secret(),
    {
        &self.secret
    }

    pub fn public(&self) -> (out: &PublicKey)
        ensures
            out@ == self.spec_public(),
    {
        &self.public
    }
}

/// A ratchet key pair, in the form in which sessions are kept.
pub struct RatchetKeyPair {
    pub secret_bytes: [u8; 32],
    pub public_bytes: [u8; 32],
}

impl Drop for RatchetKeyPair {
    fn drop(&mut self)
        opens_invariants none
        no_unwind
    {
        wipe(&mut self.secret_bytes);
        wipe(&mut self.public_bytes);
    }
}

impl Clone for RatchetKeyPair {
    fn clone(&self) -> (out: Self)
        ensures
            out == *self,
    {
        RatchetKeyPair { secret_bytes: self.secret_bytes, public_bytes: self.public_bytes }
    }
}

impl RatchetKeyPair {
    /// The two halves belong together.
    pub open spec fn wf(&self) -> bool {
        dh_pair(self.secret_bytes@, self.public_bytes@)
    }

    /// A key pair with a random secret.
    pub fn generate() -> (out: Self)
        ensures
            out.wf(),
    {
        let secret = ZeroizingStaticSecret::random();
        let public = secret.to_public();
        RatchetKeyPair { secret_bytes: secret.to_bytes(), public_bytes: public.to_bytes() }
    }

    /// The key pair with the given halves, which are not checked.
    pub fn from_bytes(secret_bytes: [u8; 32], public_bytes: [u8; 32]) -> (out: Self)
        ensures
            out.secret_bytes == secret_bytes,
            out.public_bytes == public_bytes,
    {
        RatchetKeyPair { secret_bytes, public_bytes }
    }

    pub fn to_secret(&self) -> (out: ZeroizingStaticSecret)
        ensures
            out@ == self.secret_bytes@,
    {
        ZeroizingStaticSecret::from_bytes(self.secret_bytes)
    }

    pub fn to_public(&self) -> (out: PublicKey)
        ensures
            out@ == self.public_bytes@,
    {
        PublicKey::from_bytes(self.public_bytes)
    }
}

/// Both sides of an exchange compute the same secret: the holder of the secret
/// key `a` from the public key of `b`, and the other way round.
pub proof fn law_key_agreement(
    a_secret: Seq<u8>,
    a_public: Seq<u8>,
    b_secret: Seq<u8>,
    b_public: Seq<u8>,
)
    requires
        dh_pair(a_secret, a_public),
        dh_pair(b_secret, b_public),
    ensures
        x25519(a_secret, b_public) == x25519(b_secret, a_public),
{
    assert(x25519(a_secret, b_public) == x25519(b_secret, x25519_base(a_secret)));
}

} // verus!
