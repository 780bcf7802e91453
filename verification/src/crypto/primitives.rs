//! The cryptographic primitives, each behind a function whose contract says
//! what the rest of the crate relies on.
//!
//! A primitive's result is a function of its arguments that no short formula
//! gives, so each has a name (`hkdf_sha256`, `x25519`, ...). Beside the names
//! stand the few algebraic facts that make a protocol out of them: opening
//! what was sealed, verifying what was signed, and agreement of the two sides
//! of a Diffie-Hellman exchange.

use vstd::prelude::*;

verus! {

/// HKDF-SHA-256 of input key material `ikm` with `salt` and `info`, expanded
/// to `len` bytes.
pub uninterp spec fn hkdf_sha256(salt: Seq<u8>, ikm: Seq<u8>, info: Seq<u8>, len: nat) -> Seq<u8>;

/// HMAC-SHA-256 of `data` under `key`.
pub uninterp spec fn hmac_sha256(key: Seq<u8>, data: Seq<u8>) -> Seq<u8>;

/// The SHA-512 digest of `data`.
pub uninterp spec fn sha512(data: Seq<u8>) -> Seq<u8>;

/// SHA-256.
pub uninterp spec fn sha256(data: Seq<u8>) -> Seq<u8>;

/// AES-256-GCM ciphertext, with its 16-byte tag at the end.
pub uninterp spec fn aes256gcm_seal(
    key: Seq<u8>,
    nonce: Seq<u8>,
    plaintext: Seq<u8>,
    aad: Seq<u8>,
) -> Seq<u8>;

/// What AES-256-GCM decryption gives back, if it accepts the tag.
pub uninterp spec fn aes256gcm_open(
    key: Seq<u8>,
    nonce: Seq<u8>,
    ciphertext: Seq<u8>,
    aad: Seq<u8>,
) -> Option<Seq<u8>>;

/// The X25519 shared secret of a secret key and a public key.
pub uninterp spec fn x25519(secret: Seq<u8>, public: Seq<u8>) -> Seq<u8>;

/// The X25519 public key of a secret key.
pub uninterp spec fn x25519_base(secret: Seq<u8>) -> Seq<u8>;

/// The Ed25519 public key of a secret seed.
pub uninterp spec fn ed25519_public(seed: Seq<u8>) -> Seq<u8>;

/// Whether the bytes decode to an Ed25519 public key.
pub uninterp spec fn ed25519_decodes(bytes: Seq<u8>) -> bool;

/// The Ed25519 signature of a message.
pub uninterp spec fn ed25519_sign(seed: Seq<u8>, message: Seq<u8>) -> Seq<u8>;

/// Whether an Ed25519 signature of a message verifies under a public key.
pub uninterp spec fn ed25519_verifies(
    public: Seq<u8>,
    message: Seq<u8>,
    signature: Seq<u8>,
) -> bool;

/// The X25519 secret key that belongs to an Ed25519 seed.
pub uninterp spec fn ed25519_scalar(seed: Seq<u8>) -> Seq<u8>;

/// The Montgomery form of an Ed25519 public key: an X25519 public key.
pub uninterp spec fn ed25519_montgomery(public: Seq<u8>) -> Seq<u8>;

/// A secret key and its public key, on which both sides of an exchange agree:
/// whoever holds another secret key `s` gets the same shared secret from
/// `public` as the holder of `secret` gets from the public key of `s`.
pub open spec fn dh_pair(secret: Seq<u8>, public: Seq<u8>) -> bool {
    &&& secret.len() == 32
    &&& public == x25519_base(secret)
    &&& forall|s: Seq<u8>|
        s.len() == 32 ==> #[trigger] x25519(s, public) == x25519(secret, x25519_base(s))
}

/// The sizes that AES-256-GCM takes: at most 2^36 bytes of plaintext and of
/// associated data, and a ciphertext that fits in memory.
pub open spec fn sealable(plaintext_len: nat, aad_len: nat) -> bool {
    &&& plaintext_len <= 0x10_0000_0000
    &&& aad_len <= 0x10_0000_0000
    &&& plaintext_len + 16 <= isize::MAX
}

/// The longest output of HKDF-SHA-256: 255 blocks of 32 bytes.
pub open spec fn hkdf_max_len() -> nat {
    8160
}

#[verifier::external_type_specification]
#[verifier::external_body]
pub struct ExHkdfInvalidLength(hkdf::InvalidLength);

/// `hkdf::Hkdf::<Sha256>::expand`, on a context made by `Hkdf::new`: fills
/// `len` bytes, and refuses exactly a length over 255 blocks of 32 bytes.
#[verifier::external_body]
pub(crate) fn hkdf_expand_sha256(salt: &[u8], ikm: &[u8], info: &[u8], len: usize) -> (out: Result<
    Vec<u8>,
    hkdf::InvalidLength,
>)
    requires
        len <= isize::MAX,
    ensures
        out is Ok <==> len <= hkdf_max_len(),
        out matches Ok(okm) ==> okm@.len() == len && okm@ == hkdf_sha256(
            salt@,
            ikm@,
            info@,
            len as nat,
        ),
{
    let mut okm = vec![0u8; len];
    hkdf::Hkdf::<sha2::Sha256>::new(Some(salt), ikm).expand(info, &mut okm)?;
    Ok(okm)
}

/// `hmac::Hmac::<Sha256>`, keyed by `new_from_slice`, which takes a key of any
/// length, and fed `data` once.
#[verifier::external_body]
pub(crate) fn hmac_of_sha256(key: &[u8; 32], data: &[u8]) -> (out: Option<[u8; 32]>)
    ensures
        out is Some,
        out->0@ == hmac_sha256(key@, data@),
{
    let mut mac = <hmac::Hmac<sha2::Sha256> as hmac::Mac>::new_from_slice(key).ok()?;
    hmac::Mac::update(&mut mac, data);
    Some(hmac::Mac::finalize(mac).into_bytes().into())
}

/// `sha2::Sha512::digest`: 64 bytes.
#[verifier::external_body]
pub(crate) fn sha512_digest(data: &[u8]) -> (out: [u8; 64])
    ensures
        out@ == sha512(data@),
{
    <sha2::Sha512 as sha2::Digest>::digest(data).into()
}

/// `sha2::Sha256::digest`.
#[verifier::external_body]
pub(crate) fn sha256_digest(data: &[u8]) -> (out: [u8; 32])
    ensures
        out@ == sha256(data@),
{
    <sha2::Sha256 as sha2::Digest>::digest(data).into()
}

#[verifier::external_type_specification]
#[verifier::external_body]
pub struct ExAeadError(aes_gcm::Error);

/// `aes_gcm::Aes256Gcm::encrypt` with associated data: fails exactly over the
/// size limits, and what it returns is 16 bytes longer than the plaintext and
/// opens to it under the same key, nonce and associated data.
#[verifier::external_body]
pub(crate) fn aes256gcm_encrypt(
    key: &[u8; 32],
    nonce: &[u8; 12],
    plaintext: &[u8],
    aad: &[u8],
) -> (out: Result<Vec<u8>, aes_gcm::Error>)
    requires
        plaintext@.len() + 16 <= isize::MAX,
    ensures
        out is Ok <==> sealable(plaintext@.len(), aad@.len()),
        out matches Ok(sealed) ==> {
            &&& sealed@ == aes256gcm_seal(key@, nonce@, plaintext@, aad@)
            &&& sealed@.len() == plaintext@.len() + 16
            &&& aes256gcm_open(key@, nonce@, sealed@, aad@) == Some(plaintext@)
        },
{
    let cipher = <aes_gcm::Aes256Gcm as aes_gcm::KeyInit>::new(key.into());
    let payload = aes_gcm::aead::Payload { msg: plaintext, aad };
    aes_gcm::aead::Aead::encrypt(&cipher, nonce.into(), payload)
}

/// `aes_gcm::Aes256Gcm::decrypt` with associated data. The tag is the last 16
/// bytes of the ciphertext, so that what is shorter is refused.
#[verifier::external_body]
pub(crate) fn aes256gcm_decrypt(
    key: &[u8; 32],
    nonce: &[u8; 12],
    ciphertext: &[u8],
    aad: &[u8],
) -> (out: Result<Vec<u8>, aes_gcm::Error>)
    ensures
        out is Ok <==> aes256gcm_open(key@, nonce@, ciphertext@, aad@) is Some,
        out matches Ok(plain) ==> aes256gcm_open(key@, nonce@, ciphertext@, aad@) == Some(plain@),
        out matches Ok(plain) ==> plain@.len() + 16 == ciphertext@.len(),
{
    let cipher = <aes_gcm::Aes256Gcm as aes_gcm::KeyInit>::new(key.into());
    let payload = aes_gcm::aead::Payload { msg: ciphertext, aad };
    aes_gcm::aead::Aead::decrypt(&cipher, nonce.into(), payload)
}

/// `x25519_dalek::StaticSecret::random_from_rng` with the system's generator:
/// 32 bytes of which nothing is promised.
#[verifier::external_body]
pub(crate) fn random_x25519_secret() -> (out: [u8; 32]) {
    x25519_dalek::StaticSecret::random_from_rng(rand::rngs::OsRng).to_bytes()
}

/// `x25519_dalek::PublicKey::from` on a static secret. The crate documents
/// that both sides of an exchange compute the same secret, for any two secret
/// keys, which are 32 arbitrary bytes each.
#[verifier::external_body]
pub(crate) fn x25519_public_key(secret: &[u8; 32]) -> (out: [u8; 32])
    ensures
        dh_pair(secret@, out@),
{
    x25519_dalek::PublicKey::from(&x25519_dalek::StaticSecret::from(*secret)).to_bytes()
}

/// `x25519_dalek::StaticSecret::diffie_hellman`.
#[verifier::external_body]
pub(crate) fn x25519_shared_secret(secret: &[u8; 32], public: &[u8; 32]) -> (out: [u8; 32])
    ensures
        out@ == x25519(secret@, public@),
{
    let ours = x25519_dalek::StaticSecret::from(*secret);
    ours.diffie_hellman(&x25519_dalek::PublicKey::from(*public)).to_bytes()
}

/// `ed25519_dalek::SigningKey::generate` with the system's generator: a seed
/// of which nothing is promised.
#[verifier::external_body]
pub(crate) fn random_ed25519_seed() -> (out: [u8; 32]) {
    ed25519_dalek::SigningKey::generate(&mut rand::rngs::OsRng).to_bytes()
}

/// `ed25519_dalek::SigningKey::verifying_key`. The bytes decode to a key, and
/// the crate documents that the key's Montgomery form is the X25519 public key
/// of the seed's scalar bytes.
#[verifier::external_body]
pub(crate) fn ed25519_public_key(seed: &[u8; 32]) -> (out: [u8; 32])
    ensures
        out@ == ed25519_public(seed@),
        ed25519_decodes(out@),
        ed25519_montgomery(out@) == x25519_base(ed25519_scalar(seed@)),
{
    ed25519_dalek::SigningKey::from_bytes(seed).verifying_key().to_bytes()
}

/// `ed25519_dalek::VerifyingKey::from_bytes`: whether it accepts the bytes.
#[verifier::external_body]
pub(crate) fn ed25519_accepts(bytes: &[u8; 32]) -> (out: bool)
    ensures
        out == ed25519_decodes(bytes@),
{
    ed25519_dalek::VerifyingKey::from_bytes(bytes).is_ok()
}

/// `ed25519_dalek::SigningKey::sign`: the signature verifies under the key's
/// own public key.
#[verifier::external_body]
pub(crate) fn ed25519_signature(seed: &[u8; 32], message: &[u8]) -> (out: [u8; 64])
    ensures
        out@ == ed25519_sign(seed@, message@),
        ed25519_verifies(ed25519_public(seed@), message@, out@),
{
    let key = ed25519_dalek::SigningKey::from_bytes(seed);
    ed25519_dalek::Signer::sign(&key, message).to_bytes()
}

/// `ed25519_dalek::VerifyingKey::verify`, on a key and a signature given by
/// their bytes; bytes that decode to no key verify nothing.
#[verifier::external_body]
pub(crate) fn ed25519_verify(public: &[u8; 32], message: &[u8], signature: &[u8; 64]) -> (out: bool)
    ensures
        out == ed25519_verifies(public@, message@, signature@),
{
    let signature = ed25519_dalek::Signature::from_bytes(signature);
    match ed25519_dalek::VerifyingKey::from_bytes(public) {
        Ok(key) => ed25519_dalek::Verifier::verify(&key, message, &signature).is_ok(),
        Err(_) => false,
    }
}

/// `ed25519_dalek::SigningKey::to_scalar_bytes`.
#[verifier::external_body]
pub(crate) fn ed25519_scalar_bytes(seed: &[u8; 32]) -> (out: [u8; 32])
    ensures
        out@ == ed25519_scalar(seed@),
{
    ed25519_dalek::SigningKey::from_bytes(seed).to_scalar_bytes()
}

/// `ed25519_dalek::VerifyingKey::to_montgomery`, on a key given by its bytes.
#[verifier::external_body]
pub(crate) fn ed25519_montgomery_bytes(public: &[u8; 32]) -> (out: Option<[u8; 32]>)
    ensures
        out is Some <==> ed25519_decodes(public@),
        out matches Some(u) ==> u@ == ed25519_montgomery(public@),
{
    let key = ed25519_dalek::VerifyingKey::from_bytes(public).ok()?;
    Some(key.to_montgomery().to_bytes())
}

/// `zeroize::Zeroize::zeroize` on an array: every byte becomes zero.
#[verifier::external_body]
pub(crate) fn wipe<const N: usize>(bytes: &mut [u8; N])
    ensures
        final(bytes)@ == Seq::new(N as nat, |i: int| 0u8),
    opens_invariants none
    no_unwind
{
    zeroize::Zeroize::zeroize(bytes);
}

/// `zeroize::Zeroize::zeroize` on a vector: every byte is overwritten with
/// zero and the vector is left empty.
#[verifier::external_body]
pub(crate) fn wipe_vec(bytes: &mut Vec<u8>)
    ensures
        final(bytes)@ == Seq::<u8>::empty(),
{
    zeroize::Zeroize::zeroize(bytes);
}

} // verus!
