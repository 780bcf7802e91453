//! Key derivation: HKDF and HMAC over SHA-256.

use super::error::CryptoError;
use super::primitives::{hkdf_expand_sha256, hmac_of_sha256, wipe, wipe_vec};
use crate::bytes::array32_at;
use vstd::prelude::*;

verus! {

use super::primitives::{hkdf_max_len, hkdf_sha256, hmac_sha256};

/// HKDF info of the root key ratchet, in ASCII: `CMP_RATCHET`.
pub const HKDF_INFO_RATCHET: [u8; 11] = [
    0x43, 0x4D, 0x50, 0x5F, 0x52, 0x41, 0x54, 0x43, 0x48, 0x45, 0x54,
];

/// HKDF info of the message keys, in ASCII: `CMP_MsgKey`.
pub const HKDF_INFO_MSG_KEY: [u8; 10] = [
    0x43, 0x4D, 0x50, 0x5F, 0x4D, 0x73, 0x67, 0x4B, 0x65, 0x79,
];

/// HKDF info of the X3DH secret, in ASCII: `CMP_X3DH`.
pub const HKDF_INFO_X3DH: [u8; 8] = [0x43, 0x4D, 0x50, 0x5F, 0x58, 0x33, 0x44, 0x48];

/// A salt of 32 zero bytes.
pub const ZERO_SALT: [u8; 32] = [
    0, 0, 0, 0, 0, 0, 0, 0, 0, 0, 0, 0, 0, 0, 0, 0, 0, 0, 0, 0, 0, 0, 0, 0, 0, 0, 0, 0, 0, 0, 0, 0,
];

/// Root key and chain key, the output of [`kdf_rk`].
pub struct RootKeyOutput {
    pub root_key: [u8; 32],
    pub chain_key: [u8; 32],
}

/// Next chain key and message key, the output of [`kdf_ck`].
pub struct ChainKeyOutput {
    pub chain_key: [u8; 32],
    pub message_key: [u8; 32],
}

/// The AES-256-GCM key and nonce of one message.
pub struct MessageKeys {
    pub aes_key: [u8; 32],
    pub nonce: [u8; 12],
}

impl Drop for RootKeyOutput {
    fn drop(&mut self)
        opens_invariants none
        no_unwind
    {
        wipe(&mut self.root_key);
        wipe(&mut self.chain_key);
    }
}

impl Drop for ChainKeyOutput {
    fn drop(&mut self)
        opens_invariants none
        no_unwind
    {
        wipe(&mut self.chain_key);
        wipe(&mut self.message_key);
    }
}

impl Drop for MessageKeys {
    fn drop(&mut self)
        opens_invariants none
        no_unwind
    {
        wipe(&mut self.aes_key);
        wipe(&mut self.nonce);
    }
}

/// Both outputs of the root key ratchet in one string: 32 bytes of root key,
/// then 32 bytes of chain key.
pub open spec fn root_step(root_key: Seq<u8>, dh_output: Seq<u8>) -> Seq<u8> {
    hkdf_sha256(root_key, dh_output, HKDF_INFO_RATCHET@, 64)
}

/// The root key after a ratchet step.
pub open spec fn next_root(root_key: Seq<u8>, dh_output: Seq<u8>) -> Seq<u8> {
    root_step(root_key, dh_output).subrange(0, 32)
}

/// The chain key that a ratchet step starts.
pub open spec fn fresh_chain(root_key: Seq<u8>, dh_output: Seq<u8>) -> Seq<u8> {
    root_step(root_key, dh_output).subrange(32, 64)
}

/// The key of the next message of a chain.
pub open spec fn message_key_of(chain_key: Seq<u8>) -> Seq<u8> {
    hmac_sha256(chain_key, seq![1u8])
}

/// The chain key after one message.
pub open spec fn next_chain(chain_key: Seq<u8>) -> Seq<u8> {
    hmac_sha256(chain_key, seq![2u8])
}

/// AES key (32 bytes) and nonce (12 bytes) of a message key, in one string.
pub open spec fn message_secret(message_key: Seq<u8>) -> Seq<u8> {
    hkdf_sha256(ZERO_SALT@, message_key, HKDF_INFO_MSG_KEY@, 44)
}

/// The AES-256 key of a message key.
pub open spec fn aes_key_of(message_key: Seq<u8>) -> Seq<u8> {
    message_secret(message_key).subrange(0, 32)
}

/// The GCM nonce of a message key.
pub open spec fn nonce_of(message_key: Seq<u8>) -> Seq<u8> {
    message_secret(message_key).subrange(32, 44)
}

/// HKDF-SHA-256 of `ikm`, expanded to `len` bytes.
pub(crate) fn hkdf_expand(salt: &[u8], ikm: &[u8], info: &[u8], len: usize) -> (out: Result<
    Vec<u8>,
    CryptoError,
>)
    requires
        len <= isize::MAX,
    ensures
        out is Ok <==> len <= hkdf_max_len(),
        out matches Ok(okm) ==> okm@.len() == len && okm@ == hkdf_sha256(
            salt@,
            ikm@,
            info@,
            len as nat,
        ),
        out matches Err(error) ==> error is KdfFailure,
{
    match hkdf_expand_sha256(salt, ikm, info, len) {
        Ok(okm) => Ok(okm),
        Err(_) => Err(CryptoError::KdfFailure),
    }
}

/// Root key KDF: derives a new root key and chain key from a DH output. It
/// succeeds on every input.
pub fn kdf_rk(root_key: &[u8; 32], dh_output: &[u8; 32]) -> (out: Result<
    RootKeyOutput,
    CryptoError,
>)
    ensures
        root_step(root_key@, dh_output@).len() == 64,
        out matches Ok(keys) && keys.root_key@ == next_root(root_key@, dh_output@)
            && keys.chain_key@ == fresh_chain(root_key@, dh_output@),
{
    let mut output = match hkdf_expand(root_key, dh_output, &HKDF_INFO_RATCHET, 64) {
        Ok(okm) => okm,
        Err(error) => return Err(error),
    };
    let result = RootKeyOutput {
        root_key: array32_at(&output, 0),
        chain_key: array32_at(&output, 32),
    };
    wipe_vec(&mut output);
    Ok(result)
}

/// Chain KDF: the message key is the HMAC of the byte 1 under the chain key,
/// the next chain key that of the byte 2. It succeeds on every input.
pub fn kdf_ck(chain_key: &[u8; 32]) -> (out: Result<ChainKeyOutput, CryptoError>)
    ensures
        out matches Ok(keys) && keys.message_key@ == message_key_of(chain_key@)
            && keys.chain_key@ == next_chain(chain_key@),
{
    let one: [u8; 1] = [1];
    let two: [u8; 1] = [2];
    assert(one@ =~= seq![1u8]);
    assert(two@ =~= seq![2u8]);
    match (hmac_of_sha256(chain_key, &one), hmac_of_sha256(chain_key, &two)) {
        (Some(message_key), Some(new_chain_key)) => Ok(
            ChainKeyOutput { chain_key: new_chain_key, message_key },
        ),
        _ => Err(CryptoError::KdfFailure),
    }
}

/// AES-256-GCM key and nonce from a message key. It succeeds on every input.
pub fn derive_message_keys(message_key: &[u8; 32]) -> (out: Result<MessageKeys, CryptoError>)
    ensures
        message_secret(message_key@).len() == 44,
        out matches Ok(keys) && keys.aes_key@ == aes_key_of(message_key@) && keys.nonce@
            == nonce_of(message_key@),
{
    let mut output = match hkdf_expand(&ZERO_SALT, message_key, &HKDF_INFO_MSG_KEY, 44) {
        Ok(okm) => okm,
        Err(error) => return Err(error),
    };
    let aes_key = array32_at(&output, 0);
    let mut nonce: [u8; 12] = [0u8; 12];
    let mut i: usize = 0;
    while i < 12
        invariant
            i <= 12,
            output@.len() == 44,
            forall|j: int| 0 <= j < i ==> nonce@[j] == output@[32 + j],
        decreases 12 - i,
    {
        nonce[i] = output[32 + i];
        i += 1;
    }
    assert(nonce@ =~= output@.subrange(32, 44));
    wipe_vec(&mut output);
    Ok(MessageKeys { aes_key, nonce })
}

} // verus!
