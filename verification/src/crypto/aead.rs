//! Authenticated encryption of one message under its message key.

use super::error::CryptoError;
use super::kdf::derive_message_keys;
use super::primitives::{aes256gcm_decrypt, aes256gcm_encrypt};
use vstd::prelude::*;

verus! {

use super::kdf::{aes_key_of, nonce_of};
use super::primitives::{aes256gcm_open, aes256gcm_seal, sealable};

/// The ciphertext of a message under its message key.
pub open spec fn sealed(message_key: Seq<u8>, plaintext: Seq<u8>, aad: Seq<u8>) -> Seq<u8> {
    aes256gcm_seal(aes_key_of(message_key), nonce_of(message_key), plaintext, aad)
}

/// The message that a ciphertext opens to under a message key, if any.
pub open spec fn opened(message_key: Seq<u8>, ciphertext: Seq<u8>, aad: Seq<u8>) -> Option<
    Seq<u8>,
> {
    aes256gcm_open(aes_key_of(message_key), nonce_of(message_key), ciphertext, aad)
}

/// Encrypts `plaintext` with a nonce that the message key determines. `aad` is
/// authenticated but not encrypted.
///
/// It fails exactly on sizes that the cipher does not take, and what it
/// returns opens to `plaintext` under the same message key and `aad`.
pub fn encrypt(message_key: &[u8; 32], plaintext: &[u8], aad: &[u8]) -> (out: Result<
    Vec<u8>,
    CryptoError,
>)
    ensures
        out is Ok <==> sealable(plaintext@.len(), aad@.len()),
        out matches Ok(ciphertext) ==> {
            &&& ciphertext@ == sealed(message_key@, plaintext@, aad@)
            &&& ciphertext@.len() == plaintext@.len() + 16
            &&& opened(message_key@, ciphertext@, aad@) == Some(plaintext@)
        },
        out matches Err(error) ==> error is EncryptionFailed,
{
    if plaintext.len() > isize::MAX as usize - 16 {
        return Err(CryptoError::EncryptionFailed);
    }
    match derive_message_keys(message_key) {
        Ok(keys) => match aes256gcm_encrypt(&keys.aes_key, &keys.nonce, plaintext, aad) {
            Ok(ciphertext) => Ok(ciphertext),
            Err(_) => Err(CryptoError::EncryptionFailed),
        },
        Err(error) => Err(error),
    }
}

/// Decrypts what [`encrypt`] made. `aad` must be what it was then. What is
/// shorter than an authentication tag is refused.
pub fn decrypt(message_key: &[u8; 32], ciphertext: &[u8], aad: &[u8]) -> (out: Result<
    Vec<u8>,
    CryptoError,
>)
    ensures
        out is Ok <==> opened(message_key@, ciphertext@, aad@) is Some,
        out matches Ok(plaintext) ==> opened(message_key@, ciphertext@, aad@) == Some(plaintext@),
        out matches Ok(plaintext) ==> plaintext@.len() + 16 == ciphertext@.len(),
        out matches Err(error) ==> error is DecryptionFailed,
{
    match derive_message_keys(message_key) {
        Ok(keys) => match aes256gcm_decrypt(&keys.aes_key, &keys.nonce, ciphertext, aad) {
            Ok(plaintext) => Ok(plaintext),
            Err(_) => Err(CryptoError::DecryptionFailed),
        },
        Err(error) => Err(error),
    }
}

} // verus!
