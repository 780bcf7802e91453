//! Keys and headers out of their text form.

use super::error::CryptoError;
use crate::bytes::{exact32, exact64};
use crate::crypto::ratchet::RatchetHeader;
use crate::encoding::decode;
use crate::protocol::types::RatchetHeader as WireHeader;
use vstd::prelude::*;

verus! {

use crate::encoding::base64_bytes;

/// The `len` bytes that `text` stands for. Text that is no base64 gives
/// `error`, another length a bad bundle.
pub open spec fn fixed_bytes(text: Seq<char>, len: nat, error: CryptoError) -> Result<
    Seq<u8>,
    CryptoError,
> {
    match base64_bytes(text) {
        None => Err(error),
        Some(bytes) => if bytes.len() == len {
            Ok(bytes)
        } else {
            Err(CryptoError::BadBundle)
        },
    }
}

/// Decodes base64 of exactly 32 bytes.
pub fn b64_decode_fixed32(encoded: &str, error: CryptoError) -> (out: Result<[u8; 32], CryptoError>)
    ensures
        match fixed_bytes(encoded@, 32, error) {
            Ok(bytes) => out matches Ok(array) && array@ == bytes,
            Err(reason) => out == Err::<[u8; 32], CryptoError>(reason),
        },
{
    match decode(encoded) {
        Some(bytes) => match exact32(&bytes) {
            Some(array) => Ok(array),
            None => Err(CryptoError::BadBundle),
        },
        None => Err(error),
    }
}

/// Decodes base64 of exactly 64 bytes.
pub fn b64_decode_fixed64(encoded: &str, error: CryptoError) -> (out: Result<[u8; 64], CryptoError>)
    ensures
        match fixed_bytes(encoded@, 64, error) {
            Ok(bytes) => out matches Ok(array) && array@ == bytes,
            Err(reason) => out == Err::<[u8; 64], CryptoError>(reason),
        },
{
    match decode(encoded) {
        Some(bytes) => match exact64(&bytes) {
            Some(array) => Ok(array),
            None => Err(CryptoError::BadBundle),
        },
        None => Err(error),
    }
}

/// `header` is what the wire form `wire` stands for.
pub open spec fn header_stands_for(wire: WireHeader, header: RatchetHeader) -> bool {
    &&& base64_bytes(wire.ratchet_key@) == Some(header.ratchet_key@)
    &&& header.previous_chain_length == wire.previous_chain_length
    &&& header.message_number == wire.message_number
}

/// Decodes a ratchet header.
pub fn decode_ratchet_header(wire: &WireHeader) -> (out: Result<RatchetHeader, CryptoError>)
    ensures
        match fixed_bytes(wire.ratchet_key@, 32, CryptoError::BadEnvelope) {
            Ok(_) => out matches Ok(header) && header_stands_for(*wire, header),
            Err(reason) => out == Err::<RatchetHeader, CryptoError>(reason),
        },
{
    match b64_decode_fixed32(wire.ratchet_key.as_str(), CryptoError::BadEnvelope) {
        Ok(ratchet_key) => Ok(
            RatchetHeader {
                ratchet_key,
                previous_chain_length: wire.previous_chain_length,
                message_number: wire.message_number,
            },
        ),
        Err(error) => Err(error),
    }
}

} // verus!
