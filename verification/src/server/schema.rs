//! The versions of the database.

use crate::protocol::consts::PROTOCOL_VERSION;
use crate::text::push_decimal;
use vstd::prelude::*;
use vstd::string::*;

verus! {

use crate::text::decimal;

/// The version that this relay works with.
pub const CURRENT_VERSION: u32 = 8;

/// The highest identifier of a one-time pre-key from before identifiers were
/// kept track of.
pub const LEGACY_HIGH_WATER: u32 = 0x7FFF_FFFF;

/// The migrations that bring a database of some version up to date: each
/// version after it, in order.
pub fn pending_migrations(version: u32) -> (out: Vec<u32>)
    ensures
        out@.len() == (if version < CURRENT_VERSION { CURRENT_VERSION - version } else { 0 }),
        forall|i: int| 0 <= i < out@.len() ==> #[trigger] out@[i] == version + 1 + i,
{
    let mut out: Vec<u32> = Vec::new();
    let mut next: u32 = version;
    while next < CURRENT_VERSION
        invariant
            version <= next,
            version < CURRENT_VERSION ==> next <= CURRENT_VERSION,
            version >= CURRENT_VERSION ==> next == version,
            out@.len() == next - version,
            forall|i: int| 0 <= i < out@.len() ==> #[trigger] out@[i] == version + 1 + i,
        decreases CURRENT_VERSION - next,
    {
        next += 1;
        out.push(next);
    }
    out
}

/// Refuses to start with a queued envelope of another protocol version: there
/// is no fallback. `version` is that of the envelope.
pub fn check_queued_version(version: u32) -> (out: Result<(), String>)
    ensures
        match out {
            Ok(_) => version == PROTOCOL_VERSION,
            Err(message) => version != PROTOCOL_VERSION && message@
                == "queued ciphertext uses protocol version "@ + decimal(version as nat)
                + "; drain or reset queued data before starting protocol version "@ + decimal(
                PROTOCOL_VERSION as nat,
            ),
        },
{
    if version == PROTOCOL_VERSION {
        return Ok(());
    }
    let mut message = "queued ciphertext uses protocol version ".to_owned();
    push_decimal(&mut message, version as u64);
    message.append("; drain or reset queued data before starting protocol version ");
    push_decimal(&mut message, PROTOCOL_VERSION as u64);
    Err(message)
}

} // verus!
