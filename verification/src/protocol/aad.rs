//! Canonical associated-data context for encrypted envelopes.
//!
//! The Double Ratchet appends its fixed ratchet header to this context before
//! AEAD encryption. Keeping the envelope portion here gives every client one
//! byte-exact protocol encoding without depending on JSON serialization.

use crate::bytes::{push_all, push_be32};
use vstd::prelude::*;

verus! {

use crate::bytes::{be32, lemma_be32_injective};

/// The domain of the context, in ASCII: `CMP_ENVELOPE_AAD`.
pub const DOMAIN: [u8; 16] = [
    0x43, 0x4D, 0x50, 0x5F, 0x45, 0x4E, 0x56, 0x45, 0x4C, 0x4F, 0x50, 0x45, 0x5F, 0x41, 0x41, 0x44,
];

/// Marks the context of a first message.
pub const PREKEY_HEADER: u8 = 1;

/// Marks the context of a message in an established session.
pub const RATCHET_HEADER: u8 = 2;

/// What every context starts with.
pub open spec fn spec_prefix(version: u32, header_type: u8) -> Seq<u8> {
    DOMAIN@ + be32(version) + seq![header_type]
}

/// The context of a message in an established session.
pub open spec fn spec_ratchet(version: u32) -> Seq<u8> {
    spec_prefix(version, RATCHET_HEADER)
}

/// How the one-time pre-key stands in a context: a flag and four bytes.
pub open spec fn spec_optional_id(key_id: Option<u32>) -> Seq<u8> {
    match key_id {
        Some(key_id) => seq![1u8] + be32(key_id),
        None => seq![0u8] + be32(0),
    }
}

/// The context of a first message.
pub open spec fn spec_prekey(
    version: u32,
    sender_identity_key: Seq<u8>,
    sender_ephemeral_key: Seq<u8>,
    recipient_signed_prekey_id: u32,
    recipient_one_time_prekey_id: Option<u32>,
) -> Seq<u8> {
    spec_prefix(version, PREKEY_HEADER) + sender_identity_key + sender_ephemeral_key + be32(
        recipient_signed_prekey_id,
    ) + spec_optional_id(recipient_one_time_prekey_id)
}

fn prefix(version: u32, header_type: u8) -> (aad: Vec<u8>)
    ensures
        aad@ == spec_prefix(version, header_type),
{
    let mut aad: Vec<u8> = Vec::with_capacity(21);
    push_all(&mut aad, &DOMAIN);
    push_be32(&mut aad, version);
    aad.push(header_type);
    assert(aad@ =~= spec_prefix(version, header_type));
    aad
}

/// Context for an established-session ratchet envelope.
#[must_use]
pub fn ratchet(version: u32) -> (aad: Vec<u8>)
    ensures
        aad@ == spec_ratchet(version),
{
    prefix(version, RATCHET_HEADER)
}

/// Context for an X3DH first-message envelope.
#[must_use]
pub fn prekey(
    version: u32,
    sender_identity_key: &[u8; 32],
    sender_ephemeral_key: &[u8; 32],
    recipient_signed_prekey_id: u32,
    recipient_one_time_prekey_id: Option<u32>,
) -> (aad: Vec<u8>)
    ensures
        aad@ == spec_prekey(
            version,
            sender_identity_key@,
            sender_ephemeral_key@,
            recipient_signed_prekey_id,
            recipient_one_time_prekey_id,
        ),
{
    let mut aad = prefix(version, PREKEY_HEADER);
    push_all(&mut aad, sender_identity_key);
    push_all(&mut aad, sender_ephemeral_key);
    push_be32(&mut aad, recipient_signed_prekey_id);
    match recipient_one_time_prekey_id {
        Some(key_id) => {
            aad.push(1);
            push_be32(&mut aad, key_id);
        },
        None => {
            aad.push(0);
            push_be32(&mut aad, 0);
        },
    }
    assert(aad@ =~= spec_prekey(
        version,
        sender_identity_key@,
        sender_ephemeral_key@,
        recipient_signed_prekey_id,
        recipient_one_time_prekey_id,
    ));
    aad
}

/// Every field changes the context of a first message: two that are equal were
/// made of equal fields.
pub proof fn law_prekey_context_injective(
    version_a: u32,
    identity_a: Seq<u8>,
    ephemeral_a: Seq<u8>,
    signed_a: u32,
    one_time_a: Option<u32>,
    version_b: u32,
    identity_b: Seq<u8>,
    ephemeral_b: Seq<u8>,
    signed_b: u32,
    one_time_b: Option<u32>,
)
    requires
        identity_a.len() == 32,
        ephemeral_a.len() == 32,
        identity_b.len() == 32,
        ephemeral_b.len() == 32,
        spec_prekey(version_a, identity_a, ephemeral_a, signed_a, one_time_a) == spec_prekey(
            version_b,
            identity_b,
            ephemeral_b,
            signed_b,
            one_time_b,
        ),
    ensures
        version_a == version_b,
        identity_a == identity_b,
        ephemeral_a == ephemeral_b,
        signed_a == signed_b,
        one_time_a == one_time_b,
{
    let a = spec_prekey(version_a, identity_a, ephemeral_a, signed_a, one_time_a);
    let b = spec_prekey(version_b, identity_b, ephemeral_b, signed_b, one_time_b);
    assert(a.subrange(16, 20) =~= be32(version_a));
    assert(b.subrange(16, 20) =~= be32(version_b));
    lemma_be32_injective(version_a, version_b);
    assert(a.subrange(21, 53) =~= identity_a);
    assert(b.subrange(21, 53) =~= identity_b);
    assert(a.subrange(53, 85) =~= ephemeral_a);
    assert(b.subrange(53, 85) =~= ephemeral_b);
    assert(a.subrange(85, 89) =~= be32(signed_a));
    assert(b.subrange(85, 89) =~= be32(signed_b));
    lemma_be32_injective(signed_a, signed_b);
    assert(a[89] == spec_optional_id(one_time_a)[0]);
    assert(b[89] == spec_optional_id(one_time_b)[0]);
    if let (Some(id_a), Some(id_b)) = (one_time_a, one_time_b) {
        assert(a.subrange(90, 94) =~= be32(id_a));
        assert(b.subrange(90, 94) =~= be32(id_b));
        lemma_be32_injective(id_a, id_b);
    }
}

/// The version changes the context of a message in an established session.
pub proof fn law_ratchet_context_injective(version_a: u32, version_b: u32)
    requires
        spec_ratchet(version_a) == spec_ratchet(version_b),
    ensures
        version_a == version_b,
{
    assert(spec_ratchet(version_a).subrange(16, 20) =~= be32(version_a));
    assert(spec_ratchet(version_b).subrange(16, 20) =~= be32(version_b));
    lemma_be32_injective(version_a, version_b);
}

/// The context of a first message is never that of a message in an established
/// session.
pub proof fn law_contexts_apart(
    version_a: u32,
    identity: Seq<u8>,
    ephemeral: Seq<u8>,
    signed: u32,
    one_time: Option<u32>,
    version_b: u32,
)
    requires
        identity.len() == 32,
        ephemeral.len() == 32,
    ensures
        spec_prekey(version_a, identity, ephemeral, signed, one_time) != spec_ratchet(version_b),
{
    assert(spec_prekey(version_a, identity, ephemeral, signed, one_time).len() == 94);
    assert(spec_ratchet(version_b).len() == 21);
}

} // verus!
