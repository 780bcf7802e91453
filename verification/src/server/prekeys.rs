//! Pre-keys: how they are uploaded, handed out and rotated.

use super::handlers::{
    decode_prekeys, error_400, error_404, error_429, error_500_generic, StorageError,
};
use crate::bytes::{exact32, exact64, same_bytes};
use crate::crypto::keys::{Signature, VerifyingKey};
use crate::encoding::{decode, encode, fits_base64};
use crate::protocol::consts::{MAX_PREKEYS_PER_UPLOAD, ONE_TIME_PREKEY_RESERVATION_SECS};
use crate::protocol::{MessageId, OneTimePreKey, PreKeyBundle, ServerMessage, UserId};
use vstd::prelude::*;
use vstd::string::*;

verus! {

use super::handlers::{
    bad_prekeys_text, decoded_prekeys, is_error, is_internal_error, valid_prekeys,
};
use crate::crypto::primitives::{ed25519_decodes, ed25519_verifies};
use crate::encoding::{base64_bytes, base64_len, encodes};

/// Below how many one-time pre-keys their owner is told.
pub const PREKEY_LOW_THRESHOLD: u32 = 10;

/// How long a fetch counts against the limits: an hour.
pub const FETCH_WINDOW_SECS: u64 = 3600;

/// How many bundles one user may fetch in that time.
pub const FETCHES_PER_REQUESTER: u32 = 10;

/// How many times one user's bundle may be fetched in that time.
pub const FETCHES_PER_TARGET: u32 = 20;

/// How many signed pre-keys of a user are kept: the one in use and those that
/// a client still answers to.
pub const RETAINED_SIGNED_PREKEYS: u32 = 4;

/// What became of an upload.
#[derive(Debug, Clone, Copy, PartialEq, Eq, Structural)]
#[non_exhaustive]
pub enum UploadResult {
    /// The keys are there, with so many keys in all.
    Accepted(u32),
    /// There are so many keys that these do not fit.
    InventoryFull(u32),
    /// A key's identifier does not follow those before it.
    InvalidSequence,
}

/// The identifiers of a list of pre-keys.
pub open spec fn prekey_ids(prekeys: Seq<(u32, Vec<u8>)>) -> Seq<u32> {
    prekeys.map_values(|prekey: (u32, Vec<u8>)| prekey.0)
}

/// How many of `ids` are not in the inventory.
pub open spec fn count_new(inventory: Seq<u32>, ids: Seq<u32>) -> nat {
    ids.filter(|id: u32| !inventory.contains(id)).len()
}

/// The inventory with those of `ids` that are not in it.
pub open spec fn with_new(inventory: Seq<u32>, ids: Seq<u32>) -> Seq<u32>
    decreases ids.len(),
{
    if ids.len() == 0 {
        inventory
    } else {
        let before = with_new(inventory, ids.drop_last());
        if before.contains(ids.last()) {
            before
        } else {
            before.push(ids.last())
        }
    }
}

/// A number as far as 32 bits hold it.
pub open spec fn saturated(n: nat) -> u32 {
    if n > u32::MAX {
        u32::MAX
    } else {
        n as u32
    }
}

/// What becomes of an upload.
pub open spec fn upload_verdict(
    inventory: Seq<u32>,
    ids: Seq<u32>,
    max_prekeys_per_user: usize,
) -> UploadResult {
    if inventory.len() + count_new(inventory, ids) > max_prekeys_per_user {
        UploadResult::InventoryFull(saturated(inventory.len()))
    } else {
        UploadResult::Accepted(saturated(with_new(inventory, ids).len()))
    }
}

fn contains_id(ids: &Vec<u32>, id: u32) -> (out: bool)
    ensures
        out == ids@.contains(id),
{
    let mut i: usize = 0;
    while i < ids.len()
        invariant
            i <= ids@.len(),
            forall|j: int| 0 <= j < i ==> ids@[j] != id,
        decreases ids@.len() - i,
    {
        if ids[i] == id {
            assert(ids@[i as int] == id);
            return true;
        }
        i += 1;
    }
    false
}

fn saturate(n: usize) -> (out: u32)
    ensures
        out == saturated(n as nat),
{
    if n > u32::MAX as usize {
        u32::MAX
    } else {
        n as u32
    }
}

/// Decides what becomes of an upload. `inventory` holds the identifiers of the
/// keys that are there.
pub fn upload_prekeys(
    inventory: &Vec<u32>,
    prekeys: &Vec<(u32, Vec<u8>)>,
    max_prekeys_per_user: usize,
) -> (out: UploadResult)
    ensures
        out == upload_verdict(inventory@, prekey_ids(prekeys@), max_prekeys_per_user),
{
    let ghost ids = prekey_ids(prekeys@);
    let ghost is_new = |id: u32| !inventory@.contains(id);
    let mut all: Vec<u32> = inventory.clone();
    assert(all@ =~= inventory@);
    let mut count: usize = 0;
    let mut i: usize = 0;
    assert(ids.take(0).filter(is_new) =~= Seq::<u32>::empty()) by {
        reveal(Seq::filter);
    }
    while i < prekeys.len()
        invariant
            i <= prekeys@.len(),
            ids == prekey_ids(prekeys@),
            is_new == (|id: u32| !inventory@.contains(id)),
            count <= i,
            count == ids.take(i as int).filter(is_new).len(),
            all@ == with_new(inventory@, ids.take(i as int)),
        decreases prekeys@.len() - i,
    {
        let id: u32 = prekeys[i].0;
        let ghost more = ids.take(i + 1);
        assert(more.drop_last() =~= ids.take(i as int));
        assert(more.last() == ids[i as int]);
        assert(ids[i as int] == id);
        assert(more.filter(is_new) =~= if is_new(id) {
            ids.take(i as int).filter(is_new).push(id)
        } else {
            ids.take(i as int).filter(is_new)
        }) by {
            reveal(Seq::filter);
        }
        if !contains_id(inventory, id) {
            count += 1;
        }
        if !contains_id(&all, id) {
            all.push(id);
        }
        i += 1;
    }
    assert(ids.take(i as int) =~= ids);
    if inventory.len() > max_prekeys_per_user || count > max_prekeys_per_user - inventory.len() {
        return UploadResult::InventoryFull(saturate(inventory.len()));
    }
    UploadResult::Accepted(saturate(all.len()))
}

/// Checks an upload: neither empty nor too large, and every key a key.
pub fn check_upload(prekeys: &Vec<OneTimePreKey>) -> (out: Result<
    Vec<(u32, Vec<u8>)>,
    ServerMessage,
>)
    ensures
        if prekeys@.len() > MAX_PREKEYS_PER_UPLOAD {
            out matches Err(reply) && is_error(reply, 400, "too many prekeys"@)
        } else if prekeys@.len() == 0 {
            out matches Err(reply) && is_error(reply, 400, "prekey upload cannot be empty"@)
        } else if !valid_prekeys(prekeys@) {
            out matches Err(reply) && is_error(reply, 400, bad_prekeys_text())
        } else {
            out matches Ok(pairs) && decoded_prekeys(pairs@, prekeys@)
        },
{
    if prekeys.len() > MAX_PREKEYS_PER_UPLOAD {
        return Err(error_400("too many prekeys"));
    }
    if prekeys.len() == 0 {
        return Err(error_400("prekey upload cannot be empty"));
    }
    decode_prekeys(prekeys)
}

/// What an upload is answered.
pub fn answer_upload(upload_id: &MessageId, result: Result<UploadResult, StorageError>) -> (out:
    ServerMessage)
    ensures
        match result {
            Ok(UploadResult::Accepted(remaining)) => out == (ServerMessage::PreKeysUploaded {
                upload_id: *upload_id,
                accepted: true,
                remaining,
            }),
            Ok(UploadResult::InventoryFull(remaining)) => out == (ServerMessage::PreKeysUploaded {
                upload_id: *upload_id,
                accepted: false,
                remaining,
            }),
            Ok(UploadResult::InvalidSequence) => is_error(
                out,
                400,
                "prekey IDs must increase monotonically"@,
            ),
            Err(_) => is_internal_error(out),
        },
{
    match result {
        Ok(UploadResult::Accepted(remaining)) => ServerMessage::PreKeysUploaded {
            upload_id: *upload_id,
            accepted: true,
            remaining,
        },
        Ok(UploadResult::InventoryFull(remaining)) => ServerMessage::PreKeysUploaded {
            upload_id: *upload_id,
            accepted: false,
            remaining,
        },
        Ok(UploadResult::InvalidSequence) => error_400("prekey IDs must increase monotonically"),
        Err(_) => error_500_generic(),
    }
}

/// How often bundles may be fetched.
#[derive(Clone, Copy)]
pub struct FetchLimits {
    pub window_secs: u64,
    pub per_requester: u32,
    pub per_target: u32,
}

impl FetchLimits {
    /// The limits of the relay.
    pub fn standard() -> (out: Self)
        ensures
            out.window_secs == FETCH_WINDOW_SECS,
            out.per_requester == FETCHES_PER_REQUESTER,
            out.per_target == FETCHES_PER_TARGET,
    {
        FetchLimits {
            window_secs: FETCH_WINDOW_SECS,
            per_requester: FETCHES_PER_REQUESTER,
            per_target: FETCHES_PER_TARGET,
        }
    }

    /// Since when fetches count.
    pub fn cutoff(&self, now: u64) -> (out: u64)
        ensures
            out == (if now >= self.window_secs { now - self.window_secs } else { 0 }),
    {
        now.saturating_sub(self.window_secs)
    }
}

/// What the database holds that matters for a fetch.
pub struct FetchFacts {
    /// How many bundles the requester has fetched in the window.
    pub requester_count: u32,
    /// How many times the target's bundle was fetched in the window.
    pub target_count: u32,
    /// A one-time pre-key of the target, if there is one left.
    pub prekey: Option<(u32, Vec<u8>)>,
}

/// What became of a fetch.
#[derive(Debug)]
#[non_exhaustive]
pub enum FetchResult {
    /// The key leaves the inventory and is reserved for the requester.
    Fetched { key_id: u32, public_key: Vec<u8> },
    Empty,
    RateLimited,
}

/// Decides what becomes of a fetch. Unless it is over the limits, it counts.
pub fn fetch_for_requester(limits: &FetchLimits, facts: FetchFacts) -> (out: FetchResult)
    ensures
        if facts.requester_count >= limits.per_requester || facts.target_count >= limits.per_target {
            out is RateLimited
        } else {
            match facts.prekey {
                Some(pair) => out == (FetchResult::Fetched { key_id: pair.0, public_key: pair.1 }),
                None => out is Empty,
            }
        },
{
    if facts.requester_count >= limits.per_requester || facts.target_count >= limits.per_target {
        return FetchResult::RateLimited;
    }
    match facts.prekey {
        Some((key_id, public_key)) => FetchResult::Fetched { key_id, public_key },
        None => FetchResult::Empty,
    }
}

/// Until when a one-time pre-key that is fetched now is reserved.
pub fn reserved_until(now: u64) -> (out: u64)
    ensures
        out == (if now + ONE_TIME_PREKEY_RESERVATION_SECS > u64::MAX {
            u64::MAX as int
        } else {
            now + ONE_TIME_PREKEY_RESERVATION_SECS
        }),
{
    now.saturating_add(ONE_TIME_PREKEY_RESERVATION_SECS)
}

/// Refuses the fetch of one's own bundle.
pub fn check_fetch(requester_id: &String, target: &UserId) -> (out: Option<ServerMessage>)
    ensures
        match out {
            None => requester_id@ != target@,
            Some(reply) => requester_id@ == target@ && is_error(
                reply,
                400,
                "cannot fetch your own pre-key bundle"@,
            ),
        },
{
    if *requester_id == target.as_str().to_owned() {
        Some(error_400("cannot fetch your own pre-key bundle"))
    } else {
        None
    }
}

/// The identity key for a bundle, in base64.
pub fn bundle_identity(found: Result<Option<Vec<u8>>, StorageError>) -> (out: Result<
    String,
    ServerMessage,
>)
    ensures
        match found {
            Ok(Some(key)) => if base64_len(key@.len()) <= isize::MAX {
                out matches Ok(text) && encodes(text@, key@)
            } else {
                out matches Err(reply) && is_internal_error(reply)
            },
            Ok(None) => out matches Err(reply) && is_error(reply, 404, "not found"@),
            Err(_) => out matches Err(reply) && is_internal_error(reply),
        },
{
    match found {
        Ok(Some(key)) => if fits_base64(key.len()) {
            Ok(encode(&key))
        } else {
            Err(error_500_generic())
        },
        Ok(None) => Err(error_404("not found")),
        Err(_) => Err(error_500_generic()),
    }
}

/// A signed pre-key as the database holds it.
pub struct SignedPreKeyRow {
    pub key_id: u32,
    pub public_key: Vec<u8>,
    pub signature: Vec<u8>,
}

/// The signed pre-key for a bundle, without the other keys.
pub fn bundle_signed(identity_key: String, found: Result<Option<SignedPreKeyRow>, StorageError>) -> (
    out: Result<PreKeyBundle, ServerMessage>)
    ensures
        match found {
            Ok(Some(row)) => if base64_len(row.public_key@.len()) <= isize::MAX && base64_len(
                row.signature@.len(),
            ) <= isize::MAX {
                out matches Ok(bundle) && bundle.identity_key == identity_key
                    && bundle.signed_prekey_id == row.key_id && encodes(
                    bundle.signed_prekey@,
                    row.public_key@,
                ) && encodes(bundle.signed_prekey_signature@, row.signature@)
                    && bundle.one_time_prekey is None
            } else {
                out matches Err(reply) && is_internal_error(reply)
            },
            Ok(None) => out matches Err(reply) && is_error(reply, 404, "not found"@),
            Err(_) => out matches Err(reply) && is_internal_error(reply),
        },
{
    match found {
        Ok(Some(row)) => if fits_base64(row.public_key.len()) && fits_base64(row.signature.len()) {
            Ok(
                PreKeyBundle {
                    identity_key,
                    signed_prekey: encode(&row.public_key),
                    signed_prekey_id: row.key_id,
                    signed_prekey_signature: encode(&row.signature),
                    one_time_prekey: None,
                },
            )
        } else {
            Err(error_500_generic())
        },
        Ok(None) => Err(error_404("not found")),
        Err(_) => Err(error_500_generic()),
    }
}

/// Two bundles are the same but for the one-time pre-key.
pub open spec fn same_but_one_time(a: PreKeyBundle, b: PreKeyBundle) -> bool {
    &&& a.identity_key == b.identity_key
    &&& a.signed_prekey == b.signed_prekey
    &&& a.signed_prekey_id == b.signed_prekey_id
    &&& a.signed_prekey_signature == b.signed_prekey_signature
}

/// What a fetch is answered: the bundle, with a one-time pre-key if there was
/// one left.
pub fn answer_fetch(
    target: UserId,
    bundle: PreKeyBundle,
    fetched: Result<FetchResult, StorageError>,
) -> (out: ServerMessage)
    ensures
        match fetched {
            Ok(FetchResult::Fetched { key_id, public_key }) => if base64_len(public_key@.len())
                <= isize::MAX {
                out matches ServerMessage::PreKeyBundleResponse { user_id, bundle: full } && user_id
                    == target && same_but_one_time(full, bundle) && (full.one_time_prekey matches
                    Some(key) && key.key_id == key_id && encodes(key.public_key@, public_key@))
            } else {
                is_internal_error(out)
            },
            Ok(FetchResult::Empty) => {
                out matches ServerMessage::PreKeyBundleResponse { user_id, bundle: full } && user_id
                    == target && same_but_one_time(full, bundle) && full.one_time_prekey is None
            },
            Ok(FetchResult::RateLimited) => is_error(
                out,
                429,
                "pre-key fetch rate limit exceeded"@,
            ),
            Err(_) => is_internal_error(out),
        },
{
    let one_time_prekey = match fetched {
        Ok(FetchResult::Fetched { key_id, public_key }) => {
            if !fits_base64(public_key.len()) {
                return error_500_generic();
            }
            Some(OneTimePreKey { key_id, public_key: encode(&public_key) })
        },
        Ok(FetchResult::Empty) => None,
        Ok(FetchResult::RateLimited) => return error_429("pre-key fetch rate limit exceeded"),
        Err(_) => return error_500_generic(),
    };
    ServerMessage::PreKeyBundleResponse {
        user_id: target,
        bundle: PreKeyBundle {
            identity_key: bundle.identity_key,
            signed_prekey: bundle.signed_prekey,
            signed_prekey_id: bundle.signed_prekey_id,
            signed_prekey_signature: bundle.signed_prekey_signature,
            one_time_prekey,
        },
    }
}

/// The notice that one-time pre-keys run low, if they do.
pub fn low_notice(remaining: u32) -> (out: Option<ServerMessage>)
    ensures
        out == (if remaining < PREKEY_LOW_THRESHOLD {
            Some(ServerMessage::PreKeyLow { remaining })
        } else {
            None
        }),
{
    if remaining < PREKEY_LOW_THRESHOLD {
        Some(ServerMessage::PreKeyLow { remaining })
    } else {
        None
    }
}

/// Why the texts of a signed pre-key and its signature are refused, or nothing
/// if they stand for 32 and 64 bytes.
pub open spec fn signed_prekey_fault(public_key: Seq<char>, signature: Seq<char>) -> Option<
    Seq<char>,
> {
    let key = base64_bytes(public_key);
    let bytes = base64_bytes(signature);
    if key is None {
        Some("invalid signed prekey encoding"@)
    } else if key->0.len() != 32 {
        Some("signed prekey must be 32 bytes"@)
    } else if bytes is None {
        Some("invalid signed prekey signature encoding"@)
    } else if bytes->0.len() != 64 {
        Some("signed prekey signature must be 64 bytes"@)
    } else {
        None
    }
}

/// Decodes a new signed pre-key and its signature.
pub fn decode_signed_prekey(public_key: &str, signature: &str) -> (out: Result<
    ([u8; 32], [u8; 64]),
    ServerMessage,
>)
    ensures
        match signed_prekey_fault(public_key@, signature@) {
            Some(text) => out matches Err(reply) && is_error(reply, 400, text),
            None => out matches Ok(decoded) && base64_bytes(public_key@) == Some(decoded.0@)
                && base64_bytes(signature@) == Some(decoded.1@),
        },
{
    let key = match decode(public_key) {
        Some(bytes) => match exact32(&bytes) {
            Some(key) => key,
            None => return Err(error_400("signed prekey must be 32 bytes")),
        },
        None => return Err(error_400("invalid signed prekey encoding")),
    };
    let signature = match decode(signature) {
        Some(bytes) => match exact64(&bytes) {
            Some(signature) => signature,
            None => return Err(error_400("signed prekey signature must be 64 bytes")),
        },
        None => return Err(error_400("invalid signed prekey signature encoding")),
    };
    Ok((key, signature))
}

/// Checks the signature of a new signed pre-key against the identity key of
/// its owner, as the database gives it.
pub fn verify_signed_prekey(
    found: Result<Option<Vec<u8>>, StorageError>,
    public_key: &[u8; 32],
    signature: &[u8; 64],
) -> (out: Result<(), ServerMessage>)
    ensures
        match found {
            Err(_) => out matches Err(reply) && is_internal_error(reply),
            Ok(None) => out matches Err(reply) && is_error(reply, 404, "not found"@),
            Ok(Some(key)) => if key@.len() != 32 || !ed25519_decodes(key@) {
                out matches Err(reply) && is_internal_error(reply)
            } else if !ed25519_verifies(key@, public_key@, signature@) {
                out matches Err(reply) && is_error(
                    reply,
                    400,
                    "signed prekey signature is invalid"@,
                )
            } else {
                out is Ok
            },
        },
{
    let identity_key = match found {
        Ok(Some(key)) => key,
        Ok(None) => return Err(error_404("not found")),
        Err(_) => return Err(error_500_generic()),
    };
    let identity = match exact32(&identity_key) {
        Some(bytes) => bytes,
        None => return Err(error_500_generic()),
    };
    let identity = match VerifyingKey::from_bytes(&identity) {
        Some(key) => key,
        None => return Err(error_500_generic()),
    };
    match identity.verify(public_key, &Signature::from_bytes(*signature)) {
        Ok(()) => Ok(()),
        Err(_) => Err(error_400("signed prekey signature is invalid")),
    }
}

/// What became of a rotation, and which signed pre-key is in use then.
#[derive(Debug, Clone, Copy, PartialEq, Eq, Structural)]
#[non_exhaustive]
pub enum SignedPreKeyRotationResult {
    Accepted { current_key_id: u32 },
    /// The key was accepted before, and another is in use since.
    PreviouslyAccepted { current_key_id: u32 },
    /// The key is older than the one in use.
    InvalidSequence { current_key_id: u32 },
    /// Another key has the same identifier.
    Conflict { current_key_id: u32 },
}

/// What the database holds that matters for a rotation.
pub struct RotationFacts {
    /// The signed pre-key with the highest identifier.
    pub current_key_id: u32,
    /// The signed pre-key with the same identifier as the new one.
    pub same_id: Option<SignedPreKeyRow>,
}

/// What becomes of a rotation to the key `key_id`.
pub open spec fn rotation_verdict(
    key_id: u32,
    public_key: Seq<u8>,
    signature: Seq<u8>,
    facts: RotationFacts,
) -> SignedPreKeyRotationResult {
    let current_key_id = facts.current_key_id;
    match facts.same_id {
        Some(row) => if row.public_key@ == public_key && row.signature@ == signature {
            if key_id == current_key_id {
                SignedPreKeyRotationResult::Accepted { current_key_id }
            } else {
                SignedPreKeyRotationResult::PreviouslyAccepted { current_key_id }
            }
        } else {
            SignedPreKeyRotationResult::Conflict { current_key_id }
        },
        None => if key_id > current_key_id {
            SignedPreKeyRotationResult::Accepted { current_key_id: key_id }
        } else {
            SignedPreKeyRotationResult::InvalidSequence { current_key_id }
        },
    }
}

/// Decides what becomes of a rotation. The key is written exactly if it is
/// `Accepted` and was not there before.
pub fn rotate_signed_prekey(
    key_id: u32,
    public_key: &[u8; 32],
    signature: &[u8; 64],
    facts: &RotationFacts,
) -> (out: SignedPreKeyRotationResult)
    ensures
        out == rotation_verdict(key_id, public_key@, signature@, *facts),
{
    let current_key_id: u32 = facts.current_key_id;
    match &facts.same_id {
        Some(row) => {
            if same_bytes(&row.public_key, public_key) && same_bytes(&row.signature, signature) {
                if key_id == current_key_id {
                    SignedPreKeyRotationResult::Accepted { current_key_id }
                } else {
                    SignedPreKeyRotationResult::PreviouslyAccepted { current_key_id }
                }
            } else {
                SignedPreKeyRotationResult::Conflict { current_key_id }
            }
        },
        None => {
            if key_id > current_key_id {
                SignedPreKeyRotationResult::Accepted { current_key_id: key_id }
            } else {
                SignedPreKeyRotationResult::InvalidSequence { current_key_id }
            }
        },
    }
}

/// What a rotation is answered.
pub fn answer_rotation(
    rotation_id: &MessageId,
    result: Result<SignedPreKeyRotationResult, StorageError>,
) -> (out: ServerMessage)
    ensures
        match result {
            Ok(SignedPreKeyRotationResult::Accepted { current_key_id }) => out == (
            ServerMessage::SignedPreKeyRotated {
                rotation_id: *rotation_id,
                accepted: true,
                previously_accepted: false,
                current_key_id,
            }),
            Ok(SignedPreKeyRotationResult::PreviouslyAccepted { current_key_id }) => out == (
            ServerMessage::SignedPreKeyRotated {
                rotation_id: *rotation_id,
                accepted: false,
                previously_accepted: true,
                current_key_id,
            }),
            Ok(SignedPreKeyRotationResult::InvalidSequence { current_key_id }) => out == (
            ServerMessage::SignedPreKeyRotated {
                rotation_id: *rotation_id,
                accepted: false,
                previously_accepted: false,
                current_key_id,
            }),
            Ok(SignedPreKeyRotationResult::Conflict { current_key_id }) => out == (
            ServerMessage::SignedPreKeyRotated {
                rotation_id: *rotation_id,
                accepted: false,
                previously_accepted: false,
                current_key_id,
            }),
            Err(_) => is_internal_error(out),
        },
{
    let (accepted, previously_accepted, current_key_id) = match result {
        Ok(SignedPreKeyRotationResult::Accepted { current_key_id }) => (
            true,
            false,
            current_key_id,
        ),
        Ok(SignedPreKeyRotationResult::PreviouslyAccepted { current_key_id }) => (
            false,
            true,
            current_key_id,
        ),
        Ok(SignedPreKeyRotationResult::InvalidSequence { current_key_id }) => (
            false,
            false,
            current_key_id,
        ),
        Ok(SignedPreKeyRotationResult::Conflict { current_key_id }) => (
            false,
            false,
            current_key_id,
        ),
        Err(_) => return error_500_generic(),
    };
    ServerMessage::SignedPreKeyRotated {
        rotation_id: *rotation_id,
        accepted,
        previously_accepted,
        current_key_id,
    }
}

proof fn lemma_with_new_holds(inventory: Seq<u32>, ids: Seq<u32>)
    ensures
        forall|id: u32| #[trigger]
            with_new(inventory, ids).contains(id) <==> (inventory.contains(id) || ids.contains(id)),
    decreases ids.len(),
{
    if ids.len() > 0 {
        let rest = ids.drop_last();
        let before = with_new(inventory, rest);
        lemma_with_new_holds(inventory, rest);
        assert forall|id: u32| #[trigger]
            with_new(inventory, ids).contains(id) <==> (inventory.contains(id) || ids.contains(
                id,
            )) by {
            assert(before.contains(id) <==> (inventory.contains(id) || rest.contains(id)));
            if ids.contains(id) {
                let i = choose|i: int| 0 <= i < ids.len() && ids[i] == id;
                if i < rest.len() {
                    assert(rest[i] == id);
                }
            }
            if rest.contains(id) {
                let i = choose|i: int| 0 <= i < rest.len() && rest[i] == id;
                assert(ids[i] == id);
            }
            assert(ids[ids.len() - 1] == ids.last());
            if !before.contains(ids.last()) {
                let pushed = before.push(ids.last());
                if before.contains(id) {
                    let i = choose|i: int| 0 <= i < before.len() && before[i] == id;
                    assert(pushed[i] == id);
                }
                assert(pushed[before.len() as int] == ids.last());
                if pushed.contains(id) {
                    let i = choose|i: int| 0 <= i < pushed.len() && pushed[i] == id;
                    if i < before.len() {
                        assert(before[i] == id);
                    }
                }
            }
        }
    }
}

proof fn lemma_with_new_idle(inventory: Seq<u32>, ids: Seq<u32>)
    requires
        forall|i: int| 0 <= i < ids.len() ==> inventory.contains(#[trigger] ids[i]),
    ensures
        with_new(inventory, ids) == inventory,
        count_new(inventory, ids) == 0,
    decreases ids.len(),
{
    reveal(Seq::filter);
    if ids.len() > 0 {
        let rest = ids.drop_last();
        assert forall|i: int| 0 <= i < rest.len() implies inventory.contains(
            #[trigger] rest[i],
        ) by {
            assert(ids[i] == rest[i]);
        }
        lemma_with_new_idle(inventory, rest);
        assert(inventory.contains(ids.last()));
    }
}

/// An upload that is repeated is accepted again and adds nothing.
pub proof fn law_upload_idempotent(
    inventory: Seq<u32>,
    ids: Seq<u32>,
    max_prekeys_per_user: usize,
)
    requires
        upload_verdict(inventory, ids, max_prekeys_per_user) is Accepted,
    ensures
        upload_verdict(with_new(inventory, ids), ids, max_prekeys_per_user) == upload_verdict(
            inventory,
            ids,
            max_prekeys_per_user,
        ),
        with_new(with_new(inventory, ids), ids) == with_new(inventory, ids),
{
    let after = with_new(inventory, ids);
    lemma_with_new_bounded(inventory, ids);
    lemma_with_new_holds(inventory, ids);
    assert forall|i: int| 0 <= i < ids.len() implies after.contains(#[trigger] ids[i]) by {
        assert(ids.contains(ids[i]));
    }
    lemma_with_new_idle(after, ids);
}

proof fn lemma_with_new_bounded(inventory: Seq<u32>, ids: Seq<u32>)
    ensures
        with_new(inventory, ids).len() <= inventory.len() + count_new(inventory, ids),
    decreases ids.len(),
{
    reveal(Seq::filter);
    if ids.len() > 0 {
        let rest = ids.drop_last();
        lemma_with_new_bounded(inventory, rest);
        lemma_with_new_holds(inventory, rest);
        assert(with_new(inventory, rest).contains(ids.last()) <==> (inventory.contains(ids.last())
            || rest.contains(ids.last())));
    }
}

/// An upload that is accepted leaves at most `max_prekeys_per_user` keys.
pub proof fn law_inventory_bounded(
    inventory: Seq<u32>,
    ids: Seq<u32>,
    max_prekeys_per_user: usize,
)
    requires
        upload_verdict(inventory, ids, max_prekeys_per_user) is Accepted,
    ensures
        with_new(inventory, ids).len() <= max_prekeys_per_user,
{
    lemma_with_new_bounded(inventory, ids);
}

/// A rotation that is repeated is answered as the first time, as long as no
/// other key is in use.
pub proof fn law_rotation_idempotent(
    key_id: u32,
    public_key: Seq<u8>,
    signature: Seq<u8>,
    facts: RotationFacts,
    later: RotationFacts,
)
    requires
        rotation_verdict(key_id, public_key, signature, facts) == (
        SignedPreKeyRotationResult::Accepted { current_key_id: key_id }),
        later.current_key_id == key_id,
        later.same_id matches Some(row) && row.public_key@ == public_key && row.signature@
            == signature,
    ensures
        rotation_verdict(key_id, public_key, signature, later) == rotation_verdict(
            key_id,
            public_key,
            signature,
            facts,
        ),
{
}

} // verus!
