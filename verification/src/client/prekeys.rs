//! Pre-keys: how they are registered, replenished and rotated.

use super::crypto_mgr::{Change, CryptoManager, OutboxChange, SignedKeys};
use super::error::CryptoError;
use super::outbound::{position_awaiting, Awaited};
use super::outbox::{ensure_capacity, PendingOutbound};
use crate::crypto::keys::{generate_one_time_prekeys, OneTimePreKey, SignedPreKey};
use crate::encoding::encode;
use crate::protocol::consts::PREKEY_TARGET;
use crate::protocol::types::OneTimePreKey as WirePreKey;
use crate::protocol::{ClientMessage, MessageId};
use crate::table::{Table, TableChange};
use vstd::prelude::*;

verus! {

use super::outbound::{first_awaiting, none_awaiting, settles};
use super::outbox::has_capacity;
use crate::crypto::primitives::ed25519_sign;
use crate::encoding::encodes;
use crate::protocol::types::is_random_uuid;
use crate::table::{distinct_keys, key_position, listed};

/// How many signed pre-keys are kept besides the one in use.
pub const MAX_PREVIOUS_SIGNED_PREKEYS: usize = 3;

/// How long a signed pre-key is in use: seven days.
pub const SIGNED_PREKEY_ROTATION_SECS: u64 = 604_800;

/// Two signed pre-keys are the same key.
pub open spec fn same_signed(a: SignedPreKey, b: SignedPreKey) -> bool {
    &&& a.spec_key_id() == b.spec_key_id()
    &&& a.spec_secret() == b.spec_secret()
    &&& a.spec_public() == b.spec_public()
    &&& a.spec_signature() == b.spec_signature()
}

/// Two lists hold the same signed pre-keys.
pub open spec fn same_signed_list(a: Seq<SignedPreKey>, b: Seq<SignedPreKey>) -> bool {
    &&& a.len() == b.len()
    &&& forall|i: int| 0 <= i < a.len() ==> same_signed(#[trigger] a[i], b[i])
}

/// Two one-time pre-keys are the same key.
pub open spec fn same_one_time(a: OneTimePreKey, b: OneTimePreKey) -> bool {
    &&& a.spec_key_id() == b.spec_key_id()
    &&& a.spec_secret() == b.spec_secret()
    &&& a.spec_public() == b.spec_public()
}

/// The last key with this identifier.
pub open spec fn last_with_id(keys: Seq<OneTimePreKey>, id: u32) -> Option<OneTimePreKey>
    decreases keys.len(),
{
    if keys.len() == 0 {
        None
    } else if keys.last().spec_key_id() == id {
        Some(keys.last())
    } else {
        last_with_id(keys.drop_last(), id)
    }
}

/// `stored` holds the keys of a list, each under its identifier.
pub open spec fn holds_keys(stored: Map<u32, OneTimePreKey>, keys: Seq<OneTimePreKey>) -> bool {
    forall|id: u32|
        {
            &&& #[trigger] stored.contains_key(id) <==> last_with_id(keys, id) is Some
            &&& stored.contains_key(id) ==> same_one_time(
                stored[id],
                last_with_id(keys, id)->0,
            )
        }
}

/// The identifier after the largest in a list, or `otherwise` for an empty
/// list. It stays within 32 bits.
pub open spec fn next_id(keys: Seq<OneTimePreKey>, otherwise: u32) -> u32
    decreases keys.len(),
{
    if keys.len() == 0 {
        otherwise
    } else {
        let own = after_id(keys.last().spec_key_id());
        if keys.len() == 1 {
            own
        } else {
            let others = next_id(keys.drop_last(), otherwise);
            if own > others {
                own
            } else {
                others
            }
        }
    }
}

/// The identifier after `id`, within 32 bits.
pub open spec fn after_id(id: u32) -> u32 {
    if id == u32::MAX {
        id
    } else {
        (id + 1) as u32
    }
}

/// The first `MAX_PREVIOUS_SIGNED_PREKEYS` of a list.
pub open spec fn bounded(keys: Seq<SignedPreKey>) -> Seq<SignedPreKey> {
    if keys.len() > MAX_PREVIOUS_SIGNED_PREKEYS {
        keys.take(MAX_PREVIOUS_SIGNED_PREKEYS as int)
    } else {
        keys
    }
}

/// Copies of the first `MAX_PREVIOUS_SIGNED_PREKEYS` of `front` and `rest`.
fn bounded_history(front: Option<&SignedPreKey>, rest: &Vec<SignedPreKey>) -> (out: Vec<
    SignedPreKey,
>)
    ensures
        same_signed_list(
            out@,
            bounded(
                match front {
                    Some(key) => seq![*key] + rest@,
                    None => rest@,
                },
            ),
        ),
{
    let ghost all = match front {
        Some(key) => seq![*key] + rest@,
        None => rest@,
    };
    let ghost skipped: int = if front is Some { 1 } else { 0 };
    let mut out: Vec<SignedPreKey> = Vec::new();
    match front {
        Some(key) => out.push(key.duplicate()),
        None => {},
    }
    let mut i: usize = 0;
    while i < rest.len() && out.len() < MAX_PREVIOUS_SIGNED_PREKEYS
        invariant
            i <= rest@.len(),
            skipped == 0 || skipped == 1,
            out@.len() == i + skipped,
            out@.len() <= MAX_PREVIOUS_SIGNED_PREKEYS,
            all.len() == rest@.len() + skipped,
            forall|j: int| 0 <= j < rest@.len() ==> #[trigger] all[j + skipped] == rest@[j],
            forall|j: int| 0 <= j < out@.len() ==> same_signed(#[trigger] out@[j], all[j]),
        decreases rest@.len() - i,
    {
        assert(all[i + skipped] == rest@[i as int]);
        out.push(rest[i].duplicate());
        i += 1;
    }
    out
}

/// A copy of a list of signed pre-keys.
fn copy_signed(keys: &Vec<SignedPreKey>) -> (out: Vec<SignedPreKey>)
    ensures
        same_signed_list(out@, keys@),
{
    let mut out: Vec<SignedPreKey> = Vec::new();
    let mut i: usize = 0;
    while i < keys.len()
        invariant
            i <= keys@.len(),
            out@.len() == i,
            forall|j: int| 0 <= j < i ==> same_signed(#[trigger] out@[j], keys@[j]),
        decreases keys@.len() - i,
    {
        out.push(keys[i].duplicate());
        i += 1;
    }
    out
}

/// `item` asks the server, under a new identifier, to put `key` in place of the
/// signed pre-key.
pub open spec fn announces(item: PendingOutbound, key: SignedPreKey) -> bool {
    item matches PendingOutbound::SignedPreKeyRotation {
        rotation_id,
        key_id,
        public_key,
        signature,
    } && is_random_uuid(rotation_id@) && key_id == key.spec_key_id() && encodes(
        public_key@,
        key.spec_public(),
    ) && encodes(signature@, key.spec_signature())
}

fn announcement(key: &SignedPreKey) -> (out: PendingOutbound)
    ensures
        announces(out, *key),
{
    PendingOutbound::SignedPreKeyRotation {
        rotation_id: MessageId::new(),
        key_id: key.key_id(),
        public_key: encode(key.public().as_bytes()),
        signature: encode(&key.signature().to_bytes()),
    }
}

/// `upload` asks the server to take the one-time pre-keys in `put`.
pub open spec fn offers(upload: Seq<WirePreKey>, put: Seq<(u32, OneTimePreKey)>) -> bool {
    &&& upload.len() == put.len()
    &&& forall|i: int|
        0 <= i < put.len() ==> (#[trigger] upload[i]).key_id == put[i].0 && encodes(
            upload[i].public_key@,
            put[i].1.spec_public(),
        )
}

impl CryptoManager {
    /// Keeps the pre-keys that were registered, in place of those before. When
    /// keys came to be is left as it is noted.
    pub fn persist_registration_keys(
        &self,
        spk: &SignedPreKey,
        opks: &Vec<OneTimePreKey>,
    ) -> (change: Change)
        ensures
            change.wf(),
            change.sessions.is_none(),
            change.outbox is Keep,
            change.processed.is_none(),
            change.signed_keys matches Some(keys) && (keys.current matches Some(current)
                && same_signed(current, *spk)) && same_signed_list(
                keys.previous@,
                self.previous_spks@,
            ) && keys.rotated_at == self.signed_prekey_rotated_at,
            holds_keys(change.one_time_prekeys.applied(self.stored_opks@), opks@),
            change.created_at.is_none(),
            change.next_one_time_prekey_id == Some(next_id(opks@, self.next_one_time_prekey_id)),
    {
        let mut fresh: Table<u32, OneTimePreKey> = Table::new();
        let mut next: u32 = self.next_one_time_prekey_id;
        let mut i: usize = 0;
        while i < opks.len()
            invariant
                i <= opks@.len(),
                holds_keys(fresh@, opks@.take(i as int)),
                next == next_id(opks@.take(i as int), self.next_one_time_prekey_id),
            decreases opks@.len() - i,
        {
            let key = &opks[i];
            let id: u32 = key.key_id();
            let ghost before = fresh@;
            let ghost seen = opks@.take(i as int);
            let ghost more = opks@.take(i + 1);
            assert(more.drop_last() =~= seen);
            assert(more.last() == opks@[i as int]);
            let copy = OneTimePreKey::from_parts(
                id,
                key.secret().to_bytes(),
                key.public().to_bytes(),
            );
            fresh.insert(id, copy);
            assert forall|other: u32|
                {
                    &&& #[trigger] fresh@.contains_key(other) <==> last_with_id(more, other) is Some
                    &&& fresh@.contains_key(other) ==> same_one_time(
                        fresh@[other],
                        last_with_id(more, other)->0,
                    )
                } by {
                assert(before.contains_key(other) <==> last_with_id(seen, other) is Some);
            }
            let after: u32 = id.saturating_add(1);
            if i == 0 || after > next {
                next = after;
            }
            i += 1;
        }
        assert(opks@.take(i as int) =~= opks@);
        let mut change = Change::none();
        change.one_time_prekeys = self.replace_prekeys(fresh);
        change.next_one_time_prekey_id = Some(next);
        change.signed_keys = Some(
            SignedKeys {
                current: Some(spk.duplicate()),
                previous: copy_signed(&self.previous_spks),
                rotated_at: self.signed_prekey_rotated_at,
            },
        );
        change
    }

    fn replace_prekeys(&self, fresh: Table<u32, OneTimePreKey>) -> (out: TableChange<
        u32,
        OneTimePreKey,
    >)
        ensures
            distinct_keys(out.put@),
            out.applied(self.stored_opks@) == fresh@,
    {
        let take = all_keys(&self.stored_opks);
        let put = fresh.into_entries();
        let out = TableChange { take, put };
        assert(out.applied(self.stored_opks@) =~= fresh@);
        out
    }

    /// The answer to an upload of one-time pre-keys: `change` settles the
    /// request, and drops the keys if the server did not take them.
    pub open spec fn is_uploaded(
        &self,
        upload_id: MessageId,
        accepted: bool,
        change: Change,
    ) -> bool {
        &&& change.wf()
        &&& change.sessions.is_none()
        &&& change.processed.is_none()
        &&& change.signed_keys is None
        &&& change.next_one_time_prekey_id is None
        &&& settles(change.outbox, self.pending_outbound@, Awaited::PreKeyUpload, upload_id)
        &&& change.outbox.fits(self.pending_outbound@.len())
        &&& change.one_time_prekeys.put@.len() == 0
        &&& change.created_at.is_none()
        &&& match change.outbox {
            OutboxChange::Remove(at) if !accepted => {
                self.pending_outbound@[at as int] matches PendingOutbound::PreKeyUpload {
                    prekeys,
                    ..
                } && change.one_time_prekeys.take@ == prekeys@.map_values(
                    |key: WirePreKey| key.key_id,
                )
            },
            _ => change.one_time_prekeys.take@.len() == 0,
        }
    }

    /// The server has answered an upload of one-time pre-keys. Keys that it
    /// did not take are dropped: nobody can use them.
    pub fn confirm_prekeys_uploaded(&self, upload_id: &MessageId, accepted: bool) -> (change:
        Change)
        ensures
            self.is_uploaded(*upload_id, accepted, change),
    {
        let mut change = Change::none();
        let at: usize = match position_awaiting(
            &self.pending_outbound,
            Awaited::PreKeyUpload,
            upload_id,
        ) {
            Some(at) => at,
            None => return change,
        };
        change.outbox = OutboxChange::Remove(at);
        if accepted {
            return change;
        }
        match &self.pending_outbound[at] {
            PendingOutbound::PreKeyUpload { prekeys, .. } => {
                let mut ids: Vec<u32> = Vec::new();
                let mut i: usize = 0;
                while i < prekeys.len()
                    invariant
                        i <= prekeys@.len(),
                        ids@.len() == i,
                        forall|j: int| 0 <= j < i ==> #[trigger] ids@[j] == prekeys@[j].key_id,
                    decreases prekeys@.len() - i,
                {
                    ids.push(prekeys[i].key_id);
                    i += 1;
                }
                assert(ids@ =~= prekeys@.map_values(|key: WirePreKey| key.key_id));
                change.one_time_prekeys = TableChange { take: ids, put: Vec::new() };
            },
            _ => {},
        }
        change
    }

    /// An upload of one-time pre-keys waits for its answer.
    pub open spec fn uploads(&self) -> bool {
        exists|i: int|
            0 <= i < self.pending_outbound@.len() && (#[trigger] self.pending_outbound@[i])
                is PreKeyUpload
    }

    /// New one-time pre-keys are offered to the server, or an offer that waits
    /// for its answer is repeated.
    pub open spec fn replenishes(
        &self,
        out: Result<(ClientMessage, Change), CryptoError>,
    ) -> bool {
        if self.uploads() {
            out matches Ok((request, change)) && change.only_outbox() && change.outbox is Keep
                && exists|i: int|
                {
                    &&& 0 <= i < self.pending_outbound@.len()
                    &&& (#[trigger] self.pending_outbound@[i]) is PreKeyUpload
                    &&& self.pending_outbound@[i].asks(request)
                    &&& forall|j: int|
                        0 <= j < i ==> !((#[trigger] self.pending_outbound@[j]) is PreKeyUpload)
                }
        } else if self.next_one_time_prekey_id + PREKEY_TARGET > u32::MAX {
            out matches Err(error) && error == CryptoError::RatchetFailed
        } else if !has_capacity(self.pending_outbound@, (PREKEY_TARGET * 48) as nat) {
            out matches Err(error) && error == CryptoError::OutboxFull
        } else {
            out matches Ok((request, change)) && self.offers_keys(request, change)
        }
    }

    /// Offers the server new one-time pre-keys. If an offer waits for its
    /// answer already, that one is repeated.
    pub fn queue_prekey_replenishment(&self) -> (out: Result<(ClientMessage, Change), CryptoError>)
        ensures
            self.replenishes(out),
    {
        let mut i: usize = 0;
        while i < self.pending_outbound.len()
            invariant
                i <= self.pending_outbound@.len(),
                forall|j: int|
                    0 <= j < i ==> !((#[trigger] self.pending_outbound@[j]) is PreKeyUpload),
            decreases self.pending_outbound@.len() - i,
        {
            match &self.pending_outbound[i] {
                PendingOutbound::PreKeyUpload { .. } => {
                    let request = self.pending_outbound[i].to_client_message();
                    return Ok((request, Change::none()));
                },
                _ => {},
            }
            i += 1;
        }
        let start: u32 = self.next_one_time_prekey_id;
        let count: u32 = PREKEY_TARGET as u32;
        let generated = match generate_one_time_prekeys(start, count) {
            Ok(keys) => keys,
            Err(_) => return Err(CryptoError::RatchetFailed),
        };
        match ensure_capacity(&self.pending_outbound, generated.len() * 48) {
            Ok(()) => {},
            Err(error) => return Err(error),
        }
        let mut upload: Vec<WirePreKey> = Vec::new();
        let mut put: Vec<(u32, OneTimePreKey)> = Vec::new();
        let mut rest = generated;
        let ghost all = rest@;
        let mut next: u32 = start;
        while rest.len() > 0
            invariant
                start + count <= u32::MAX,
                all.len() == count,
                next == start + put@.len(),
                put@.len() + rest@.len() == count,
                rest@ =~= all.skip(put@.len() as int),
                forall|j: int|
                    0 <= j < all.len() ==> (#[trigger] all[j]).spec_key_id() == start + j
                        && all[j].wf(),
                offers(upload@, put@),
                forall|j: int|
                    0 <= j < put@.len() ==> (#[trigger] put@[j]).0 == start + j
                        && put@[j].1.spec_key_id() == start + j && put@[j].1.wf(),
            decreases rest@.len(),
        {
            let ghost n = put@.len() as int;
            let key = rest.remove(0);
            assert(key == all[n]);
            upload.push(
                WirePreKey { key_id: key.key_id(), public_key: encode(key.public().as_bytes()) },
            );
            put.push((key.key_id(), key));
            next = next + 1;
        }
        let item = PendingOutbound::PreKeyUpload { upload_id: MessageId::new(), prekeys: upload };
        let request = item.to_client_message();
        let mut change = Change::none();
        change.one_time_prekeys = TableChange { take: Vec::new(), put };
        change.next_one_time_prekey_id = Some(next);
        change.outbox = OutboxChange::Add(item);
        Ok((request, change))
    }

    /// `change` adds `PREKEY_TARGET` new one-time pre-keys from the next
    /// identifier on, and `request` offers them.
    pub open spec fn offers_keys(&self, request: ClientMessage, change: Change) -> bool {
        let start = self.next_one_time_prekey_id;
        &&& change.wf()
        &&& change.sessions.is_none()
        &&& change.processed.is_none()
        &&& change.signed_keys is None
        &&& change.next_one_time_prekey_id == Some((start + PREKEY_TARGET) as u32)
        &&& change.one_time_prekeys.take@.len() == 0
        &&& change.one_time_prekeys.put@.len() == PREKEY_TARGET
        &&& forall|i: int|
            0 <= i < PREKEY_TARGET ==> (#[trigger] change.one_time_prekeys.put@[i]).0 == start + i
                && change.one_time_prekeys.put@[i].1.spec_key_id() == start + i
                && change.one_time_prekeys.put@[i].1.wf()
        &&& change.created_at.is_none()
        &&& change.outbox matches OutboxChange::Add(item) && item.asks(request) && (item matches
            PendingOutbound::PreKeyUpload { upload_id, prekeys } && is_random_uuid(upload_id@)
            && offers(prekeys@, change.one_time_prekeys.put@))
    }

    /// A rotation of the signed pre-key waits for its answer.
    pub open spec fn rotates(&self) -> bool {
        exists|i: int|
            0 <= i < self.pending_outbound@.len() && (#[trigger] self.pending_outbound@[i])
                is SignedPreKeyRotation
    }

    /// The signed pre-key is due to be replaced.
    pub open spec fn rotation_due(&self, now: u64) -> bool {
        &&& self.stored_spk is Some
        &&& !self.rotates()
        &&& now >= self.signed_prekey_rotated_at + SIGNED_PREKEY_ROTATION_SECS
    }

    /// `change` puts a new signed pre-key with this identifier in use, keeps
    /// `history` behind it, and announces it with the request `item`.
    pub open spec fn rotates_to(
        &self,
        change: Change,
        item: PendingOutbound,
        key_id: u32,
        history: Seq<SignedPreKey>,
        now: u64,
    ) -> bool {
        &&& change.wf()
        &&& change.sessions.is_none()
        &&& change.processed.is_none()
        &&& change.one_time_prekeys.is_none()
        &&& change.created_at.is_none()
        &&& change.next_one_time_prekey_id is None
        &&& change.signed_keys matches Some(keys) && keys.rotated_at == now && same_signed_list(
            keys.previous@,
            bounded(history),
        ) && (keys.current matches Some(current) && current.spec_key_id() == key_id && current.wf()
            && current.spec_signature() == ed25519_sign(
            self.spec_identity(),
            current.spec_public(),
        ) && announces(item, current))
    }

    /// A new signed pre-key comes into use, and is announced, if it is time.
    pub open spec fn renews(&self, now: u64, out: Result<Option<Change>, CryptoError>) -> bool {
        if !self.rotation_due(now) {
            out matches Ok(change) && change is None
        } else if self.stored_spk->0.spec_key_id() == u32::MAX {
            out matches Err(error) && error == CryptoError::RatchetFailed
        } else if !has_capacity(self.pending_outbound@, 96) {
            out matches Err(error) && error == CryptoError::OutboxFull
        } else {
            out matches Ok(Some(change)) && (change.outbox matches OutboxChange::Add(item)
                && self.rotates_to(
                change,
                item,
                (self.stored_spk->0.spec_key_id() + 1) as u32,
                seq![self.stored_spk->0] + self.previous_spks@,
                now,
            ))
        }
    }

    /// Puts a new signed pre-key in use if the one in use has been for long
    /// enough, and announces it to the server.
    pub fn queue_signed_prekey_rotation(&self, now: u64) -> (out: Result<
        Option<Change>,
        CryptoError,
    >)
        ensures
            self.renews(now, out),
    {
        let current = match &self.stored_spk {
            Some(current) => current,
            None => return Ok(None),
        };
        let mut i: usize = 0;
        while i < self.pending_outbound.len()
            invariant
                i <= self.pending_outbound@.len(),
                forall|j: int|
                    0 <= j < i ==> !((#[trigger] self.pending_outbound@[j])
                        is SignedPreKeyRotation),
            decreases self.pending_outbound@.len() - i,
        {
            match &self.pending_outbound[i] {
                PendingOutbound::SignedPreKeyRotation { .. } => {
                    assert(self.pending_outbound@[i as int] is SignedPreKeyRotation);
                    return Ok(None);
                },
                _ => {},
            }
            i += 1;
        }
        if now < self.signed_prekey_rotated_at || now - self.signed_prekey_rotated_at
            < SIGNED_PREKEY_ROTATION_SECS {
            return Ok(None);
        }
        let key_id: u32 = match current.key_id().checked_add(1) {
            Some(key_id) => key_id,
            None => return Err(CryptoError::RatchetFailed),
        };
        match ensure_capacity(&self.pending_outbound, 96) {
            Ok(()) => {},
            Err(error) => return Err(error),
        }
        let fresh = SignedPreKey::generate(key_id, &self.identity);
        let item = announcement(&fresh);
        let mut change = Change::none();
        change.signed_keys = Some(
            SignedKeys {
                current: Some(fresh),
                previous: bounded_history(Some(current), &self.previous_spks),
                rotated_at: now,
            },
        );
        change.outbox = OutboxChange::Add(item);
        Ok(Some(change))
    }

    /// The signed pre-keys that stay behind a replacement for one that the
    /// server refused: a key that the server had accepted before may be in
    /// use by a message on its way.
    pub open spec fn kept_history(&self, previously_accepted: bool) -> Seq<SignedPreKey> {
        if previously_accepted {
            self.signed_prekeys()
        } else {
            self.previous_spks@
        }
    }

    /// The answer to a rotation of the signed pre-key: the request is settled,
    /// or replaced with one for another key.
    pub open spec fn is_rotated(
        &self,
        rotation_id: MessageId,
        accepted: bool,
        previously_accepted: bool,
        current_key_id: u32,
        now: u64,
        out: Result<(Option<ClientMessage>, Change), CryptoError>,
    ) -> bool {
        &&& if none_awaiting(self.pending_outbound@, Awaited::Rotation, rotation_id) || accepted {
            out matches Ok((replacement, change)) && replacement is None && change.only_outbox()
                && settles(
                change.outbox,
                self.pending_outbound@,
                Awaited::Rotation,
                rotation_id,
            )
        } else if current_key_id == u32::MAX {
            out matches Err(error) && error == CryptoError::RatchetFailed
        } else {
            out matches Ok((Some(request), change)) && (change.outbox matches
                OutboxChange::Replace(at, item) && first_awaiting(
                self.pending_outbound@,
                Awaited::Rotation,
                rotation_id,
                at as int,
            ) && item.asks(request) && self.rotates_to(
                change,
                item,
                (current_key_id + 1) as u32,
                self.kept_history(previously_accepted),
                now,
            ))
        }
        &&& out matches Ok(done) ==> done.1.outbox.fits(self.pending_outbound@.len())
    }

    /// The server has answered a rotation of the signed pre-key. If it did not
    /// take the key, because it holds a newer one, another key is put in use
    /// with the identifier after that, and announced in place of the first.
    pub fn confirm_signed_prekey_rotated(
        &self,
        rotation_id: &MessageId,
        accepted: bool,
        previously_accepted: bool,
        current_key_id: u32,
        now: u64,
    ) -> (out: Result<(Option<ClientMessage>, Change), CryptoError>)
        ensures
            self.is_rotated(
                *rotation_id,
                accepted,
                previously_accepted,
                current_key_id,
                now,
                out,
            ),
    {
        let mut change = Change::none();
        let at: usize = match position_awaiting(
            &self.pending_outbound,
            Awaited::Rotation,
            rotation_id,
        ) {
            Some(at) => at,
            None => return Ok((None, change)),
        };
        if accepted {
            change.outbox = OutboxChange::Remove(at);
            return Ok((None, change));
        }
        let key_id: u32 = match current_key_id.checked_add(1) {
            Some(key_id) => key_id,
            None => return Err(CryptoError::RatchetFailed),
        };
        let fresh = SignedPreKey::generate(key_id, &self.identity);
        let item = announcement(&fresh);
        let request = item.to_client_message();
        let front = if previously_accepted {
            self.stored_spk.as_ref()
        } else {
            None
        };
        change.signed_keys = Some(
            SignedKeys {
                current: Some(fresh),
                previous: bounded_history(front, &self.previous_spks),
                rotated_at: now,
            },
        );
        change.outbox = OutboxChange::Replace(at, item);
        Ok((Some(request), change))
    }
}

/// The keys of a table.
fn all_keys<V>(table: &Table<u32, V>) -> (out: Vec<u32>)
    ensures
        forall|id: u32| #[trigger] table@.contains_key(id) ==> listed(out@, id),
{
    let entries = table.entries();
    let mut out: Vec<u32> = Vec::new();
    let mut i: usize = 0;
    while i < entries.len()
        invariant
            i <= entries@.len(),
            out@.len() == i,
            forall|j: int| 0 <= j < i ==> #[trigger] out@[j] == entries@[j].0,
        decreases entries@.len() - i,
    {
        out.push(entries[i].0);
        i += 1;
    }
    assert forall|id: u32| #[trigger] table@.contains_key(id) implies listed(out@, id) by {
        let j = key_position(entries@, id);
        assert(out@[j] == id);
    }
    out
}

} // verus!
