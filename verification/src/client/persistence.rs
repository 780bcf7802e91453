//! The manager as it is stored, and as it comes back after a restart.

use super::crypto_mgr::{
    CoreState, CryptoManager, PeerSession, StoredOpk, StoredSpk, LEGACY_PREKEY_ID_FLOOR,
};
use super::outbox::PendingOutbound;
use super::replay::{prune_processed, validate_peer_ids, ReplayLedger};
use crate::bytes::{exact32, exact64};
use crate::crypto::keys::{IdentityKeyPair, OneTimePreKey, Signature, SignedPreKey};
use crate::encoding::{decode, encode};
use crate::protocol::UserId;
use crate::table::Table;
use vstd::prelude::*;
use vstd::string::*;

verus! {

use super::prekeys::{after_id, same_one_time, same_signed, same_signed_list};
use super::replay::{pruned, LedgerModel};
use super::sessions::holds_bytes;
use crate::encoding::{base64_bytes, encodes};
use crate::protocol::types::valid_user_id;
use crate::table::{distinct_keys, entry_map, key_position, lemma_entry};

/// Why the stored state cannot be used.
#[derive(Debug, PartialEq, Eq, Structural)]
pub enum LoadError {
    CorruptIdentity,
    CorruptSignedPreKey,
    InvalidPeerId,
}

impl LoadError {
    /// A description for people.
    pub fn message(&self) -> (out: String)
        ensures
            out@ == (match self {
                LoadError::CorruptIdentity => "corrupt identity key file"@,
                LoadError::CorruptSignedPreKey => "corrupt signed prekey signature"@,
                LoadError::InvalidPeerId => "invalid peer ID in persisted cryptographic state"@,
            }),
    {
        match self {
            LoadError::CorruptIdentity => "corrupt identity key file".to_owned(),
            LoadError::CorruptSignedPreKey => "corrupt signed prekey signature".to_owned(),
            LoadError::InvalidPeerId => {
                "invalid peer ID in persisted cryptographic state".to_owned()
            },
        }
    }
}

/// The identity out of its key file, which holds exactly its 32 secret bytes.
pub fn decode_identity(bytes: &[u8]) -> (out: Result<IdentityKeyPair, LoadError>)
    ensures
        match out {
            Ok(identity) => bytes@.len() == 32 && identity@ == bytes@,
            Err(error) => bytes@.len() != 32 && error == LoadError::CorruptIdentity,
        },
{
    match exact32(bytes) {
        Some(seed) => Ok(IdentityKeyPair::from_bytes(&seed)),
        None => Err(LoadError::CorruptIdentity),
    }
}

/// `stored` is the stored form of a signed pre-key.
pub open spec fn stores_signed(stored: StoredSpk, key: SignedPreKey) -> bool {
    &&& stored.key_id == key.spec_key_id()
    &&& stored.secret_bytes@ == key.spec_secret()
    &&& stored.public_bytes@ == key.spec_public()
    &&& encodes(stored.signature_b64@, key.spec_signature())
}

/// `key` is the signed pre-key whose stored form is `stored`.
pub open spec fn loads_signed(key: SignedPreKey, stored: StoredSpk) -> bool {
    &&& key.spec_key_id() == stored.key_id
    &&& key.spec_secret() == stored.secret_bytes@
    &&& key.spec_public() == stored.public_bytes@
    &&& base64_bytes(stored.signature_b64@) == Some(key.spec_signature())
}

/// The stored form of a signed pre-key can be read.
pub open spec fn loadable(stored: StoredSpk) -> bool {
    holds_bytes(stored.signature_b64@, 64)
}

/// `stored` is the stored form of a one-time pre-key.
pub open spec fn stores_one_time(stored: StoredOpk, key: OneTimePreKey) -> bool {
    &&& stored.key_id == key.spec_key_id()
    &&& stored.secret_bytes@ == key.spec_secret()
    &&& stored.public_bytes@ == key.spec_public()
}

/// The last stored key with this identifier.
pub open spec fn last_stored(stored: Seq<StoredOpk>, id: u32) -> Option<StoredOpk>
    decreases stored.len(),
{
    if stored.len() == 0 {
        None
    } else if stored.last().key_id == id {
        Some(stored.last())
    } else {
        last_stored(stored.drop_last(), id)
    }
}

/// `keys` holds the stored keys, each under its identifier.
pub open spec fn loads_one_time(keys: Map<u32, OneTimePreKey>, stored: Seq<StoredOpk>) -> bool {
    forall|id: u32|
        {
            &&& #[trigger] keys.contains_key(id) <==> last_stored(stored, id) is Some
            &&& keys.contains_key(id) ==> stores_one_time(last_stored(stored, id)->0, keys[id])
        }
}

/// The least identifier from which new one-time pre-keys may be numbered: past
/// every stored one, and not below `least`.
pub open spec fn next_free_id(stored: Seq<StoredOpk>, least: u32) -> u32
    decreases stored.len(),
{
    if stored.len() == 0 {
        least
    } else {
        let others = next_free_id(stored.drop_last(), least);
        let own = after_id(stored.last().key_id);
        if own > others {
            own
        } else {
            others
        }
    }
}

/// The larger of two numbers.
pub open spec fn larger(a: u32, b: u32) -> u32 {
    if a > b {
        a
    } else {
        b
    }
}

/// Every peer in the ledger is a valid user id.
pub open spec fn valid_ledger(ledger: LedgerModel) -> bool {
    forall|key: (Seq<char>, Seq<char>)| #[trigger]
        ledger.contains_key(key) ==> valid_user_id(key.0)
}

/// Every peer of the sessions is a valid user id.
pub open spec fn valid_sessions(sessions: Map<Seq<char>, PeerSession>) -> bool {
    forall|name: Seq<char>| #[trigger] sessions.contains_key(name) ==> valid_user_id(name)
}

/// The signed pre-keys of a stored state can be read.
pub open spec fn signed_loadable(core: CoreState) -> bool {
    &&& core.signed_prekey matches Some(stored) ==> loadable(stored)
    &&& forall|i: int|
        0 <= i < core.previous_signed_prekeys@.len() ==> loadable(
            #[trigger] core.previous_signed_prekeys@[i],
        )
}

/// A signed pre-key out of its stored form.
pub fn decode_stored_spk(stored: &StoredSpk) -> (out: Option<SignedPreKey>)
    ensures
        out is Some <==> loadable(*stored),
        out matches Some(key) ==> loads_signed(key, *stored),
{
    match decode(stored.signature_b64.as_str()) {
        Some(bytes) => match exact64(&bytes) {
            Some(signature) => Some(
                SignedPreKey::from_parts(
                    stored.key_id,
                    stored.secret_bytes,
                    stored.public_bytes,
                    Signature::from_bytes(signature),
                ),
            ),
            None => None,
        },
        None => None,
    }
}

/// The one-time pre-keys out of their stored form, each under its identifier.
pub fn decode_stored_opks(stored: &Vec<StoredOpk>) -> (out: Table<u32, OneTimePreKey>)
    ensures
        loads_one_time(out@, stored@),
{
    let mut out: Table<u32, OneTimePreKey> = Table::new();
    let mut i: usize = 0;
    while i < stored.len()
        invariant
            i <= stored@.len(),
            loads_one_time(out@, stored@.take(i as int)),
        decreases stored@.len() - i,
    {
        let ghost before = out@;
        let ghost seen = stored@.take(i as int);
        let ghost more = stored@.take(i + 1);
        assert(more.drop_last() =~= seen);
        assert(more.last() == stored@[i as int]);
        let one = &stored[i];
        out.insert(
            one.key_id,
            OneTimePreKey::from_parts(one.key_id, one.secret_bytes, one.public_bytes),
        );
        assert forall|id: u32|
            {
                &&& #[trigger] out@.contains_key(id) <==> last_stored(more, id) is Some
                &&& out@.contains_key(id) ==> stores_one_time(last_stored(more, id)->0, out@[id])
            } by {
            assert(before.contains_key(id) <==> last_stored(seen, id) is Some);
        }
        i += 1;
    }
    assert(stored@.take(i as int) =~= stored@);
    out
}

fn next_free(stored: &Vec<StoredOpk>, least: u32) -> (out: u32)
    ensures
        out == next_free_id(stored@, least),
{
    let mut out: u32 = least;
    let mut i: usize = 0;
    while i < stored.len()
        invariant
            i <= stored@.len(),
            out == next_free_id(stored@.take(i as int), least),
        decreases stored@.len() - i,
    {
        let ghost more = stored@.take(i + 1);
        assert(more.drop_last() =~= stored@.take(i as int));
        assert(more.last() == stored@[i as int]);
        let own: u32 = stored[i].key_id.saturating_add(1);
        if own > out {
            out = own;
        }
        i += 1;
    }
    assert(stored@.take(i as int) =~= stored@);
    out
}

fn validate_ledger(ledger: &ReplayLedger) -> (out: bool)
    ensures
        out == valid_ledger(ledger@),
{
    let entries = ledger.entries();
    let mut i: usize = 0;
    while i < entries.len()
        invariant
            i <= entries@.len(),
            distinct_keys(entries@),
            entry_map(entries@) == ledger@,
            forall|j: int| 0 <= j < i ==> valid_user_id((#[trigger] entries@[j]).0.0@),
        decreases entries@.len() - i,
    {
        if UserId::new(entries[i].0.0.as_str()).is_err() {
            proof {
                lemma_entry(entries@, i as int);
            }
            return false;
        }
        i += 1;
    }
    assert forall|key: (Seq<char>, Seq<char>)| #[trigger] ledger@.contains_key(key) implies
        valid_user_id(key.0) by {
        let j = key_position(entries@, key);
        assert(entries@[j].0.0@ == key.0);
    }
    true
}

/// When each of the one-time pre-keys came to be, as far as that was stored.
/// The others count from now on.
pub open spec fn ages(
    keys: Map<u32, OneTimePreKey>,
    stored: Map<u32, u64>,
    now: u64,
) -> Map<u32, u64> {
    Map::new(
        |id: u32| keys.contains_key(id),
        |id: u32|
            if stored.contains_key(id) {
                stored[id]
            } else {
                now
            },
    )
}

fn known_ages(keys: &Table<u32, OneTimePreKey>, stored: &Table<u32, u64>, now: u64) -> (out: Table<
    u32,
    u64,
>)
    ensures
        out@ == ages(keys@, stored@, now),
{
    let entries = keys.entries();
    let mut out: Table<u32, u64> = Table::new();
    let mut i: usize = 0;
    while i < entries.len()
        invariant
            i <= entries@.len(),
            distinct_keys(entries@),
            entry_map(entries@) == keys@,
            forall|id: u32| #[trigger]
                out@.contains_key(id) ==> ages(keys@, stored@, now).contains_key(id) && out@[id]
                    == ages(keys@, stored@, now)[id],
            forall|j: int| 0 <= j < i ==> out@.contains_key((#[trigger] entries@[j]).0),
        decreases entries@.len() - i,
    {
        let id: u32 = entries[i].0;
        proof {
            lemma_entry(entries@, i as int);
        }
        let at: u64 = match stored.get(&id) {
            Some(at) => *at,
            None => now,
        };
        out.insert(id, at);
        i += 1;
    }
    assert forall|id: u32| #[trigger] keys@.contains_key(id) implies out@.contains_key(id) by {
        let j = key_position(entries@, id);
        assert(entries@[j].0 == id);
    }
    assert(out@ =~= ages(keys@, stored@, now));
    out
}

impl CryptoManager {
    /// The manager is what a stored state stands for.
    pub open spec fn restored_from(
        &self,
        core: CoreState,
        outbox: Vec<PendingOutbound>,
        processed: LedgerModel,
        now: u64,
    ) -> bool {
        &&& self.sessions == core.sessions
        &&& self.pending_inits@ == Map::<Seq<char>, ()>::empty()
        &&& match core.signed_prekey {
            Some(stored) => self.stored_spk matches Some(key) && loads_signed(key, stored),
            None => self.stored_spk is None,
        }
        &&& self.previous_spks@.len() == core.previous_signed_prekeys@.len()
        &&& forall|i: int|
            0 <= i < self.previous_spks@.len() ==> loads_signed(
                #[trigger] self.previous_spks@[i],
                core.previous_signed_prekeys@[i],
            )
        &&& self.signed_prekey_rotated_at == core.signed_prekey_rotated_at
        &&& loads_one_time(self.stored_opks@, core.one_time_prekeys@)
        &&& self.next_one_time_prekey_id == next_free_id(
            core.one_time_prekeys@,
            larger(
                match core.next_one_time_prekey_id {
                    Some(id) => id,
                    None => 0,
                },
                LEGACY_PREKEY_ID_FLOOR,
            ),
        )
        &&& self.one_time_prekey_created_at@ == ages(
            self.stored_opks@,
            core.one_time_prekey_created_at@,
            now,
        )
        &&& self.pending_outbound == outbox
        &&& self.processed_messages@ == pruned(processed, now)
    }

    /// The manager with a given identity out of its stored state.
    pub fn restore(
        identity: IdentityKeyPair,
        core: CoreState,
        outbox: Vec<PendingOutbound>,
        processed: ReplayLedger,
        now: u64,
    ) -> (out: Result<CryptoManager, LoadError>)
        ensures
            if !signed_loadable(core) {
                out matches Err(error) && error == LoadError::CorruptSignedPreKey
            } else if !valid_sessions(core.sessions@) || !valid_ledger(processed@) {
                out matches Err(error) && error == LoadError::InvalidPeerId
            } else {
                out matches Ok(manager) && manager.identity == identity && manager.restored_from(
                    core,
                    outbox,
                    processed@,
                    now,
                )
            },
    {
        let ghost given = core;
        let stored_spk = match &core.signed_prekey {
            Some(stored) => match decode_stored_spk(stored) {
                Some(key) => Some(key),
                None => return Err(LoadError::CorruptSignedPreKey),
            },
            None => None,
        };
        let mut previous_spks: Vec<SignedPreKey> = Vec::new();
        let mut i: usize = 0;
        while i < core.previous_signed_prekeys.len()
            invariant
                i <= core.previous_signed_prekeys@.len(),
                core == given,
                previous_spks@.len() == i,
                forall|j: int|
                    0 <= j < i ==> loads_signed(
                        #[trigger] previous_spks@[j],
                        core.previous_signed_prekeys@[j],
                    ),
                forall|j: int|
                    0 <= j < i ==> loadable(#[trigger] core.previous_signed_prekeys@[j]),
            decreases core.previous_signed_prekeys@.len() - i,
        {
            match decode_stored_spk(&core.previous_signed_prekeys[i]) {
                Some(key) => previous_spks.push(key),
                None => return Err(LoadError::CorruptSignedPreKey),
            }
            i += 1;
        }
        let stored_opks = decode_stored_opks(&core.one_time_prekeys);
        let one_time_prekey_created_at = known_ages(
            &stored_opks,
            &core.one_time_prekey_created_at,
            now,
        );
        let persisted: u32 = match core.next_one_time_prekey_id {
            Some(id) => id,
            None => 0,
        };
        let least: u32 = if persisted > LEGACY_PREKEY_ID_FLOOR {
            persisted
        } else {
            LEGACY_PREKEY_ID_FLOOR
        };
        let next_one_time_prekey_id: u32 = next_free(&core.one_time_prekeys, least);
        if !validate_peer_ids(&core.sessions) || !validate_ledger(&processed) {
            return Err(LoadError::InvalidPeerId);
        }
        let mut processed_messages = processed;
        prune_processed(&mut processed_messages, now);
        Ok(
            CryptoManager {
                identity,
                sessions: core.sessions,
                pending_inits: Table::new(),
                stored_spk,
                previous_spks,
                signed_prekey_rotated_at: core.signed_prekey_rotated_at,
                stored_opks,
                next_one_time_prekey_id,
                one_time_prekey_created_at,
                pending_outbound: outbox,
                processed_messages,
            },
        )
    }

    /// `core` is the stored form of the manager's keys and sessions.
    pub open spec fn stored_as(&self, core: CoreState) -> bool {
        &&& match self.stored_spk {
            Some(key) => core.signed_prekey matches Some(stored) && stores_signed(stored, key),
            None => core.signed_prekey is None,
        }
        &&& core.previous_signed_prekeys@.len() == self.previous_spks@.len()
        &&& forall|i: int|
            0 <= i < self.previous_spks@.len() ==> stores_signed(
                #[trigger] core.previous_signed_prekeys@[i],
                self.previous_spks@[i],
            )
        &&& core.signed_prekey_rotated_at == self.signed_prekey_rotated_at
        &&& exists|entries: Seq<(u32, OneTimePreKey)>|
            {
                &&& distinct_keys(entries)
                &&& #[trigger] entry_map(entries) == self.stored_opks@
                &&& core.one_time_prekeys@.len() == entries.len()
                &&& forall|i: int|
                    0 <= i < entries.len() ==> stores_one_time(
                        #[trigger] core.one_time_prekeys@[i],
                        entries[i].1,
                    )
            }
        &&& core.sessions@.dom() == self.sessions@.dom()
        &&& forall|name: Seq<char>| #[trigger]
            self.sessions@.contains_key(name) ==> core.sessions@[name]@ == self.sessions@[name]@
        &&& core.next_one_time_prekey_id == Some(self.next_one_time_prekey_id)
        &&& core.one_time_prekey_created_at@ == self.one_time_prekey_created_at@
    }

    /// The keys and sessions in the form in which they are stored.
    pub fn core_state(&self) -> (out: CoreState)
        ensures
            self.stored_as(out),
    {
        let signed_prekey = match &self.stored_spk {
            Some(key) => Some(stored_form(key)),
            None => None,
        };
        let mut previous_signed_prekeys: Vec<StoredSpk> = Vec::new();
        let mut i: usize = 0;
        while i < self.previous_spks.len()
            invariant
                i <= self.previous_spks@.len(),
                previous_signed_prekeys@.len() == i,
                forall|j: int|
                    0 <= j < i ==> stores_signed(
                        #[trigger] previous_signed_prekeys@[j],
                        self.previous_spks@[j],
                    ),
            decreases self.previous_spks@.len() - i,
        {
            previous_signed_prekeys.push(stored_form(&self.previous_spks[i]));
            i += 1;
        }
        let entries = self.stored_opks.entries();
        let mut one_time_prekeys: Vec<StoredOpk> = Vec::new();
        let mut k: usize = 0;
        while k < entries.len()
            invariant
                k <= entries@.len(),
                one_time_prekeys@.len() == k,
                forall|j: int|
                    0 <= j < k ==> stores_one_time(
                        #[trigger] one_time_prekeys@[j],
                        entries@[j].1,
                    ),
            decreases entries@.len() - k,
        {
            let key = &entries[k].1;
            one_time_prekeys.push(
                StoredOpk {
                    key_id: key.key_id(),
                    secret_bytes: key.secret().to_bytes(),
                    public_bytes: key.public().to_bytes(),
                },
            );
            k += 1;
        }
        let one_time_prekey_created_at = self.one_time_prekey_created_at.duplicate();
        assert(one_time_prekey_created_at@ =~= self.one_time_prekey_created_at@);
        let sessions = self.sessions.duplicate();
        assert(entry_map(entries@) == self.stored_opks@);
        CoreState {
            signed_prekey,
            previous_signed_prekeys,
            signed_prekey_rotated_at: self.signed_prekey_rotated_at,
            one_time_prekeys,
            sessions,
            next_one_time_prekey_id: Some(self.next_one_time_prekey_id),
            one_time_prekey_created_at,
        }
    }

    /// Every one-time pre-key is kept under its own identifier, below the next
    /// one.
    pub open spec fn keys_in_order(&self) -> bool {
        forall|id: u32| #[trigger]
            self.stored_opks@.contains_key(id) ==> self.stored_opks@[id].spec_key_id() == id && id
                < self.next_one_time_prekey_id
    }
}

fn stored_form(key: &SignedPreKey) -> (out: StoredSpk)
    ensures
        stores_signed(out, *key),
{
    StoredSpk {
        key_id: key.key_id(),
        secret_bytes: key.secret().to_bytes(),
        public_bytes: key.public().to_bytes(),
        signature_b64: encode(&key.signature().to_bytes()),
    }
}

proof fn lemma_next_free(stored: Seq<StoredOpk>, least: u32)
    requires
        forall|i: int| 0 <= i < stored.len() ==> (#[trigger] stored[i]).key_id < least,
    ensures
        next_free_id(stored, least) == least,
    decreases stored.len(),
{
    if stored.len() > 0 {
        let rest = stored.drop_last();
        assert forall|i: int| 0 <= i < rest.len() implies (#[trigger] rest[i]).key_id < least by {
            assert(rest[i] == stored[i]);
        }
        lemma_next_free(rest, least);
        assert(stored.last().key_id < least);
    }
}

proof fn lemma_last_stored(stored: Seq<StoredOpk>, i: int)
    requires
        0 <= i < stored.len(),
        forall|a: int, b: int|
            0 <= a < b < stored.len() ==> (#[trigger] stored[a]).key_id != (
            #[trigger] stored[b]).key_id,
    ensures
        last_stored(stored, stored[i].key_id) == Some(stored[i]),
    decreases stored.len(),
{
    if i < stored.len() - 1 {
        let rest = stored.drop_last();
        assert(stored.last().key_id != stored[i].key_id);
        assert forall|a: int, b: int| 0 <= a < b < rest.len() implies (#[trigger] rest[a]).key_id
            != (#[trigger] rest[b]).key_id by {
            assert(stored[a].key_id != stored[b].key_id);
        }
        lemma_last_stored(rest, i);
        assert(rest[i] == stored[i]);
    }
}

proof fn lemma_stored_somewhere(stored: Seq<StoredOpk>, id: u32)
    requires
        last_stored(stored, id) is Some,
    ensures
        exists|i: int| 0 <= i < stored.len() && (#[trigger] stored[i]).key_id == id,
    decreases stored.len(),
{
    if stored.last().key_id == id {
        assert(stored[stored.len() - 1].key_id == id);
    } else {
        lemma_stored_somewhere(stored.drop_last(), id);
        let i = choose|i: int|
            0 <= i < stored.drop_last().len() && (#[trigger] stored.drop_last()[i]).key_id == id;
        assert(stored[i].key_id == id);
    }
}

/// A restart keeps everything: what is restored from the stored form of a
/// manager has its sessions, its keys and its unfinished requests. A one-time
/// pre-key of which it was not noted when it came to be counts from the restart.
pub proof fn law_restart(
    before: CryptoManager,
    core: CoreState,
    outbox: Vec<PendingOutbound>,
    now: u64,
    after: CryptoManager,
)
    requires
        before.keys_in_order(),
        before.stored_as(core),
        outbox@ == before.pending_outbound@,
        after.restored_from(core, outbox, before.processed_messages@, now),
    ensures
        after.sessions@.dom() == before.sessions@.dom(),
        forall|name: Seq<char>| #[trigger]
            before.sessions@.contains_key(name) ==> after.sessions@[name]@ == before.sessions@[name]@,
        match before.stored_spk {
            Some(key) => after.stored_spk matches Some(same) && same_signed(same, key),
            None => after.stored_spk is None,
        },
        same_signed_list(after.previous_spks@, before.previous_spks@),
        after.signed_prekey_rotated_at == before.signed_prekey_rotated_at,
        after.stored_opks@.dom() == before.stored_opks@.dom(),
        forall|id: u32| #[trigger]
            before.stored_opks@.contains_key(id) ==> same_one_time(
                after.stored_opks@[id],
                before.stored_opks@[id],
            ),
        after.next_one_time_prekey_id == larger(
            before.next_one_time_prekey_id,
            LEGACY_PREKEY_ID_FLOOR,
        ),
        after.one_time_prekey_created_at@ == ages(
            before.stored_opks@,
            before.one_time_prekey_created_at@,
            now,
        ),
        after.pending_outbound@ == before.pending_outbound@,
        after.processed_messages@ == pruned(before.processed_messages@, now),
        after.keys_in_order(),
{
    let stored = core.one_time_prekeys@;
    let entries = choose|entries: Seq<(u32, OneTimePreKey)>|
        {
            &&& distinct_keys(entries)
            &&& #[trigger] entry_map(entries) == before.stored_opks@
            &&& stored.len() == entries.len()
            &&& forall|i: int|
                0 <= i < entries.len() ==> stores_one_time(#[trigger] stored[i], entries[i].1)
        };
    assert forall|i: int| 0 <= i < stored.len() implies (#[trigger] stored[i]).key_id
        == entries[i].0 && stored[i].key_id < before.next_one_time_prekey_id by {
        lemma_entry(entries, i);
        assert(before.stored_opks@.contains_key(entries[i].0));
    }
    assert forall|a: int, b: int| 0 <= a < b < stored.len() implies (#[trigger] stored[a]).key_id
        != (#[trigger] stored[b]).key_id by {
        assert(stored[a].key_id == entries[a].0);
        assert(stored[b].key_id == entries[b].0);
    }
    lemma_next_free(stored, larger(before.next_one_time_prekey_id, LEGACY_PREKEY_ID_FLOOR));
    assert forall|id: u32| #[trigger]
        after.stored_opks@.contains_key(id) <==> before.stored_opks@.contains_key(id) by {
        if after.stored_opks@.contains_key(id) {
            lemma_stored_somewhere(stored, id);
            let i = choose|i: int| 0 <= i < stored.len() && (#[trigger] stored[i]).key_id == id;
            lemma_entry(entries, i);
        }
        if before.stored_opks@.contains_key(id) {
            let i = key_position(entries, id);
            assert(entries[i].0 == id);
            lemma_last_stored(stored, i);
        }
    }
    assert forall|id: u32| #[trigger]
        before.stored_opks@.contains_key(id) implies same_one_time(
        after.stored_opks@[id],
        before.stored_opks@[id],
    ) by {
        let i = key_position(entries, id);
        assert(entries[i].0 == id);
        lemma_entry(entries, i);
        lemma_last_stored(stored, i);
        assert(after.stored_opks@.contains_key(id));
    }
    assert(after.stored_opks@.dom() =~= before.stored_opks@.dom());
    assert(after.one_time_prekey_created_at@ =~= ages(
        before.stored_opks@,
        before.one_time_prekey_created_at@,
        now,
    ));
}

} // verus!
