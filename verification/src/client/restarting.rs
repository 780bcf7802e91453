//! What a restart keeps, and what errors say, stated of the functions that store
//! and restore.

use super::crypto_mgr::{CoreState, CryptoManager, StoredOpk, StoredSpk};
use super::error::CryptoError;
use super::outbox::PendingOutbound;
use super::persistence::{decode_identity, decode_stored_opks, decode_stored_spk, LoadError};
use super::replay::ReplayLedger;
use crate::crypto::keys::{IdentityKeyPair, OneTimePreKey, SignedPreKey};
use crate::table::Table;
use vstd::prelude::*;
use vstd::string::*;

verus! {

use super::exchange::stands_for_so_many;
use crate::encoding::base64_bytes;
use crate::server::guarantees::nameable;
use crate::text::decimal;

/// An identity is read out of its file as it stands there: 32 bytes, no more
/// and no less.
pub proof fn law_identity_is_read(bytes: &[u8], out: Result<IdentityKeyPair, LoadError>)
    requires
        call_ensures(decode_identity, (bytes,), out),
    ensures
        out is Ok <==> bytes@.len() == 32,
        out matches Ok(identity) ==> identity@ == bytes@,
        out matches Err(error) ==> error is CorruptIdentity,
{
}

/// A stored signed pre-key is read exactly if its signature is 64 bytes, as it
/// was stored; and stored one-time pre-keys are read each under its number.
pub proof fn law_stored_keys_are_read(
    stored: &StoredSpk,
    signed: Option<SignedPreKey>,
    list: &Vec<StoredOpk>,
    keys: Table<u32, OneTimePreKey>,
    i: int,
)
    requires
        call_ensures(decode_stored_spk, (stored,), signed),
        call_ensures(decode_stored_opks, (list,), keys),
        0 <= i < list@.len(),
        forall|j: int| i < j < list@.len() ==> (#[trigger] list@[j]).key_id != list@[i].key_id,
    ensures
        signed is Some <==> stands_for_so_many(stored.signature_b64@, 64),
        signed matches Some(key) ==> key.spec_key_id() == stored.key_id && key.spec_secret()
            == stored.secret_bytes@ && key.spec_public() == stored.public_bytes@ && base64_bytes(
            stored.signature_b64@,
        ) == Some(key.spec_signature()),
        keys@.contains_key(list@[i].key_id),
        keys@[list@[i].key_id].spec_key_id() == list@[i].key_id,
        keys@[list@[i].key_id].spec_secret() == list@[i].secret_bytes@,
        keys@[list@[i].key_id].spec_public() == list@[i].public_bytes@,
        forall|id: u32| #[trigger]
            keys@.contains_key(id) ==> exists|j: int|
                0 <= j < list@.len() && (#[trigger] list@[j]).key_id == id,
{
    lemma_last(list@, i);
    assert(keys@.contains_key(list@[i].key_id));
    assert forall|id: u32| #[trigger] keys@.contains_key(id) implies exists|j: int|
        0 <= j < list@.len() && (#[trigger] list@[j]).key_id == id by {
        lemma_somewhere(list@, id);
    }
}

proof fn lemma_last(list: Seq<StoredOpk>, i: int)
    requires
        0 <= i < list.len(),
        forall|j: int| i < j < list.len() ==> (#[trigger] list[j]).key_id != list[i].key_id,
    ensures
        super::persistence::last_stored(list, list[i].key_id) == Some(list[i]),
    decreases list.len(),
{
    if i < list.len() - 1 {
        let rest = list.drop_last();
        assert forall|j: int| i < j < rest.len() implies (#[trigger] rest[j]).key_id
            != rest[i].key_id by {
            assert(list[j].key_id != list[i].key_id);
        }
        lemma_last(rest, i);
        assert(list[list.len() - 1].key_id != list[i].key_id);
    }
}

proof fn lemma_somewhere(list: Seq<StoredOpk>, id: u32)
    requires
        super::persistence::last_stored(list, id) is Some,
    ensures
        exists|j: int| 0 <= j < list.len() && (#[trigger] list[j]).key_id == id,
    decreases list.len(),
{
    if list.len() > 0 {
        if list.last().key_id == id {
            assert(list[list.len() - 1].key_id == id);
        } else {
            lemma_somewhere(list.drop_last(), id);
            let j = choose|j: int|
                0 <= j < list.drop_last().len() && (#[trigger] list.drop_last()[j]).key_id == id;
            assert(list[j].key_id == id);
        }
    }
}

/// A stored state is taken back exactly if its signed pre-keys can be read and
/// all its peers have names. Everything is as it was stored; whose keys were
/// waited for is forgotten, as is what was read too long ago; and the next
/// one-time pre-key is numbered from 2^31 on, above all that are kept.
pub proof fn law_state_is_taken_back(
    identity: IdentityKeyPair,
    core: CoreState,
    outbox: Vec<PendingOutbound>,
    ledger: ReplayLedger,
    now: u64,
    out: Result<CryptoManager, LoadError>,
    name: Seq<char>,
    key: (Seq<char>, Seq<char>),
    i: int,
)
    requires
        call_ensures(CryptoManager::restore, (identity, core, outbox, ledger, now), out),
        0 <= i < core.one_time_prekeys@.len(),
    ensures
        core.signed_prekey matches Some(stored) && !stands_for_so_many(stored.signature_b64@, 64)
            ==> (out matches Err(error) && error is CorruptSignedPreKey),
        core.sessions@.contains_key(name) && !nameable(name) ==> out is Err,
        ledger@.contains_key(key) && !nameable(key.0) ==> out is Err,
        (core.signed_prekey matches Some(stored) ==> stands_for_so_many(stored.signature_b64@, 64))
            && core.previous_signed_prekeys@.len() == 0 && core.sessions@.dom() == Set::<
            Seq<char>,
        >::empty() && ledger@.dom() == Set::<(Seq<char>, Seq<char>)>::empty() ==> out is Ok,
        out matches Ok(manager) ==> {
            &&& manager.identity@ == identity@
            &&& manager.sessions@ == core.sessions@
            &&& manager.pending_outbound@ == outbox@
            &&& manager.pending_inits@ == Map::<Seq<char>, ()>::empty()
            &&& core.signed_prekey matches Some(stored) ==> (manager.stored_spk matches Some(same)
                && same.spec_key_id() == stored.key_id && same.spec_secret()
                == stored.secret_bytes@)
            &&& core.signed_prekey is None ==> manager.stored_spk is None
            &&& manager.previous_spks@.len() == core.previous_signed_prekeys@.len()
            &&& manager.signed_prekey_rotated_at == core.signed_prekey_rotated_at
            &&& manager.processed_messages@.contains_key(key) <==> ledger@.contains_key(key)
                && ledger@[key].processed_at + 31 * 24 * 3600 >= now
            &&& manager.processed_messages@.contains_key(key) ==> manager.processed_messages@[key]
                == ledger@[key]
            &&& manager.stored_opks@.contains_key(core.one_time_prekeys@[i].key_id)
            &&& manager.next_one_time_prekey_id >= 0x8000_0000
            &&& core.next_one_time_prekey_id matches Some(next) ==> manager.next_one_time_prekey_id
                >= next
            &&& manager.next_one_time_prekey_id > core.one_time_prekeys@[i].key_id
                || core.one_time_prekeys@[i].key_id == u32::MAX
            &&& manager.one_time_prekey_created_at@.dom() == manager.stored_opks@.dom()
            &&& manager.one_time_prekey_created_at@[core.one_time_prekeys@[i].key_id] == if
                core.one_time_prekey_created_at@.contains_key(core.one_time_prekeys@[i].key_id) {
                core.one_time_prekey_created_at@[core.one_time_prekeys@[i].key_id]
            } else {
                now
            }
        },
{
    let stored = core.one_time_prekeys@;
    crate::server::guarantees::lemma_nameable(name);
    crate::server::guarantees::lemma_nameable(key.0);
    if (core.signed_prekey matches Some(stored) ==> stands_for_so_many(stored.signature_b64@, 64))
        && core.previous_signed_prekeys@.len() == 0 && core.sessions@.dom() == Set::<
        Seq<char>,
    >::empty() && ledger@.dom() == Set::<(Seq<char>, Seq<char>)>::empty() {
        assert(super::persistence::signed_loadable(core));
        assert(super::persistence::valid_sessions(core.sessions@)) by {
            assert forall|name: Seq<char>| #[trigger]
                core.sessions@.contains_key(name) implies crate::protocol::types::valid_user_id(
                name,
            ) by {
                assert(core.sessions@.dom().contains(name));
            }
        }
        assert(super::persistence::valid_ledger(ledger@)) by {
            assert forall|key: (Seq<char>, Seq<char>)| #[trigger]
                ledger@.contains_key(key) implies crate::protocol::types::valid_user_id(key.0) by {
                assert(ledger@.dom().contains(key));
            }
        }
    }
    if let Ok(manager) = out {
        let least = super::persistence::larger(
            match core.next_one_time_prekey_id {
                Some(id) => id,
                None => 0,
            },
            super::crypto_mgr::LEGACY_PREKEY_ID_FLOOR,
        );
        lemma_above(stored, least, i);
        lemma_kept(stored, i);
        assert(manager.stored_opks@.contains_key(stored[i].key_id));
        assert(manager.one_time_prekey_created_at@.dom() =~= manager.stored_opks@.dom());
    }
}

proof fn lemma_kept(stored: Seq<StoredOpk>, i: int)
    requires
        0 <= i < stored.len(),
    ensures
        super::persistence::last_stored(stored, stored[i].key_id) is Some,
    decreases stored.len(),
{
    if i < stored.len() - 1 {
        lemma_kept(stored.drop_last(), i);
        assert(stored.drop_last()[i] == stored[i]);
    }
}

proof fn lemma_above(stored: Seq<StoredOpk>, least: u32, i: int)
    requires
        0 <= i < stored.len(),
    ensures
        super::persistence::next_free_id(stored, least) >= least,
        super::persistence::next_free_id(stored, least) > stored[i].key_id || stored[i].key_id
            == u32::MAX,
    decreases stored.len(),
{
    if i < stored.len() - 1 {
        lemma_above(stored.drop_last(), least, i);
        assert(stored.drop_last()[i] == stored[i]);
    } else if stored.len() > 1 {
        lemma_above(stored.drop_last(), least, 0);
    } else {
        assert(super::persistence::next_free_id(stored.drop_last(), least) == least);
    }
}

/// A restart keeps everything: what is stored and taken back has the same
/// sessions, keys and unfinished requests.
pub proof fn law_nothing_is_lost(
    before: &CryptoManager,
    core: CoreState,
    identity: IdentityKeyPair,
    outbox: Vec<PendingOutbound>,
    ledger: ReplayLedger,
    now: u64,
    out: Result<CryptoManager, LoadError>,
    peer: Seq<char>,
    id: u32,
)
    requires
        call_ensures(CryptoManager::core_state, (before,), core),
        call_ensures(CryptoManager::restore, (identity, core, outbox, ledger, now), out),
        identity@ == before.identity@,
        outbox@ == before.pending_outbound@,
        ledger@ == before.processed_messages@,
        before.keys_in_order(),
        out is Ok,
    ensures
        out matches Ok(after) && {
            &&& after.identity@ == before.identity@
            &&& after.pending_outbound@ == before.pending_outbound@
            &&& after.sessions@.contains_key(peer) <==> before.sessions@.contains_key(peer)
            &&& after.sessions@.contains_key(peer) ==> after.sessions@[peer]@
                == before.sessions@[peer]@
            &&& after.stored_opks@.contains_key(id) <==> before.stored_opks@.contains_key(id)
            &&& after.stored_opks@.contains_key(id) ==> after.stored_opks@[id].spec_secret()
                == before.stored_opks@[id].spec_secret() && after.stored_opks@[id].spec_public()
                == before.stored_opks@[id].spec_public()
            &&& before.stored_spk matches Some(key) ==> (after.stored_spk matches Some(same)
                && same.spec_secret() == key.spec_secret() && same.spec_key_id()
                == key.spec_key_id() && same.spec_signature() == key.spec_signature())
            &&& after.previous_spks@.len() == before.previous_spks@.len()
            &&& after.signed_prekey_rotated_at == before.signed_prekey_rotated_at
            &&& before.next_one_time_prekey_id >= 0x8000_0000 ==> after.next_one_time_prekey_id
                == before.next_one_time_prekey_id
        },
{
    let after = out->Ok_0;
    super::persistence::law_restart(*before, core, outbox, now, after);
    assert(after.sessions@.dom().contains(peer) <==> before.sessions@.dom().contains(peer));
    assert(after.stored_opks@.dom().contains(id) <==> before.stored_opks@.dom().contains(id));
}

/// What is said of errors.
pub proof fn law_errors_are_described(
    error: &CryptoError,
    text: String,
    load: &LoadError,
    load_text: String,
)
    requires
        call_ensures(CryptoError::message, (error,), text),
        call_ensures(LoadError::message, (load,), load_text),
    ensures
        error is BadBundle ==> text@ == "invalid pre-key bundle"@,
        error is BadEnvelope ==> text@ == "invalid envelope"@,
        error is X3dhFailed ==> text@ == "key agreement failed"@,
        error is RatchetFailed ==> text@ == "ratchet error"@,
        error is NoSession ==> text@ == "no session with peer"@,
        error is DecryptFailed ==> text@ == "decryption failed"@,
        error is Persistence ==> text@ == "cryptographic state could not be persisted"@,
        error is OutboxFull ==> text@ == "durable message queue is full"@,
        error is ReplayLedgerFull ==> text@ == "processed-message ledger is full"@,
        error matches CryptoError::UnsupportedVersion(version) ==> text@
            == "unsupported protocol version "@ + decimal(*version as nat),
        load is CorruptIdentity ==> load_text@ == "corrupt identity key file"@,
        load is CorruptSignedPreKey ==> load_text@ == "corrupt signed prekey signature"@,
        load is InvalidPeerId ==> load_text@
            == "invalid peer ID in persisted cryptographic state"@,
{
}

} // verus!
