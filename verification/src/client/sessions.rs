//! Sessions: how they start and which there are.

use super::crypto_mgr::{Change, CryptoManager, PeerSession, StoredX3dhResult};
use super::decode::{b64_decode_fixed32, b64_decode_fixed64};
use super::error::CryptoError;
use crate::bytes::comes_first;
use crate::crypto::keys::{
    EphemeralKeyPair, IdentityKeyPair, PublicKey, RatchetKeyPair, Signature, VerifyingKey,
};
use crate::crypto::ratchet::initialize_alice_with;
use crate::crypto::x3dh::{alice_initiate_with, PeerPreKeyBundle};
use crate::encoding::encode;
use crate::protocol::consts::ONE_TIME_PREKEY_RESERVATION_SECS;
use crate::protocol::PreKeyBundle;
use crate::table::{Table, TableChange, TableKey};
use vstd::prelude::*;
use vstd::string::*;

verus! {

use super::crypto_mgr::PeerModel;
use crate::bytes::{lemma_lex_total, lemma_lex_transitive, lex_le};
use crate::crypto::primitives::{dh_pair, ed25519_decodes, ed25519_verifies};
use crate::crypto::ratchet::alice_start;
use crate::crypto::x3dh::x3dh_initiator;
use crate::encoding::{base64_bytes, encodes};
use crate::table::{distinct_keys, entry_map, key_position, lemma_entry};
use vstd::utf8::encode_utf8;

/// The text is the base64 form of so many bytes.
pub open spec fn holds_bytes(text: Seq<char>, len: nat) -> bool {
    base64_bytes(text) matches Some(bytes) && bytes.len() == len
}

/// The keys of a bundle can be read.
pub open spec fn readable(bundle: PreKeyBundle) -> bool {
    &&& holds_bytes(bundle.identity_key@, 32)
    &&& ed25519_decodes(base64_bytes(bundle.identity_key@)->0)
    &&& holds_bytes(bundle.signed_prekey@, 32)
    &&& holds_bytes(bundle.signed_prekey_signature@, 64)
    &&& bundle.one_time_prekey matches Some(key) ==> holds_bytes(key.public_key@, 32)
}

/// The signed pre-key of a bundle carries the signature of its identity key.
pub open spec fn genuine(bundle: PreKeyBundle) -> bool {
    ed25519_verifies(
        base64_bytes(bundle.identity_key@)->0,
        base64_bytes(bundle.signed_prekey@)->0,
        base64_bytes(bundle.signed_prekey_signature@)->0,
    )
}

/// `session` is the session that the owner of `identity` starts with the owner
/// of a bundle, with these two key pairs of its own.
pub open spec fn starts(
    session: PeerModel,
    identity: Seq<u8>,
    bundle: PreKeyBundle,
    ephemeral: (Seq<u8>, Seq<u8>),
    pair: (Seq<u8>, Seq<u8>),
    now: u64,
) -> bool {
    &&& session.ratchet == alice_start(
        x3dh_initiator(
            identity,
            ephemeral.0,
            base64_bytes(bundle.identity_key@)->0,
            base64_bytes(bundle.signed_prekey@)->0,
            match bundle.one_time_prekey {
                Some(key) => Some(base64_bytes(key.public_key@)->0),
                None => None,
            },
        ),
        base64_bytes(bundle.signed_prekey@)->0,
        pair.0,
        pair.1,
    )
    &&& session.prekey_header matches Some(first) && first.ephemeral_public@ == ephemeral.1
        && first.recipient_signed_prekey_id == bundle.signed_prekey_id
        && first.recipient_one_time_prekey_id == (match bundle.one_time_prekey {
        Some(key) => Some(key.key_id),
        None => None,
    })
    &&& session.prekey_expires_at == Some(
        if now + ONE_TIME_PREKEY_RESERVATION_SECS > u64::MAX {
            u64::MAX
        } else {
            (now + ONE_TIME_PREKEY_RESERVATION_SECS) as u64
        },
    )
}

/// `change` puts a session in for `peer`, and does nothing else.
pub open spec fn puts_session(change: Change, peer: Seq<char>) -> bool {
    &&& change.wf()
    &&& change.keeps_keys()
    &&& change.processed.is_none()
    &&& change.outbox is Keep
    &&& change.sessions.take@.len() == 0
    &&& change.sessions.put@.len() == 1
    &&& change.sessions.put@[0].0@ == peer
}

/// A name is in a list.
pub open spec fn has_name(names: Seq<String>, name: Seq<char>) -> bool {
    exists|i: int| 0 <= i < names.len() && (#[trigger] names[i])@ == name
}

/// No name is in a list twice.
pub open spec fn distinct_names(names: Seq<String>) -> bool {
    forall|i: int, j: int|
        0 <= i < j < names.len() ==> (#[trigger] names[i])@ != (#[trigger] names[j])@
}

/// `names` lists the keys of a table, each once.
pub open spec fn lists<V>(names: Seq<String>, table: Map<Seq<char>, V>) -> bool {
    &&& distinct_names(names)
    &&& forall|name: Seq<char>|
        #![trigger has_name(names, name)]
        #![trigger table.contains_key(name)]
        has_name(names, name) <==> table.contains_key(name)
}

/// The names are in the order of their bytes.
pub open spec fn in_byte_order(names: Seq<String>) -> bool {
    forall|i: int, j: int|
        0 <= i < j < names.len() ==> lex_le(
            encode_utf8((#[trigger] names[i])@),
            encode_utf8((#[trigger] names[j])@),
        )
}

/// Puts a name where it belongs in a list that is in byte order.
fn insert_name(names: &mut Vec<String>, name: String)
    requires
        in_byte_order(old(names)@),
    ensures
        in_byte_order(final(names)@),
        exists|at: int|
            0 <= at <= old(names)@.len() && final(names)@ == #[trigger] old(names)@.insert(
                at,
                name,
            ),
{
    let ghost before = names@;
    let mut at: usize = 0;
    while at < names.len() && !comes_first(name.as_str().as_bytes(), names[at].as_str().as_bytes())
        invariant
            at <= names@.len(),
            names@ == before,
            forall|j: int|
                0 <= j < at ==> lex_le(encode_utf8((#[trigger] before[j])@), encode_utf8(name@)),
        decreases names@.len() - at,
    {
        proof {
            lemma_lex_total(encode_utf8(name@), encode_utf8(before[at as int]@));
        }
        at += 1;
    }
    proof {
        let after = before.insert(at as int, name);
        assert forall|i: int, j: int| 0 <= i < j < after.len() implies lex_le(
            encode_utf8((#[trigger] after[i])@),
            encode_utf8((#[trigger] after[j])@),
        ) by {
            let from = |k: int| if k < at { k } else { k - 1 };
            if i != at {
                assert(after[i] == before[from(i)]);
            }
            if j != at {
                assert(after[j] == before[from(j)]);
            }
            if i == at && j > at {
                if j - 1 > at {
                    lemma_lex_transitive(
                        encode_utf8(name@),
                        encode_utf8(before[at as int]@),
                        encode_utf8(before[j - 1]@),
                    );
                }
            }
        }
    }
    names.insert(at, name);
    assert(names@ == before.insert(at as int, name));
}

proof fn lemma_insert_name(names: Seq<String>, at: int, name: String)
    requires
        distinct_names(names),
        !has_name(names, name@),
        0 <= at <= names.len(),
    ensures
        distinct_names(names.insert(at, name)),
        forall|other: Seq<char>| #[trigger]
            has_name(names.insert(at, name), other) <==> (has_name(names, other) || other == name@),
{
    let after = names.insert(at, name);
    assert forall|i: int, j: int| 0 <= i < j < after.len() implies (#[trigger] after[i])@ != (
    #[trigger] after[j])@ by {
        let p = if i < at { i } else { i - 1 };
        let q = if j < at { j } else { j - 1 };
        if i != at {
            assert(after[i] == names[p]);
        }
        if j != at {
            assert(after[j] == names[q]);
        }
    }
    assert forall|other: Seq<char>| #[trigger] has_name(after, other) <==> (has_name(names, other)
        || other == name@) by {
        if has_name(after, other) {
            let i = choose|i: int| 0 <= i < after.len() && (#[trigger] after[i])@ == other;
            if i != at {
                let p = if i < at { i } else { i - 1 };
                assert(names[p]@ == other);
            }
        }
        if has_name(names, other) {
            let p = choose|p: int| 0 <= p < names.len() && (#[trigger] names[p])@ == other;
            let i = if p < at { p } else { p + 1 };
            assert(after[i]@ == other);
        }
        if other == name@ {
            assert(after[at]@ == other);
        }
    }
}

/// One of the first `n` entries has this name.
spec fn named_before<V>(entries: Seq<(String, V)>, n: int, name: Seq<char>) -> bool {
    exists|j: int| 0 <= j < n && (#[trigger] entries[j]).0@ == name
}

/// The keys of a table, in the order of their bytes.
pub(crate) fn sorted_names<V>(table: &Table<String, V>) -> (out: Vec<String>)
    ensures
        lists(out@, table@),
        in_byte_order(out@),
{
    let entries = table.entries();
    let mut out: Vec<String> = Vec::new();
    let mut i: usize = 0;
    while i < entries.len()
        invariant
            i <= entries@.len(),
            distinct_keys(entries@),
            entry_map(entries@) == table@,
            in_byte_order(out@),
            distinct_names(out@),
            forall|name: Seq<char>| #[trigger]
                has_name(out@, name) <==> named_before(entries@, i as int, name),
        decreases entries@.len() - i,
    {
        let ghost before = out@;
        let ghost n = i as int;
        let name = entries[i].0.clone();
        proof {
            if has_name(before, name@) {
                let j = choose|j: int| 0 <= j < n && (#[trigger] entries@[j]).0@ == name@;
                assert(entries@[j].0.id() != entries@[n].0.id());
            }
        }
        insert_name(&mut out, name);
        proof {
            let at = choose|at: int|
                0 <= at <= before.len() && out@ == #[trigger] before.insert(at, name);
            lemma_insert_name(before, at, name);
            assert forall|other: Seq<char>| #[trigger]
                has_name(out@, other) <==> named_before(entries@, n + 1, other) by {
                if named_before(entries@, n, other) {
                    let j = choose|j: int| 0 <= j < n && (#[trigger] entries@[j]).0@ == other;
                    assert(entries@[j].0@ == other);
                }
                if other == name@ {
                    assert(entries@[n].0@ == other);
                }
            }
        }
        i += 1;
    }
    assert forall|name: Seq<char>|
        #![trigger has_name(out@, name)]
        #![trigger table@.contains_key(name)]
        has_name(out@, name) <==> table@.contains_key(name) by {
        if has_name(out@, name) {
            let j = choose|j: int| 0 <= j < i && (#[trigger] entries@[j]).0@ == name;
            lemma_entry(entries@, j);
        }
        if table@.contains_key(name) {
            let j = key_position(entries@, name);
            assert(entries@[j].0@ == name);
            assert(named_before(entries@, i as int, name));
        }
    }
    out
}

impl CryptoManager {
    /// Whether the user has still to be registered: there is no signed pre-key.
    pub fn needs_registration(&self) -> (out: bool)
        ensures
            out == (self.stored_spk is None),
    {
        self.stored_spk.is_none()
    }

    /// The identity.
    pub fn identity(&self) -> (out: &IdentityKeyPair)
        ensures
            *out == self.identity,
    {
        &self.identity
    }

    /// Notes that a peer's bundle has been asked for.
    pub fn add_pending(&mut self, peer_id: &str)
        ensures
            final(self).pending_inits@ == old(self).pending_inits@.insert(peer_id@, ()),
            final(self).same_state_but_pending(old(self)),
    {
        self.pending_inits.insert(peer_id.to_owned(), ());
    }

    /// Notes that a peer's bundle need not be waited for any longer.
    pub fn remove_pending(&mut self, peer_id: &str)
        ensures
            final(self).pending_inits@ == old(self).pending_inits@.remove(peer_id@),
            final(self).same_state_but_pending(old(self)),
    {
        let _removed = self.pending_inits.remove(&peer_id.to_owned());
    }

    /// Everything but the peers whose bundle is waited for is as in `before`.
    pub open spec fn same_state_but_pending(&self, before: &CryptoManager) -> bool {
        &&& self.identity == before.identity
        &&& self.sessions == before.sessions
        &&& self.stored_spk == before.stored_spk
        &&& self.previous_spks == before.previous_spks
        &&& self.signed_prekey_rotated_at == before.signed_prekey_rotated_at
        &&& self.stored_opks == before.stored_opks
        &&& self.next_one_time_prekey_id == before.next_one_time_prekey_id
        &&& self.one_time_prekey_created_at == before.one_time_prekey_created_at
        &&& self.pending_outbound == before.pending_outbound
        &&& self.processed_messages == before.processed_messages
    }

    /// Whether a peer's bundle has been asked for.
    pub fn is_pending(&self, peer_id: &str) -> (out: bool)
        ensures
            out == self.pending_inits@.contains_key(peer_id@),
    {
        self.pending_inits.contains(&peer_id.to_owned())
    }

    /// The peers whose bundle has been asked for.
    pub fn pending_peers(&self) -> (out: Vec<String>)
        ensures
            lists(out@, self.pending_inits@),
            in_byte_order(out@),
    {
        sorted_names(&self.pending_inits)
    }

    /// Whether there is a session with a peer.
    pub fn has_session(&self, peer_id: &str) -> (out: bool)
        ensures
            out == self.sessions@.contains_key(peer_id@),
    {
        self.sessions.contains(&peer_id.to_owned())
    }

    /// The peers with whom there is a session, in order.
    pub fn session_peers(&self) -> (out: Vec<String>)
        ensures
            lists(out@, self.sessions@),
            in_byte_order(out@),
    {
        sorted_names(&self.sessions)
    }

    /// The public identity key in base64.
    pub fn local_identity_key_b64(&self) -> (out: String)
        ensures
            encodes(out@, self.spec_identity_public()),
    {
        encode(self.identity.verifying_key().as_bytes())
    }

    /// A session with the owner of a bundle starts, with some key pairs, if
    /// the bundle is readable and genuine.
    pub open spec fn initiates(
        &self,
        peer: Seq<char>,
        bundle: PreKeyBundle,
        now: u64,
        out: Result<Change, CryptoError>,
    ) -> bool {
        if !readable(bundle) {
            out matches Err(error) && error == CryptoError::BadBundle
        } else if !genuine(bundle) {
            out matches Err(error) && error == CryptoError::X3dhFailed
        } else {
            out matches Ok(change) && puts_session(change, peer) && exists|
                ephemeral: (Seq<u8>, Seq<u8>),
                pair: (Seq<u8>, Seq<u8>),
            |
                {
                    &&& dh_pair(ephemeral.0, ephemeral.1)
                    &&& dh_pair(pair.0, pair.1)
                    &&& #[trigger] starts(
                        change.sessions.put@[0].1@,
                        self.spec_identity(),
                        bundle,
                        ephemeral,
                        pair,
                        now,
                    )
                }
        }
    }

    /// Starts a session with the owner of a bundle, with new random keys.
    pub fn init_session_from_bundle(&self, peer_id: &str, bundle: &PreKeyBundle, now: u64) -> (out:
        Result<Change, CryptoError>)
        ensures
            self.initiates(peer_id@, *bundle, now, out),
    {
        self.init_session_with(
            peer_id,
            bundle,
            now,
            &EphemeralKeyPair::generate(),
            RatchetKeyPair::generate(),
        )
    }

    /// [`CryptoManager::init_session_from_bundle`] with given keys.
    pub fn init_session_with(
        &self,
        peer_id: &str,
        bundle: &PreKeyBundle,
        now: u64,
        ephemeral: &EphemeralKeyPair,
        pair: RatchetKeyPair,
    ) -> (out: Result<Change, CryptoError>)
        ensures
            if !readable(*bundle) {
                out matches Err(error) && error == CryptoError::BadBundle
            } else if !genuine(*bundle) {
                out matches Err(error) && error == CryptoError::X3dhFailed
            } else {
                out matches Ok(change) && puts_session(change, peer_id@) && starts(
                    change.sessions.put@[0].1@,
                    self.spec_identity(),
                    *bundle,
                    (ephemeral.spec_secret(), ephemeral.spec_public()),
                    (pair.secret_bytes@, pair.public_bytes@),
                    now,
                )
            },
    {
        let identity_bytes = match b64_decode_fixed32(
            bundle.identity_key.as_str(),
            CryptoError::BadBundle,
        ) {
            Ok(bytes) => bytes,
            Err(error) => return Err(error),
        };
        let identity_key = match VerifyingKey::from_bytes(&identity_bytes) {
            Some(key) => key,
            None => return Err(CryptoError::BadBundle),
        };
        let signed_prekey = match b64_decode_fixed32(
            bundle.signed_prekey.as_str(),
            CryptoError::BadBundle,
        ) {
            Ok(bytes) => PublicKey::from_bytes(bytes),
            Err(error) => return Err(error),
        };
        let signature = match b64_decode_fixed64(
            bundle.signed_prekey_signature.as_str(),
            CryptoError::BadBundle,
        ) {
            Ok(bytes) => Signature::from_bytes(bytes),
            Err(error) => return Err(error),
        };
        let one_time_prekey = match &bundle.one_time_prekey {
            Some(key) => match b64_decode_fixed32(key.public_key.as_str(), CryptoError::BadBundle) {
                Ok(bytes) => Some((key.key_id, PublicKey::from_bytes(bytes))),
                Err(error) => return Err(error),
            },
            None => None,
        };
        let recipient_one_time_prekey_id = match &bundle.one_time_prekey {
            Some(key) => Some(key.key_id),
            None => None,
        };
        let peer_bundle = PeerPreKeyBundle {
            identity_key,
            signed_prekey,
            signed_prekey_id: bundle.signed_prekey_id,
            signed_prekey_signature: signature,
            one_time_prekey,
        };
        let agreed = match alice_initiate_with(&self.identity, &peer_bundle, ephemeral) {
            Ok(agreed) => agreed,
            Err(_) => return Err(CryptoError::X3dhFailed),
        };
        let first = StoredX3dhResult {
            ephemeral_public: agreed.ephemeral_public.to_bytes(),
            recipient_signed_prekey_id: bundle.signed_prekey_id,
            recipient_one_time_prekey_id,
        };
        let ratchet = match initialize_alice_with(agreed.shared_secret, &signed_prekey, pair) {
            Ok(ratchet) => ratchet,
            Err(_) => return Err(CryptoError::RatchetFailed),
        };
        let session = PeerSession {
            ratchet,
            prekey_header: Some(first),
            prekey_expires_at: Some(now.saturating_add(ONE_TIME_PREKEY_RESERVATION_SECS)),
        };
        let mut change = Change::none();
        change.sessions = TableChange::put_one(peer_id.to_owned(), session);
        Ok(change)
    }

    /// The session with a peer is past its reservation: its first message has
    /// not been sent, and the pre-keys for it are not reserved any longer.
    pub open spec fn is_stale(&self, peer: Seq<char>, now: u64) -> bool {
        &&& self.sessions@.contains_key(peer)
        &&& self.sessions@[peer].prekey_header is Some
        &&& self.sessions@[peer].prekey_expires_at matches Some(expires) && expires < now
    }

    /// `change` drops the session with a peer, and does nothing else.
    pub open spec fn drops_session(&self, peer: Seq<char>, change: Change) -> bool {
        &&& change.wf()
        &&& change.keeps_keys()
        &&& change.processed.is_none()
        &&& change.outbox is Keep
        &&& change.sessions.applied(self.sessions@) == self.sessions@.remove(peer)
    }

    /// Drops a session that is past its reservation.
    pub fn expire_stale_prekey_session(&self, peer_id: &str, now: u64) -> (out: Option<Change>)
        ensures
            out is Some <==> self.is_stale(peer_id@, now),
            out matches Some(change) ==> self.drops_session(peer_id@, change),
    {
        let peer = peer_id.to_owned();
        let stale = match self.sessions.get(&peer) {
            Some(session) => match (&session.prekey_header, session.prekey_expires_at) {
                (Some(_), Some(expires)) => expires < now,
                _ => false,
            },
            None => false,
        };
        if !stale {
            return None;
        }
        let mut change = Change::none();
        change.sessions = TableChange::take_one(peer);
        proof {
            crate::table::lemma_take_one(self.sessions@, peer, change.sessions.put@);
        }
        Some(change)
    }
}

} // verus!
