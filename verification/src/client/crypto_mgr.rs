//! What the client keeps of its keys, sessions and unfinished requests.
//!
//! An operation of the manager does not change it: it returns a [`Change`].
//! The caller commits the change, writes it to durable storage, and if that
//! fails commits the undo that [`CryptoManager::commit`] returned. So memory
//! and storage agree after every step.

use super::outbox::PendingOutbound;
use super::replay::{ProcessedMessage, ReplayLedger};
use crate::crypto::keys::{IdentityKeyPair, OneTimePreKey, SignedPreKey};
use crate::crypto::ratchet::SessionState;
use crate::table::{keys_differ, Table, TableChange};
use vstd::prelude::*;
use vstd::string::*;

verus! {

use crate::crypto::ratchet::SessionModel;
use crate::table::distinct_keys;

/// New one-time pre-keys get identifiers from here on, above those of older
/// installations.
pub const LEGACY_PREKEY_ID_FLOOR: u32 = 0x8000_0000;

/// What the first message of a session tells the peer.
#[derive(Clone, Copy)]
pub struct StoredX3dhResult {
    pub ephemeral_public: [u8; 32],
    pub recipient_signed_prekey_id: u32,
    pub recipient_one_time_prekey_id: Option<u32>,
}

/// A session with a peer.
pub struct PeerSession {
    pub ratchet: SessionState,
    /// Set until the first message is encrypted.
    pub prekey_header: Option<StoredX3dhResult>,
    /// When the pre-keys of the first message stop being reserved.
    pub prekey_expires_at: Option<u64>,
}

/// A session with a peer, as a mathematical value.
#[verifier::ext_equal]
pub struct PeerModel {
    pub ratchet: SessionModel,
    pub prekey_header: Option<StoredX3dhResult>,
    pub prekey_expires_at: Option<u64>,
}

impl View for PeerSession {
    type V = PeerModel;

    open spec fn view(&self) -> PeerModel {
        PeerModel {
            ratchet: self.ratchet@,
            prekey_header: self.prekey_header,
            prekey_expires_at: self.prekey_expires_at,
        }
    }
}

impl Clone for PeerSession {
    fn clone(&self) -> (out: Self)
        ensures
            out@ == self@,
    {
        PeerSession {
            ratchet: self.ratchet.clone(),
            prekey_header: self.prekey_header,
            prekey_expires_at: self.prekey_expires_at,
        }
    }
}

/// What became of a received message.
pub enum InboundDecrypt {
    /// Its text, which is not in the chat history yet.
    Pending(String),
    /// It has been read and stored before.
    Duplicate,
    /// It could not be read.
    Failed,
}

/// A change of the outbox.
pub enum OutboxChange {
    Keep,
    Add(PendingOutbound),
    Insert(usize, PendingOutbound),
    Remove(usize),
    Replace(usize, PendingOutbound),
}

impl OutboxChange {
    /// The change can be made in an outbox with `len` items.
    pub open spec fn fits(&self, len: nat) -> bool {
        match self {
            OutboxChange::Keep => true,
            OutboxChange::Add(_) => true,
            OutboxChange::Insert(at, _) => at <= len,
            OutboxChange::Remove(at) => at < len,
            OutboxChange::Replace(at, _) => at < len,
        }
    }

    /// What the change makes of an outbox.
    pub open spec fn applied(&self, outbox: Seq<PendingOutbound>) -> Seq<PendingOutbound> {
        match self {
            OutboxChange::Keep => outbox,
            OutboxChange::Add(item) => outbox.push(*item),
            OutboxChange::Insert(at, item) => outbox.insert(*at as int, *item),
            OutboxChange::Remove(at) => outbox.remove(*at as int),
            OutboxChange::Replace(at, item) => outbox.update(*at as int, *item),
        }
    }
}

/// The signed pre-key in use, and those before it that may still be used by a
/// message on its way.
pub struct SignedKeys {
    pub current: Option<SignedPreKey>,
    pub previous: Vec<SignedPreKey>,
    pub rotated_at: u64,
}

/// A change of everything that the manager keeps.
pub struct Change {
    pub sessions: TableChange<String, PeerSession>,
    pub outbox: OutboxChange,
    pub signed_keys: Option<SignedKeys>,
    pub one_time_prekeys: TableChange<u32, OneTimePreKey>,
    pub created_at: TableChange<u32, u64>,
    pub next_one_time_prekey_id: Option<u32>,
    pub processed: TableChange<(String, String), ProcessedMessage>,
}

impl Change {
    /// The change is well-formed: no entry comes in twice.
    pub open spec fn wf(&self) -> bool {
        &&& distinct_keys(self.sessions.put@)
        &&& distinct_keys(self.one_time_prekeys.put@)
        &&& distinct_keys(self.created_at.put@)
        &&& distinct_keys(self.processed.put@)
    }

    /// Nothing but sessions and the outbox changes.
    pub open spec fn keeps_keys(&self) -> bool {
        &&& self.signed_keys is None
        &&& self.one_time_prekeys.is_none()
        &&& self.created_at.is_none()
        &&& self.next_one_time_prekey_id is None
    }

    /// Nothing but the outbox changes.
    pub open spec fn only_outbox(&self) -> bool {
        &&& self.wf()
        &&& self.keeps_keys()
        &&& self.sessions.is_none()
        &&& self.processed.is_none()
    }

    /// No change.
    pub fn none() -> (out: Self)
        ensures
            out.only_outbox(),
            out.outbox is Keep,
    {
        Change {
            sessions: TableChange::none(),
            outbox: OutboxChange::Keep,
            signed_keys: None,
            one_time_prekeys: TableChange::none(),
            created_at: TableChange::none(),
            next_one_time_prekey_id: None,
            processed: TableChange::none(),
        }
    }
}

/// The client's keys, sessions and unfinished requests.
pub struct CryptoManager {
    pub identity: IdentityKeyPair,
    pub sessions: Table<String, PeerSession>,
    /// Peers whose pre-key bundle has been asked for.
    pub pending_inits: Table<String, ()>,
    pub stored_spk: Option<SignedPreKey>,
    pub previous_spks: Vec<SignedPreKey>,
    pub signed_prekey_rotated_at: u64,
    pub stored_opks: Table<u32, OneTimePreKey>,
    pub next_one_time_prekey_id: u32,
    pub one_time_prekey_created_at: Table<u32, u64>,
    pub pending_outbound: Vec<PendingOutbound>,
    pub processed_messages: ReplayLedger,
}

/// A signed pre-key in the form in which it is stored.
pub struct StoredSpk {
    pub key_id: u32,
    pub secret_bytes: [u8; 32],
    pub public_bytes: [u8; 32],
    pub signature_b64: String,
}

/// A one-time pre-key in the form in which it is stored.
pub struct StoredOpk {
    pub key_id: u32,
    pub secret_bytes: [u8; 32],
    pub public_bytes: [u8; 32],
}

/// What is stored of the keys and sessions.
pub struct CoreState {
    pub signed_prekey: Option<StoredSpk>,
    pub previous_signed_prekeys: Vec<StoredSpk>,
    pub signed_prekey_rotated_at: u64,
    pub one_time_prekeys: Vec<StoredOpk>,
    pub sessions: Table<String, PeerSession>,
    pub next_one_time_prekey_id: Option<u32>,
    pub one_time_prekey_created_at: Table<u32, u64>,
}

impl CryptoManager {
    /// The secret seed of the identity.
    pub open spec fn spec_identity(&self) -> Seq<u8> {
        self.identity@
    }

    /// Everything but what a [`Change`] is about stays as it was.
    pub open spec fn same_but_changes(&self, other: &CryptoManager) -> bool {
        &&& self.spec_identity() == other.spec_identity()
        &&& self.pending_inits == other.pending_inits
    }

    /// `self` is `before` after `change`.
    pub open spec fn is_changed_by(&self, before: &CryptoManager, change: &Change) -> bool {
        &&& self.same_but_changes(before)
        &&& self.sessions@ == change.sessions.applied(before.sessions@)
        &&& self.pending_outbound@ == change.outbox.applied(before.pending_outbound@)
        &&& match change.signed_keys {
            Some(keys) => {
                &&& self.stored_spk == keys.current
                &&& self.previous_spks == keys.previous
                &&& self.signed_prekey_rotated_at == keys.rotated_at
            },
            None => {
                &&& self.stored_spk == before.stored_spk
                &&& self.previous_spks == before.previous_spks
                &&& self.signed_prekey_rotated_at == before.signed_prekey_rotated_at
            },
        }
        &&& self.stored_opks@ == change.one_time_prekeys.applied(before.stored_opks@)
        &&& self.one_time_prekey_created_at@ == change.created_at.applied(
            before.one_time_prekey_created_at@,
        )
        &&& self.next_one_time_prekey_id == (match change.next_one_time_prekey_id {
            Some(id) => id,
            None => before.next_one_time_prekey_id,
        })
        &&& self.processed_messages@ == change.processed.applied(before.processed_messages@)
    }

    /// The manager is what `other` is, in all that it keeps.
    pub open spec fn same_state(&self, other: &CryptoManager) -> bool {
        &&& self.same_but_changes(other)
        &&& self.sessions@ == other.sessions@
        &&& self.pending_outbound@ == other.pending_outbound@
        &&& self.stored_spk == other.stored_spk
        &&& self.previous_spks == other.previous_spks
        &&& self.signed_prekey_rotated_at == other.signed_prekey_rotated_at
        &&& self.stored_opks@ == other.stored_opks@
        &&& self.one_time_prekey_created_at@ == other.one_time_prekey_created_at@
        &&& self.next_one_time_prekey_id == other.next_one_time_prekey_id
        &&& self.processed_messages@ == other.processed_messages@
    }

    /// Whether a change can be made: no entry comes in twice, and the outbox
    /// has the item that it is about.
    pub fn can_commit(&self, change: &Change) -> (out: bool)
        ensures
            out == (change.wf() && change.outbox.fits(self.pending_outbound@.len())),
    {
        let fits = match &change.outbox {
            OutboxChange::Keep => true,
            OutboxChange::Add(_) => true,
            OutboxChange::Insert(at, _) => *at <= self.pending_outbound.len(),
            OutboxChange::Remove(at) => *at < self.pending_outbound.len(),
            OutboxChange::Replace(at, _) => *at < self.pending_outbound.len(),
        };
        fits && keys_differ(&change.sessions.put) && keys_differ(&change.one_time_prekeys.put)
            && keys_differ(&change.created_at.put) && keys_differ(&change.processed.put)
    }

    /// Makes a change. What it returns undoes it: committing that as well
    /// leaves everything as it was.
    pub fn commit(&mut self, change: Change) -> (undo: Change)
        requires
            change.wf(),
            change.outbox.fits(old(self).pending_outbound@.len()),
        ensures
            final(self).is_changed_by(old(self), &change),
            undo.wf(),
            undo.outbox.fits(final(self).pending_outbound@.len()),
            forall|after: CryptoManager| #[trigger]
                after.is_changed_by(final(self), &undo) ==> after.same_state(old(self)),
    {
        let ghost before = *self;
        let sessions = self.sessions.apply(change.sessions);
        let one_time_prekeys = self.stored_opks.apply(change.one_time_prekeys);
        let created_at = self.one_time_prekey_created_at.apply(change.created_at);
        let processed = self.processed_messages.apply(change.processed);
        let ghost outbox_before = self.pending_outbound@;
        let outbox = match change.outbox {
            OutboxChange::Keep => OutboxChange::Keep,
            OutboxChange::Add(item) => {
                let at: usize = self.pending_outbound.len();
                self.pending_outbound.push(item);
                OutboxChange::Remove(at)
            },
            OutboxChange::Insert(at, item) => {
                self.pending_outbound.insert(at, item);
                OutboxChange::Remove(at)
            },
            OutboxChange::Remove(at) => {
                let item = self.pending_outbound.remove(at);
                OutboxChange::Insert(at, item)
            },
            OutboxChange::Replace(at, item) => {
                let previous = self.pending_outbound.remove(at);
                self.pending_outbound.insert(at, item);
                assert(self.pending_outbound@ =~= outbox_before.update(at as int, item));
                OutboxChange::Replace(at, previous)
            },
        };
        assert(outbox.applied(self.pending_outbound@) =~= outbox_before);
        let signed_keys = match change.signed_keys {
            Some(keys) => {
                let mut current = keys.current;
                core::mem::swap(&mut current, &mut self.stored_spk);
                let mut previous = keys.previous;
                core::mem::swap(&mut previous, &mut self.previous_spks);
                let rotated_at: u64 = self.signed_prekey_rotated_at;
                self.signed_prekey_rotated_at = keys.rotated_at;
                Some(SignedKeys { current, previous, rotated_at })
            },
            None => None,
        };
        let next_one_time_prekey_id = match change.next_one_time_prekey_id {
            Some(id) => {
                let previous: u32 = self.next_one_time_prekey_id;
                self.next_one_time_prekey_id = id;
                Some(previous)
            },
            None => None,
        };
        Change {
            sessions,
            outbox,
            signed_keys,
            one_time_prekeys,
            created_at,
            next_one_time_prekey_id,
            processed,
        }
    }
}

} // verus!
