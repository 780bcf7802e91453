//! Which messages have been read: the ledger that keeps a redelivered message
//! from being read twice.

use crate::protocol::UserId;
use crate::table::Table;
use vstd::prelude::*;
use vstd::string::*;

verus! {

use crate::protocol::types::valid_user_id;
use crate::table::{distinct_keys, entry_map, key_position, lemma_entry};

/// How long a message stays in the ledger: the server forgets its queue after
/// 30 days, and one day more covers the last redelivery.
pub const RETENTION_SECS: u64 = 2_678_400;

/// A message that has been read.
pub struct ProcessedMessage {
    /// Its text, until it is in the chat history.
    pub pending_plaintext: Option<String>,
    /// When it was read, in seconds since the Unix epoch.
    pub processed_at: u64,
}

impl Clone for ProcessedMessage {
    fn clone(&self) -> (out: Self)
        ensures
            out == *self,
    {
        ProcessedMessage {
            pending_plaintext: match &self.pending_plaintext {
                Some(text) => Some(text.clone()),
                None => None,
            },
            processed_at: self.processed_at,
        }
    }
}

/// The messages that have been read, by peer and message id.
pub type ReplayLedger = Table<(String, String), ProcessedMessage>;

/// The ledger's entries, as a mathematical value.
pub type LedgerModel = Map<(Seq<char>, Seq<char>), ProcessedMessage>;

/// The time before which entries have outlived their use.
pub open spec fn retention_cutoff(now: u64) -> u64 {
    if now >= RETENTION_SECS {
        (now - RETENTION_SECS) as u64
    } else {
        0
    }
}

/// The ledger without the entries that have outlived their use.
pub open spec fn pruned(ledger: LedgerModel, now: u64) -> LedgerModel {
    Map::new(
        |key: (Seq<char>, Seq<char>)|
            ledger.contains_key(key) && ledger[key].processed_at >= retention_cutoff(now),
        |key: (Seq<char>, Seq<char>)| ledger[key],
    )
}

/// Not before `cutoff`.
pub open spec fn since(time: u64, cutoff: u64) -> bool {
    time >= cutoff
}

fn is_since(time: u64, cutoff: u64) -> (out: bool)
    ensures
        out == since(time, cutoff),
{
    time >= cutoff
}

/// Removes the entries that have outlived their use.
pub fn prune_processed(processed: &mut ReplayLedger, now: u64)
    ensures
        final(processed)@ == pruned(old(processed)@, now),
{
    let cutoff: u64 = now.saturating_sub(RETENTION_SECS);
    let ghost before = processed@;
    let recent = |message: &ProcessedMessage| -> (keep: bool)
        ensures
            keep == since(message.processed_at, cutoff),
        { is_since(message.processed_at, cutoff) };
    processed.retain(recent);
    assert forall|key: (Seq<char>, Seq<char>)|
        processed@.contains_key(key) <==> #[trigger] pruned(before, now).contains_key(key) by {
        if pruned(before, now).contains_key(key) && !processed@.contains_key(key) {
            assert(before.contains_key(key));
        }
    }
    assert(processed@ =~= pruned(before, now));
}

/// Whether every peer of the entries is a valid user id.
pub fn validate_peer_ids<V>(by_peer: &Table<String, V>) -> (out: bool)
    ensures
        out == (forall|name: Seq<char>| #[trigger]
            by_peer@.contains_key(name) ==> valid_user_id(name)),
{
    let entries = by_peer.entries();
    let mut i: usize = 0;
    while i < entries.len()
        invariant
            i <= entries@.len(),
            distinct_keys(entries@),
            entry_map(entries@) == by_peer@,
            forall|j: int|
                0 <= j < i ==> valid_user_id(
                    (#[trigger] entries@[j]).0@,
                ),
        decreases entries@.len() - i,
    {
        if UserId::new(entries[i].0.as_str()).is_err() {
            proof {
                lemma_entry(entries@, i as int);
            }
            return false;
        }
        i += 1;
    }
    assert forall|name: Seq<char>| #[trigger]
        by_peer@.contains_key(name) implies valid_user_id(name) by {
        let j = key_position(entries@, name);
        assert(entries@[j].0@ == name);
    }
    true
}

} // verus!
