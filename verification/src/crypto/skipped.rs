//! Keys of messages that have not arrived yet.

use super::primitives::wipe;
use crate::bytes::same_bytes;
use crate::table::{Table, TableKey};
use vstd::prelude::*;

verus! {

use crate::table::{entry_map, key_position, lemma_entry};

/// What the key of a skipped message is found by: the chain's ratchet key and
/// the number of the message in the chain.
pub struct SkippedSlot {
    pub ratchet_key: [u8; 32],
    pub message_number: u32,
}

impl TableKey for SkippedSlot {
    type Id = (Seq<u8>, int);

    open spec fn id(&self) -> (Seq<u8>, int) {
        (self.ratchet_key@, self.message_number as int)
    }

    fn same(&self, other: &Self) -> (out: bool) {
        self.message_number == other.message_number && same_bytes(
            &self.ratchet_key,
            &other.ratchet_key,
        )
    }

    fn duplicate(&self) -> (out: Self) {
        SkippedSlot { ratchet_key: self.ratchet_key, message_number: self.message_number }
    }
}

/// A message key that is overwritten when it goes out of use.
pub struct MessageKey {
    bytes: [u8; 32],
}

impl View for MessageKey {
    type V = Seq<u8>;

    closed spec fn view(&self) -> Seq<u8> {
        self.bytes@
    }
}

impl Drop for MessageKey {
    fn drop(&mut self)
        opens_invariants none
        no_unwind
    {
        wipe(&mut self.bytes);
    }
}

impl Clone for MessageKey {
    fn clone(&self) -> (out: Self)
        ensures
            out == *self,
    {
        MessageKey { bytes: self.bytes }
    }
}

/// The key of one skipped message, in the form in which sessions are kept.
pub struct SkippedKey {
    pub ratchet_key: [u8; 32],
    pub message_number: u32,
    pub message_key: [u8; 32],
}

impl SkippedKey {
    /// What the key is found by.
    pub open spec fn slot(&self) -> (Seq<u8>, int) {
        (self.ratchet_key@, self.message_number as int)
    }
}

/// The keys of `entries` by slot, the later entry winning.
pub open spec fn last_wins(entries: Seq<SkippedKey>) -> Map<(Seq<u8>, int), Seq<u8>>
    decreases entries.len(),
{
    if entries.len() == 0 {
        Map::empty()
    } else {
        last_wins(entries.drop_last()).insert(entries.last().slot(), entries.last().message_key@)
    }
}

/// The keys of skipped messages, by ratchet key and message number.
pub struct SkippedKeys {
    keys: Table<SkippedSlot, MessageKey>,
}

impl View for SkippedKeys {
    type V = Map<(Seq<u8>, int), Seq<u8>>;

    closed spec fn view(&self) -> Map<(Seq<u8>, int), Seq<u8>> {
        self.keys@.map_values(|key: MessageKey| key@)
    }
}

impl Clone for SkippedKeys {
    fn clone(&self) -> (out: Self)
        ensures
            out@ == self@,
    {
        let keys = self.keys.duplicate();
        let out = SkippedKeys { keys };
        assert(out@ =~= self@);
        out
    }
}

impl SkippedKeys {
    /// No keys.
    pub fn new() -> (out: Self)
        ensures
            out@ == Map::<(Seq<u8>, int), Seq<u8>>::empty(),
    {
        let out = SkippedKeys { keys: Table::new() };
        assert(out@ =~= Map::<(Seq<u8>, int), Seq<u8>>::empty());
        out
    }

    /// How many keys there are.
    pub fn len(&self) -> (out: usize)
        ensures
            out == self@.len(),
            self@.dom().finite(),
    {
        assert(self@.dom() =~= self.keys@.dom());
        self.keys.len()
    }

    /// The key of a message, if it is here.
    pub fn get(&self, ratchet_key: &[u8; 32], message_number: u32) -> (out: Option<[u8; 32]>)
        ensures
            out is Some <==> self@.contains_key((ratchet_key@, message_number as int)),
            out matches Some(key) ==> key@ == self@[(ratchet_key@, message_number as int)],
    {
        match self.keys.get(&SkippedSlot { ratchet_key: *ratchet_key, message_number }) {
            Some(key) => Some(key.bytes),
            None => None,
        }
    }

    /// Takes the key of a message out, if it is here.
    pub fn remove(&mut self, ratchet_key: &[u8; 32], message_number: u32)
        ensures
            final(self)@ == old(self)@.remove((ratchet_key@, message_number as int)),
    {
        let ghost before = self@;
        let _taken = self.keys.remove(&SkippedSlot { ratchet_key: *ratchet_key, message_number });
        assert(self@ =~= before.remove((ratchet_key@, message_number as int)));
    }

    /// Puts the key of a message in, in place of one that was there.
    pub fn insert(&mut self, ratchet_key: [u8; 32], message_number: u32, message_key: [u8; 32])
        ensures
            final(self)@ == old(self)@.insert(
                (ratchet_key@, message_number as int),
                message_key@,
            ),
    {
        let ghost before = self@;
        self.keys.insert(
            SkippedSlot { ratchet_key, message_number },
            MessageKey { bytes: message_key },
        );
        assert(self@ =~= before.insert((ratchet_key@, message_number as int), message_key@));
    }

    /// The keys as a list, for persistence. [`SkippedKeys::from_entries`] gets
    /// them back.
    pub fn entries(&self) -> (out: Vec<SkippedKey>)
        ensures
            out@.len() == self@.len(),
            last_wins(out@) == self@,
    {
        let entries = self.keys.entries();
        let mut out: Vec<SkippedKey> = Vec::with_capacity(entries.len());
        let mut i: usize = 0;
        while i < entries.len()
            invariant
                i <= entries@.len(),
                out@.len() == i,
                crate::table::distinct_keys(entries@),
                entry_map(entries@) == self.keys@,
                forall|j: int|
                    0 <= j < i ==> (#[trigger] out@[j]).slot() == entries@[j].0.id()
                        && out@[j].message_key@ == entries@[j].1@,
            decreases entries@.len() - i,
        {
            let entry = &entries[i];
            out.push(
                SkippedKey {
                    ratchet_key: entry.0.ratchet_key,
                    message_number: entry.0.message_number,
                    message_key: entry.1.bytes,
                },
            );
            i += 1;
        }
        let _count = self.len();
        let _table_count = self.keys.len();
        proof {
            assert(self@.dom() =~= self.keys@.dom());
            crate::table::lemma_len(entries@);
            assert forall|a: int, b: int| 0 <= a < b < out@.len() implies (#[trigger] out@[a]).slot()
                != (#[trigger] out@[b]).slot() by {
                assert(entries@[a].0.id() != entries@[b].0.id());
            }
            lemma_last_wins(out@);
            let map = last_wins(out@);
            assert forall|slot: (Seq<u8>, int)| #[trigger]
                map.contains_key(slot) <==> self@.contains_key(slot) by {
                if map.contains_key(slot) {
                    let j = choose|j: int| 0 <= j < out@.len() && (#[trigger] out@[j]).slot() == slot;
                    lemma_entry(entries@, j);
                }
                if self@.contains_key(slot) {
                    let j = key_position(entries@, slot);
                    assert(entries@[j].0.id() == slot);
                    assert(out@[j].slot() == slot);
                }
            }
            assert forall|slot: (Seq<u8>, int)| #[trigger] map.contains_key(slot) implies map[slot]
                == self@[slot] by {
                let j = choose|j: int| 0 <= j < out@.len() && (#[trigger] out@[j]).slot() == slot;
                lemma_entry(entries@, j);
            }
            assert(map =~= self@);
        }
        out
    }

    /// The keys of `entries`; of two with the same slot the later counts.
    pub fn from_entries(entries: &Vec<SkippedKey>) -> (out: Self)
        ensures
            out@ == last_wins(entries@),
    {
        let mut out = SkippedKeys::new();
        let mut i: usize = 0;
        while i < entries.len()
            invariant
                i <= entries@.len(),
                out@ == last_wins(entries@.take(i as int)),
            decreases entries@.len() - i,
        {
            let entry = &entries[i];
            out.insert(entry.ratchet_key, entry.message_number, entry.message_key);
            assert(entries@.take(i + 1).drop_last() =~= entries@.take(i as int));
            i += 1;
        }
        assert(entries@.take(i as int) =~= entries@);
        out
    }
}

/// What the map of a list with distinct slots holds.
proof fn lemma_last_wins(entries: Seq<SkippedKey>)
    requires
        forall|a: int, b: int|
            0 <= a < b < entries.len() ==> (#[trigger] entries[a]).slot() != (
            #[trigger] entries[b]).slot(),
    ensures
        forall|slot: (Seq<u8>, int)| #[trigger]
            last_wins(entries).contains_key(slot) <==> exists|j: int|
                0 <= j < entries.len() && (#[trigger] entries[j]).slot() == slot,
        forall|j: int|
            0 <= j < entries.len() ==> last_wins(entries)[(#[trigger] entries[j]).slot()]
                == entries[j].message_key@,
    decreases entries.len(),
{
    if entries.len() > 0 {
        let rest = entries.drop_last();
        let last = entries.len() - 1;
        assert forall|a: int, b: int| 0 <= a < b < rest.len() implies (#[trigger] rest[a]).slot()
            != (#[trigger] rest[b]).slot() by {
            assert(entries[a].slot() != entries[b].slot());
        }
        lemma_last_wins(rest);
        assert forall|slot: (Seq<u8>, int)| #[trigger]
            last_wins(entries).contains_key(slot) <==> exists|j: int|
                0 <= j < entries.len() && (#[trigger] entries[j]).slot() == slot by {
            if last_wins(rest).contains_key(slot) {
                let j = choose|j: int| 0 <= j < rest.len() && (#[trigger] rest[j]).slot() == slot;
                assert(entries[j].slot() == slot);
            }
            if exists|j: int| 0 <= j < entries.len() && (#[trigger] entries[j]).slot() == slot {
                let j = choose|j: int|
                    0 <= j < entries.len() && (#[trigger] entries[j]).slot() == slot;
                if j < last {
                    assert(rest[j].slot() == slot);
                }
            }
            assert(entries[last].slot() == entries.last().slot());
        }
        assert forall|j: int| 0 <= j < entries.len() implies last_wins(entries)[(
        #[trigger] entries[j]).slot()] == entries[j].message_key@ by {
            if j < last {
                assert(rest[j] == entries[j]);
                assert(entries[j].slot() != entries[last].slot());
            }
        }
    }
}

} // verus!
