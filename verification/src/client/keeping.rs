//! What the client keeps of its requests, keys and sessions, stated of the
//! functions that change it: each law takes a change and its commitment
//! together, and says what is kept afterwards.

use super::crypto_mgr::{Change, CryptoManager, OutboxChange};
use super::error::CryptoError;
use super::outbox::{ensure_capacity, PendingOutbound};
use super::replay::{prune_processed, ReplayLedger};
use crate::crypto::keys::{OneTimePreKey, SignedPreKey};
use crate::protocol::{ClientMessage, MessageId, UserId};
use crate::table::{Table, TableChange, TableKey};
use vstd::prelude::*;
use vstd::string::*;

verus! {

use super::outbound::Awaited;
use super::prekeys::{same_one_time, same_signed};
use crate::crypto::primitives::ed25519_sign;
use crate::encoding::encodes;
use crate::protocol::types::{is_random_uuid, uuid_text};
use crate::text::byte_len;

/// `after` is `before` without the first request that `gone` is about, if
/// there is one.
pub open spec fn loses_first(
    before: Seq<PendingOutbound>,
    after: Seq<PendingOutbound>,
    gone: spec_fn(PendingOutbound) -> bool,
) -> bool {
    ||| after == before && forall|i: int| 0 <= i < before.len() ==> !gone(#[trigger] before[i])
    ||| exists|at: int|
        {
            &&& 0 <= at < before.len()
            &&& #[trigger] gone(before[at])
            &&& forall|i: int| 0 <= i < at ==> !gone(#[trigger] before[i])
            &&& after == before.remove(at)
        }
}

/// Keys, sessions and ledger are as they were.
pub open spec fn keeps_all_but_outbox(before: CryptoManager, after: CryptoManager) -> bool {
    &&& keeps_keys(before, after)
    &&& after.sessions@ == before.sessions@
    &&& after.processed_messages@ == before.processed_messages@
}

/// The keys are as they were.
pub open spec fn keeps_keys(before: CryptoManager, after: CryptoManager) -> bool {
    &&& keeps_one_time_keys(before, after)
    &&& keeps_signed_keys(before, after)
}

/// The one-time pre-keys, and whose keys are waited for, are as they were.
pub open spec fn keeps_one_time_keys(before: CryptoManager, after: CryptoManager) -> bool {
    &&& after.identity@ == before.identity@
    &&& after.pending_inits@ == before.pending_inits@
    &&& after.stored_opks@ == before.stored_opks@
    &&& after.one_time_prekey_created_at@ == before.one_time_prekey_created_at@
    &&& after.next_one_time_prekey_id == before.next_one_time_prekey_id
}

/// The signed pre-keys are as they were.
pub open spec fn keeps_signed_keys(before: CryptoManager, after: CryptoManager) -> bool {
    &&& after.stored_spk == before.stored_spk
    &&& after.previous_spks@ == before.previous_spks@
    &&& after.signed_prekey_rotated_at == before.signed_prekey_rotated_at
}

proof fn lemma_none<K: TableKey, V>(change: TableChange<K, V>, map: Map<K::Id, V>)
    requires
        change.is_none(),
    ensures
        change.applied(map) == map,
{
    assert(change.applied(map) =~= map);
}

proof fn lemma_keeps_keys(before: CryptoManager, change: Change, after: CryptoManager)
    requires
        after.is_changed_by(&before, &change),
        change.keeps_keys(),
    ensures
        keeps_keys(before, after),
{
    lemma_none(change.one_time_prekeys, before.stored_opks@);
    lemma_none(change.created_at, before.one_time_prekey_created_at@);
}

proof fn lemma_only_outbox(before: CryptoManager, change: Change, after: CryptoManager)
    requires
        after.is_changed_by(&before, &change),
        change.only_outbox(),
    ensures
        keeps_all_but_outbox(before, after),
{
    lemma_keeps_keys(before, change, after);
    lemma_none(change.sessions, before.sessions@);
    lemma_none(change.processed, before.processed_messages@);
}

/// A commitment changes what it says, and its undoing brings everything back.
pub proof fn law_commitment(
    manager: &mut CryptoManager,
    change: Change,
    undo: Change,
    again: &mut CryptoManager,
    redo: Change,
)
    requires
        call_ensures(CryptoManager::commit, (manager, change), undo),
        call_ensures(CryptoManager::commit, (again, undo), redo),
        *old(again) == *final(manager),
    ensures
        final(manager).identity@ == old(manager).identity@,
        final(manager).pending_inits@ == old(manager).pending_inits@,
        final(manager).pending_outbound@ == (match change.outbox {
            OutboxChange::Keep => old(manager).pending_outbound@,
            OutboxChange::Add(item) => old(manager).pending_outbound@.push(item),
            OutboxChange::Insert(at, item) => old(manager).pending_outbound@.insert(at as int, item),
            OutboxChange::Remove(at) => old(manager).pending_outbound@.remove(at as int),
            OutboxChange::Replace(at, item) => old(manager).pending_outbound@.update(
                at as int,
                item,
            ),
        }),
        change.signed_keys matches Some(keys) ==> final(manager).stored_spk == keys.current
            && final(manager).previous_spks == keys.previous && final(manager).signed_prekey_rotated_at == keys.rotated_at,
        change.signed_keys is None ==> keeps_signed_keys(*old(manager), *final(manager)),
        change.next_one_time_prekey_id matches Some(id) ==> final(manager).next_one_time_prekey_id == id,
        change.next_one_time_prekey_id is None ==> final(manager).next_one_time_prekey_id == old(manager).next_one_time_prekey_id,
        keeps_all_but_outbox(*old(manager), *final(again)),
        final(again).pending_outbound@ == old(manager).pending_outbound@,
{
    assert(final(again).is_changed_by(final(manager), &undo));
}

/// An entry that comes in is there afterwards; one that is taken and does not
/// come in is gone; and any other is as it was.
pub proof fn law_table_changes(
    table: &mut Table<u32, u64>,
    change: TableChange<u32, u64>,
    undo: TableChange<u32, u64>,
    id: u32,
    i: int,
)
    requires
        call_ensures(Table::<u32, u64>::apply, (table, change), undo),
        0 <= i < change.put@.len() ==> forall|j: int|
            0 <= j < change.put@.len() && j != i ==> (#[trigger] change.put@[j]).0
                != change.put@[i].0,
    ensures
        0 <= i < change.put@.len() ==> final(table)@.contains_key(change.put@[i].0) && final(table)@[change.put@[i].0] == change.put@[i].1,
        (forall|j: int| 0 <= j < change.put@.len() ==> (#[trigger] change.put@[j]).0 != id) ==> {
            &&& change.take@.contains(id) ==> !final(table)@.contains_key(id)
            &&& !change.take@.contains(id) ==> (final(table)@.contains_key(id) <==> old(table)@.contains_key(id))
            &&& !change.take@.contains(id) && old(table)@.contains_key(id) ==> final(table)@[id]
                == old(table)@[id]
        },
{
    let put = change.put@;
    if 0 <= i < put.len() {
        assert(put[i].0.id() == put[i].0);
        assert(crate::table::has_key(put, put[i].0));
        let at = crate::table::key_position(put, put[i].0);
        assert(put[at].0.id() == put[i].0);
    }
    if forall|j: int| 0 <= j < put.len() ==> (#[trigger] put[j]).0 != id {
        if crate::table::has_key(put, id) {
            let at = crate::table::key_position(put, id);
            assert(put[at].0.id() == id);
        }
        if change.take@.contains(id) {
            let at = choose|at: int| 0 <= at < change.take@.len() && change.take@[at] == id;
            assert(change.take@[at].id() == id);
            assert(crate::table::listed(change.take@, id));
        }
        if crate::table::listed(change.take@, id) {
            let at = choose|at: int|
                0 <= at < change.take@.len() && (#[trigger] change.take@[at]).id() == id;
            assert(change.take@.contains(change.take@[at]));
        }
    }
}

/// A message that the server has taken leaves the outbox, alone, and nothing
/// else changes.
pub proof fn law_sent_message_is_done(
    manager: &mut CryptoManager,
    id: &MessageId,
    change: Change,
    undo: Change,
)
    requires
        call_ensures(CryptoManager::confirm_message_sent, (&*old(manager), id), change),
        call_ensures(CryptoManager::commit, (manager, change), undo),
    ensures
        loses_first(
            old(manager).pending_outbound@,
            final(manager).pending_outbound@,
            |item: PendingOutbound|
                item matches PendingOutbound::Message { message_id, .. } && message_id == *id,
        ),
        keeps_all_but_outbox(*old(manager), *final(manager)),
{
    lemma_only_outbox(*old(manager), change, *final(manager));
    let gone = |item: PendingOutbound|
        item matches PendingOutbound::Message { message_id, .. } && message_id == *id;
    lemma_settled(old(manager).pending_outbound@, change.outbox, Awaited::Message, *id, gone);
}

proof fn lemma_settled(
    pending: Seq<PendingOutbound>,
    change: OutboxChange,
    kind: Awaited,
    id: MessageId,
    gone: spec_fn(PendingOutbound) -> bool,
)
    requires
        super::outbound::settles(change, pending, kind, id),
        forall|item: PendingOutbound| #[trigger] item.awaits(kind, id) <==> gone(item),
    ensures
        loses_first(pending, change.applied(pending), gone),
{
    assert forall|i: int| 0 <= i < pending.len() implies pending[i].awaits(kind, id) == gone(
        #[trigger] pending[i],
    ) by {}
    if let OutboxChange::Remove(at) = change {
        assert(gone(pending[at as int]));
    }
}

/// A receipt that the server has taken leaves the outbox, alone, and nothing
/// else changes.
pub proof fn law_sent_receipt_is_done(
    manager: &mut CryptoManager,
    id: &MessageId,
    change: Change,
    undo: Change,
)
    requires
        call_ensures(CryptoManager::confirm_read_receipt_sent, (&*old(manager), id), change),
        call_ensures(CryptoManager::commit, (manager, change), undo),
    ensures
        loses_first(
            old(manager).pending_outbound@,
            final(manager).pending_outbound@,
            |item: PendingOutbound|
                item matches PendingOutbound::ReadReceipt { receipt_id, .. } && receipt_id == *id,
        ),
        keeps_all_but_outbox(*old(manager), *final(manager)),
{
    lemma_only_outbox(*old(manager), change, *final(manager));
    let gone = |item: PendingOutbound|
        item matches PendingOutbound::ReadReceipt { receipt_id, .. } && receipt_id == *id;
    lemma_settled(old(manager).pending_outbound@, change.outbox, Awaited::ReadReceipt, *id, gone);
}

/// A message that the server refused leaves the outbox with the session of its
/// recipient, and nothing else does; one that does not wait is not refused.
pub proof fn law_refused_message_is_dropped(
    manager: &mut CryptoManager,
    id: &MessageId,
    refused: Option<(UserId, Change)>,
    undo: Change,
)
    requires
        call_ensures(CryptoManager::reject_message, (&*old(manager), id), refused),
        refused matches Some((_, change)) ==> call_ensures(
            CryptoManager::commit,
            (manager, change),
            undo,
        ),
    ensures
        refused is Some <==> exists|i: int|
            0 <= i < old(manager).pending_outbound@.len() && (#[trigger] old(manager).pending_outbound@[i] matches PendingOutbound::Message { message_id, .. }
                && message_id == *id),
        refused matches Some((recipient, _)) ==> {
            &&& loses_first(
                old(manager).pending_outbound@,
                final(manager).pending_outbound@,
                |item: PendingOutbound|
                    item matches PendingOutbound::Message { message_id, recipient_id, .. }
                        && message_id == *id,
            )
            &&& exists|i: int|
                0 <= i < old(manager).pending_outbound@.len() && (#[trigger] old(manager).pending_outbound@[i] matches PendingOutbound::Message {
                    message_id,
                    recipient_id,
                    ..
                } && message_id == *id && recipient_id == recipient)
            &&& final(manager).sessions@ == old(manager).sessions@.remove(recipient@)
            &&& final(manager).processed_messages@ == old(manager).processed_messages@
            &&& keeps_keys(*old(manager), *final(manager))
        },
{
    let pending = old(manager).pending_outbound@;
    match refused {
        Some((recipient, change)) => {
            lemma_keeps_keys(*old(manager), change, *final(manager));
            lemma_none(change.processed, old(manager).processed_messages@);
            let at = change.outbox->Remove_0 as int;
            assert(pending[at] matches PendingOutbound::Message { message_id, .. } && message_id
                == *id);
            let gone = |item: PendingOutbound|
                item matches PendingOutbound::Message { message_id, recipient_id, .. } && message_id
                    == *id;
            lemma_settled(pending, change.outbox, Awaited::Message, *id, gone);
        },
        None => {
            assert forall|i: int| 0 <= i < pending.len() implies !(#[trigger] pending[i] matches
                PendingOutbound::Message { message_id, .. } && message_id == *id) by {
                assert(!pending[i].awaits(Awaited::Message, *id));
            }
        },
    }
}

/// The messages or receipts of an acknowledgement.
pub open spec fn acknowledgement(item: PendingOutbound) -> Option<(MessageId, Seq<MessageId>)> {
    match item {
        PendingOutbound::Ack { ack_id, message_ids } => Some((ack_id, message_ids@)),
        PendingOutbound::ReadReceiptAck { ack_id, receipt_ids } => Some((ack_id, receipt_ids@)),
        _ => None,
    }
}

/// An acknowledgement that the server has taken as it was made leaves the
/// outbox, and the ledger forgets exactly the messages that it named. An answer
/// that names others changes nothing.
pub proof fn law_acknowledgement_is_done(
    manager: &mut CryptoManager,
    id: &MessageId,
    ids: &Vec<MessageId>,
    change: Change,
    undo: Change,
    at: int,
)
    requires
        call_ensures(CryptoManager::confirm_acked, (&*old(manager), id, ids), change),
        call_ensures(CryptoManager::commit, (manager, change), undo),
        0 <= at < old(manager).pending_outbound@.len(),
        acknowledgement(old(manager).pending_outbound@[at]) matches Some(first) && first.0 == *id,
        forall|i: int|
            0 <= i < at ==> !(acknowledgement(#[trigger] old(manager).pending_outbound@[i]) matches
                Some(other) && other.0 == *id),
    ensures
        ({
            let named = (acknowledgement(old(manager).pending_outbound@[at])->0).1;
            &&& named == ids@ ==> {
                &&& final(manager).pending_outbound@ == old(manager).pending_outbound@.remove(at)
                &&& forall|key: (Seq<char>, Seq<char>)| #[trigger]
                    final(manager).processed_messages@.contains_key(key) <==> old(manager).processed_messages@.contains_key(key) && forall|i: int|
                        0 <= i < ids@.len() ==> uuid_text((#[trigger] ids@[i])@) != key.1
                &&& forall|key: (Seq<char>, Seq<char>)| #[trigger]
                    final(manager).processed_messages@.contains_key(key) ==> final(manager).processed_messages@[key] == old(manager).processed_messages@[key]
            }
            &&& named != ids@ ==> final(manager).pending_outbound@ == old(manager).pending_outbound@ && final(manager).processed_messages@ == old(manager).processed_messages@
        }),
        final(manager).sessions@ == old(manager).sessions@,
        keeps_keys(*old(manager), *final(manager)),
{
    let pending = old(manager).pending_outbound@;
    lemma_keeps_keys(*old(manager), change, *final(manager));
    lemma_none(change.sessions, old(manager).sessions@);
    assert(pending[at].awaits(Awaited::Ack, *id));
    assert forall|i: int| 0 <= i < at implies !(#[trigger] pending[i]).awaits(
        Awaited::Ack,
        *id,
    ) by {
        assert(!(acknowledgement(pending[i]) matches Some(other) && other.0 == *id));
    }
    assert(super::outbound::acknowledged(pending[at])
        == (acknowledgement(pending[at])->0).1);
    let named = (acknowledgement(pending[at])->0).1;
    match change.outbox {
        OutboxChange::Keep => {
            lemma_none(change.processed, old(manager).processed_messages@);
            if named == ids@ {
                let other = choose|other: int| #[trigger]
                    super::outbound::first_awaiting(pending, Awaited::Ack, *id, other)
                        && super::outbound::acknowledged(pending[other]) != ids@;
                assert(other == at);
            }
        },
        OutboxChange::Remove(other) => {
            assert(other as int == at);
            let ledger = old(manager).processed_messages@;
            let words = super::encrypting::id_texts(ids@);
            assert forall|key: (Seq<char>, Seq<char>)| #[trigger]
                final(manager).processed_messages@.contains_key(key) <==> ledger.contains_key(key)
                    && forall|i: int|
                    0 <= i < ids@.len() ==> uuid_text((#[trigger] ids@[i])@) != key.1 by {
                if words.contains(key.1) {
                    let i = choose|i: int| 0 <= i < words.len() && words[i] == key.1;
                    assert(uuid_text(ids@[i]@) == key.1);
                } else {
                    assert forall|i: int| 0 <= i < ids@.len() implies uuid_text(
                        (#[trigger] ids@[i])@,
                    ) != key.1 by {
                        assert(words[i] == uuid_text(ids@[i]@));
                    }
                }
            }
        },
        _ => {},
    }
}

/// How many bytes a request counts for.
pub open spec fn bytes_of(item: PendingOutbound) -> nat {
    match item {
        PendingOutbound::Message { envelope, .. } => byte_len(envelope.ciphertext@),
        PendingOutbound::ReadReceipt { envelope, .. } => byte_len(envelope.ciphertext@),
        PendingOutbound::Ack { message_ids, .. } => 36 * message_ids@.len(),
        PendingOutbound::ReadReceiptAck { receipt_ids, .. } => 36 * receipt_ids@.len(),
        PendingOutbound::PreKeyUpload { prekeys, .. } => 48 * prekeys@.len(),
        PendingOutbound::SignedPreKeyRotation { public_key, signature, .. } => byte_len(public_key@)
            + byte_len(signature@),
    }
}

/// How many bytes requests count for together.
pub open spec fn bytes_of_all(pending: Seq<PendingOutbound>) -> nat {
    pending.fold_left(0nat, |sum: nat, item: PendingOutbound| sum + bytes_of(item))
}

proof fn lemma_bytes_of_all(pending: Seq<PendingOutbound>)
    ensures
        bytes_of_all(pending) == super::outbox::total_weight(pending),
    decreases pending.len(),
{
    reveal_with_fuel(Seq::fold_left, 2);
    if pending.len() > 0 {
        lemma_bytes_of_all(pending.drop_last());
        assert(bytes_of(pending.last()) == pending.last().weight());
    }
}

/// A text of this length, encrypted, goes into the outbox as long as that holds
/// fewer than a thousand requests and 64 MiB with it.
pub open spec fn room_for(pending: Seq<PendingOutbound>, len: nat) -> bool {
    &&& pending.len() < 1000
    &&& bytes_of_all(pending) + (len + 18) / 3 * 4 <= 67_108_864
}

pub proof fn lemma_room(pending: Seq<PendingOutbound>, len: nat)
    ensures
        room_for(pending, len) <==> super::outbox::has_capacity(pending, len),
{
    lemma_bytes_of_all(pending);
}

/// The outbox has room exactly for what stays within its limits.
pub proof fn law_outbox_room(
    pending: &Vec<PendingOutbound>,
    len: usize,
    out: Result<(), CryptoError>,
)
    requires
        call_ensures(ensure_capacity, (pending, len), out),
    ensures
        out is Ok <==> room_for(pending@, len as nat),
        out matches Err(error) ==> error is OutboxFull,
{
    lemma_room(pending@, len as nat);
}

/// Acknowledgements of messages and of receipts go into the outbox as they are
/// sent, under new identifiers, behind what waits, if there is room.
pub proof fn law_acknowledgements_wait(
    manager: &mut CryptoManager,
    ids: Vec<MessageId>,
    out: Result<(ClientMessage, Change), CryptoError>,
    undo: Change,
    other: &mut CryptoManager,
    receipts: Result<(ClientMessage, Change), CryptoError>,
    undo_other: Change,
)
    requires
        call_ensures(CryptoManager::queue_ack, (&*old(manager), ids), out),
        out matches Ok((_, change)) ==> call_ensures(
            CryptoManager::commit,
            (manager, change),
            undo,
        ),
        call_ensures(CryptoManager::queue_read_receipt_ack, (&*old(other), ids), receipts),
        receipts matches Ok((_, change)) ==> call_ensures(
            CryptoManager::commit,
            (other, change),
            undo_other,
        ),
    ensures
        out is Ok <==> room_for(old(manager).pending_outbound@, ids@.len() * 36),
        receipts is Ok <==> room_for(old(other).pending_outbound@, ids@.len() * 36),
        out matches Ok((request, _)) ==> {
            &&& keeps_all_but_outbox(*old(manager), *final(manager))
            &&& final(manager).pending_outbound@.len() == old(manager).pending_outbound@.len() + 1
            &&& final(manager).pending_outbound@.drop_last() == old(manager).pending_outbound@
            &&& final(manager).pending_outbound@.last() matches PendingOutbound::Ack {
                ack_id,
                message_ids,
            } && message_ids@ == ids@ && is_random_uuid(ack_id@) && (request matches
                ClientMessage::Ack { ack_id: same, message_ids: sent } && same == ack_id && sent@
                == ids@)
        },
        receipts matches Ok((request, _)) ==> {
            &&& keeps_all_but_outbox(*old(other), *final(other))
            &&& final(other).pending_outbound@.len() == old(other).pending_outbound@.len() + 1
            &&& final(other).pending_outbound@.drop_last() == old(other).pending_outbound@
            &&& final(other).pending_outbound@.last() matches PendingOutbound::ReadReceiptAck {
                ack_id,
                receipt_ids,
            } && receipt_ids@ == ids@ && is_random_uuid(ack_id@) && (request matches
                ClientMessage::AckReadReceipt { ack_id: same, receipt_ids: sent } && same == ack_id
                && sent@ == ids@)
        },
{
    lemma_room(old(manager).pending_outbound@, ids@.len() * 36);
    lemma_room(old(other).pending_outbound@, ids@.len() * 36);
    if let Ok((_, change)) = out {
        lemma_only_outbox(*old(manager), change, *final(manager));
        assert(final(manager).pending_outbound@.drop_last() =~= old(manager).pending_outbound@);
    }
    if let Ok((_, change)) = receipts {
        lemma_only_outbox(*old(other), change, *final(other));
        assert(final(other).pending_outbound@.drop_last() =~= old(other).pending_outbound@);
    }
}

/// A message that is in the history stays in the ledger without its text, read
/// when it was read; every other entry stays as it is.
pub proof fn law_stored_message_loses_its_text(
    manager: &mut CryptoManager,
    peer: &str,
    id: &MessageId,
    change: Change,
    undo: Change,
)
    requires
        call_ensures(CryptoManager::confirm_inbound_stored, (&*old(manager), peer, id), change),
        call_ensures(CryptoManager::commit, (manager, change), undo),
    ensures
        final(manager).processed_messages@.dom() == old(manager).processed_messages@.dom(),
        forall|key: (Seq<char>, Seq<char>)| #[trigger]
            old(manager).processed_messages@.contains_key(key) ==> if key.0 == peer@ && key.1
                == uuid_text(id@) {
                final(manager).processed_messages@[key].pending_plaintext is None && final(manager).processed_messages@[key].processed_at == old(manager).processed_messages@[key].processed_at
            } else {
                final(manager).processed_messages@[key] == old(manager).processed_messages@[key]
            },
        final(manager).pending_outbound@ == old(manager).pending_outbound@,
        final(manager).sessions@ == old(manager).sessions@,
        keeps_keys(*old(manager), *final(manager)),
{
    lemma_keeps_keys(*old(manager), change, *final(manager));
    lemma_none(change.sessions, old(manager).sessions@);
    let key = (peer@, uuid_text(id@));
    if !old(manager).processed_messages@.contains_key(key) {
        lemma_none(change.processed, old(manager).processed_messages@);
    }
    assert(final(manager).processed_messages@.dom() =~= old(manager).processed_messages@.dom());
}

/// Everything unfinished is asked for in the order in which it came to be, as
/// it stands in the outbox.
pub proof fn law_unfinished_is_asked_for(manager: &CryptoManager, out: Vec<ClientMessage>, i: int)
    requires
        call_ensures(CryptoManager::pending_messages, (manager,), out),
        0 <= i < manager.pending_outbound@.len(),
    ensures
        out@.len() == manager.pending_outbound@.len(),
        match manager.pending_outbound@[i] {
            PendingOutbound::Message { recipient_id, message_id, envelope } => out@[i] == (
            ClientMessage::SendMessage { recipient_id, message_id, envelope }),
            PendingOutbound::ReadReceipt { recipient_id, receipt_id, envelope } => out@[i] == (
            ClientMessage::SendReadReceipt { recipient_id, receipt_id, envelope }),
            PendingOutbound::Ack { ack_id, message_ids } => out@[i] matches ClientMessage::Ack {
                ack_id: id,
                message_ids: ids,
            } && id == ack_id && ids@ == message_ids@,
            PendingOutbound::ReadReceiptAck { ack_id, receipt_ids } => out@[i] matches
                ClientMessage::AckReadReceipt { ack_id: id, receipt_ids: ids } && id == ack_id
                && ids@ == receipt_ids@,
            PendingOutbound::PreKeyUpload { upload_id, prekeys } => out@[i] matches
                ClientMessage::UploadPreKeys { upload_id: id, prekeys: keys } && id == upload_id
                && keys@ == prekeys@,
            PendingOutbound::SignedPreKeyRotation { rotation_id, key_id, public_key, signature } =>
                out@[i] == (ClientMessage::RotateSignedPreKey {
                rotation_id,
                key_id,
                public_key,
                signature,
            }),
        },
{
    assert(manager.pending_outbound@[i].asks(out@[i]));
}

/// The answer to a request is found by the identifier that the request was
/// sent under.
pub proof fn law_request_is_known_by_its_identifier(item: &PendingOutbound, out: String)
    requires
        call_ensures(PendingOutbound::correlation_id, (item,), out),
    ensures
        out@ == uuid_text(
            match item {
                PendingOutbound::Message { message_id, .. } => message_id@,
                PendingOutbound::ReadReceipt { receipt_id, .. } => receipt_id@,
                PendingOutbound::Ack { ack_id, .. } => ack_id@,
                PendingOutbound::ReadReceiptAck { ack_id, .. } => ack_id@,
                PendingOutbound::PreKeyUpload { upload_id, .. } => upload_id@,
                PendingOutbound::SignedPreKeyRotation { rotation_id, .. } => rotation_id@,
            },
        ),
{
}

/// The ledger forgets exactly what was read more than 31 days ago.
pub proof fn law_ledger_forgets(
    ledger: &mut ReplayLedger,
    now: u64,
    key: (Seq<char>, Seq<char>),
)
    requires
        call_ensures(prune_processed, (ledger, now), ()),
    ensures
        final(ledger)@.contains_key(key) <==> old(ledger)@.contains_key(key) && old(ledger)@[key].processed_at + 31 * 24 * 3600 >= now,
        final(ledger)@.contains_key(key) ==> final(ledger)@[key] == old(ledger)@[key],
{
}

/// Registered keys are kept, and no others: the signed pre-key in use, and the
/// one-time pre-keys, each under its identifier, with the next identifier above
/// them all.
pub proof fn law_registered_keys_are_kept(
    manager: &mut CryptoManager,
    signed: &SignedPreKey,
    keys: &Vec<OneTimePreKey>,
    change: Change,
    undo: Change,
    i: int,
)
    requires
        call_ensures(
            CryptoManager::persist_registration_keys,
            (&*old(manager), signed, keys),
            change,
        ),
        call_ensures(CryptoManager::commit, (manager, change), undo),
        0 <= i < keys@.len(),
        forall|j: int, k: int|
            0 <= j < k < keys@.len() ==> (#[trigger] keys@[j]).spec_key_id() != (
            #[trigger] keys@[k]).spec_key_id(),
    ensures
        final(manager).stored_spk matches Some(current) && same_signed(current, *signed),
        final(manager).stored_opks@.contains_key(keys@[i].spec_key_id()),
        same_one_time(final(manager).stored_opks@[keys@[i].spec_key_id()], keys@[i]),
        forall|id: u32| #[trigger]
            final(manager).stored_opks@.contains_key(id) ==> exists|j: int|
                0 <= j < keys@.len() && (#[trigger] keys@[j]).spec_key_id() == id,
        final(manager).next_one_time_prekey_id > keys@[i].spec_key_id() || keys@[i].spec_key_id()
            == u32::MAX,
        final(manager).sessions@ == old(manager).sessions@,
        final(manager).pending_outbound@ == old(manager).pending_outbound@,
        final(manager).processed_messages@ == old(manager).processed_messages@,
        final(manager).previous_spks@.len() == old(manager).previous_spks@.len(),
        final(manager).signed_prekey_rotated_at == old(manager).signed_prekey_rotated_at,
{
    lemma_none(change.sessions, old(manager).sessions@);
    lemma_none(change.processed, old(manager).processed_messages@);
    lemma_last_with_id(keys@, i);
    lemma_next_id(keys@, old(manager).next_one_time_prekey_id, i);
    let id = keys@[i].spec_key_id();
    assert(final(manager).stored_opks@.contains_key(id));
    assert forall|id: u32| #[trigger] final(manager).stored_opks@.contains_key(id) implies exists|
        j: int,
    | 0 <= j < keys@.len() && (#[trigger] keys@[j]).spec_key_id() == id by {
        lemma_found_with_id(keys@, id);
    }
}

proof fn lemma_last_with_id(keys: Seq<OneTimePreKey>, i: int)
    requires
        0 <= i < keys.len(),
        forall|j: int, k: int|
            0 <= j < k < keys.len() ==> (#[trigger] keys[j]).spec_key_id() != (
            #[trigger] keys[k]).spec_key_id(),
    ensures
        super::prekeys::last_with_id(keys, keys[i].spec_key_id()) == Some(keys[i]),
    decreases keys.len(),
{
    if i < keys.len() - 1 {
        let rest = keys.drop_last();
        assert(keys[keys.len() - 1] == keys.last());
        assert forall|j: int, k: int| 0 <= j < k < rest.len() implies (
        #[trigger] rest[j]).spec_key_id() != (#[trigger] rest[k]).spec_key_id() by {
            assert(keys[j].spec_key_id() != keys[k].spec_key_id());
        }
        lemma_last_with_id(rest, i);
        assert(rest[i] == keys[i]);
        assert(keys[i].spec_key_id() != keys[keys.len() - 1].spec_key_id());
    }
}

proof fn lemma_found_with_id(keys: Seq<OneTimePreKey>, id: u32)
    requires
        super::prekeys::last_with_id(keys, id) is Some,
    ensures
        exists|j: int| 0 <= j < keys.len() && (#[trigger] keys[j]).spec_key_id() == id,
    decreases keys.len(),
{
    if keys.len() > 0 {
        if keys.last().spec_key_id() == id {
            assert(keys[keys.len() - 1].spec_key_id() == id);
        } else {
            lemma_found_with_id(keys.drop_last(), id);
            let j = choose|j: int|
                0 <= j < keys.drop_last().len() && (#[trigger] keys.drop_last()[j]).spec_key_id()
                    == id;
            assert(keys[j].spec_key_id() == id);
        }
    }
}

proof fn lemma_next_id(keys: Seq<OneTimePreKey>, otherwise: u32, i: int)
    requires
        0 <= i < keys.len(),
    ensures
        super::prekeys::next_id(keys, otherwise) > keys[i].spec_key_id() || keys[i].spec_key_id()
            == u32::MAX,
    decreases keys.len(),
{
    if i < keys.len() - 1 {
        lemma_next_id(keys.drop_last(), otherwise, i);
        assert(keys.drop_last()[i] == keys[i]);
    }
}

/// An upload that the server has answered leaves the outbox. If it was not
/// accepted its keys are dropped, and no other key ever is.
pub proof fn law_answered_upload(
    manager: &mut CryptoManager,
    id: &MessageId,
    accepted: bool,
    change: Change,
    undo: Change,
    at: int,
    key: u32,
)
    requires
        call_ensures(
            CryptoManager::confirm_prekeys_uploaded,
            (&*old(manager), id, accepted),
            change,
        ),
        call_ensures(CryptoManager::commit, (manager, change), undo),
        0 <= at < old(manager).pending_outbound@.len(),
        old(manager).pending_outbound@[at] matches PendingOutbound::PreKeyUpload { upload_id, .. }
            && upload_id == *id,
        forall|i: int|
            0 <= i < at ==> !(#[trigger] old(manager).pending_outbound@[i] matches
                PendingOutbound::PreKeyUpload { upload_id, .. } && upload_id == *id),
    ensures
        final(manager).pending_outbound@ == old(manager).pending_outbound@.remove(at),
        ({
            let keys = old(manager).pending_outbound@[at]->PreKeyUpload_prekeys@;
            let dropped = !accepted && exists|i: int|
                0 <= i < keys.len() && (#[trigger] keys[i]).key_id == key;
            &&& final(manager).stored_opks@.contains_key(key) <==> old(manager).stored_opks@.contains_key(key) && !dropped
            &&& final(manager).stored_opks@.contains_key(key) ==> final(manager).stored_opks@[key]
                == old(manager).stored_opks@[key]
        }),
        final(manager).next_one_time_prekey_id == old(manager).next_one_time_prekey_id,
        final(manager).one_time_prekey_created_at@ == old(manager).one_time_prekey_created_at@,
        final(manager).sessions@ == old(manager).sessions@,
        final(manager).processed_messages@ == old(manager).processed_messages@,
        keeps_signed_keys(*old(manager), *final(manager)),
{
    let pending = old(manager).pending_outbound@;
    lemma_none(change.sessions, old(manager).sessions@);
    lemma_none(change.processed, old(manager).processed_messages@);
    lemma_none(change.created_at, old(manager).one_time_prekey_created_at@);
    assert(pending[at].awaits(Awaited::PreKeyUpload, *id));
    assert forall|i: int| 0 <= i < at implies !(#[trigger] pending[i]).awaits(
        Awaited::PreKeyUpload,
        *id,
    ) by {
        assert(!(pending[i] matches PendingOutbound::PreKeyUpload { upload_id, .. } && upload_id
            == *id));
    }
    let keys = pending[at]->PreKeyUpload_prekeys@;
    let take = change.one_time_prekeys.take@;
    assert(change.outbox == OutboxChange::Remove(at as usize));
    assert(!crate::table::has_key(change.one_time_prekeys.put@, key));
    if !accepted {
        assert(take.len() == keys.len());
        if exists|i: int| 0 <= i < keys.len() && (#[trigger] keys[i]).key_id == key {
            let i = choose|i: int| 0 <= i < keys.len() && (#[trigger] keys[i]).key_id == key;
            assert(take[i].id() == key);
            assert(crate::table::listed(take, key));
        }
        if crate::table::listed(take, key) {
            let i = choose|i: int| 0 <= i < take.len() && (#[trigger] take[i]).id() == key;
            assert(keys[i].key_id == key);
        }
    }
}

/// Pre-keys that run low are replenished: a hundred new ones from the next
/// identifier on are kept and offered, all of them and no others, unless an
/// offer waits already, which is repeated.
pub proof fn law_replenishment(
    manager: &mut CryptoManager,
    out: Result<(ClientMessage, Change), CryptoError>,
    undo: Change,
)
    requires
        call_ensures(CryptoManager::queue_prekey_replenishment, (&*old(manager),), out),
        out matches Ok((_, change)) ==> call_ensures(
            CryptoManager::commit,
            (manager, change),
            undo,
        ),
    ensures
        ({
            let waits = exists|i: int|
                0 <= i < old(manager).pending_outbound@.len() && (#[trigger] old(manager).pending_outbound@[i]) is PreKeyUpload;
            let start = old(manager).next_one_time_prekey_id;
            let fits = room_for(old(manager).pending_outbound@, 4800);
            &&& waits ==> out is Ok && (out->Ok_0).0 is UploadPreKeys && final(manager).pending_outbound@ == old(manager).pending_outbound@
                && keeps_all_but_outbox(*old(manager), *final(manager))
            &&& !waits ==> (out is Ok <==> start + 100 <= u32::MAX && fits)
            &&& !waits && out is Ok ==> {
                let stored = final(manager).stored_opks@;
                &&& forall|id: u32|
                    start <= id < start + 100 ==> #[trigger] stored.contains_key(id)
                        && stored[id].spec_key_id() == id && stored[id].wf()
                &&& forall|id: u32|
                    !(start <= id < start + 100) ==> (#[trigger] stored.contains_key(id) <==> old(manager).stored_opks@.contains_key(id))
                &&& forall|id: u32|
                    !(start <= id < start + 100) && #[trigger] stored.contains_key(id)
                        ==> stored[id] == old(manager).stored_opks@[id]
                &&& final(manager).next_one_time_prekey_id == start + 100
                &&& final(manager).pending_outbound@.drop_last() == old(manager).pending_outbound@
                &&& final(manager).pending_outbound@.len() == old(manager).pending_outbound@.len()
                    + 1
                &&& (out->Ok_0).0 matches ClientMessage::UploadPreKeys { upload_id, prekeys }
                    && is_random_uuid(upload_id@) && prekeys@.len() == 100 && (forall|i: int|
                    0 <= i < 100 ==> (#[trigger] prekeys@[i]).key_id == start + i && encodes(
                        prekeys@[i].public_key@,
                        stored[(start + i) as u32].spec_public(),
                    )) && (final(manager).pending_outbound@.last() matches
                    PendingOutbound::PreKeyUpload { upload_id: same, prekeys: kept } && same
                    == upload_id && kept@ == prekeys@)
            }
        }),
        final(manager).sessions@ == old(manager).sessions@ || out is Err,
        final(manager).processed_messages@ == old(manager).processed_messages@ || out is Err,
{
    let pending = old(manager).pending_outbound@;
    let start = old(manager).next_one_time_prekey_id;
    lemma_room(pending, 4800);
    if let Ok((request, change)) = out {
        lemma_none(change.sessions, old(manager).sessions@);
        lemma_none(change.processed, old(manager).processed_messages@);
        if old(manager).uploads() {
            lemma_only_outbox(*old(manager), change, *final(manager));
        } else {
            let put = change.one_time_prekeys.put@;
            let stored = final(manager).stored_opks@;
            assert forall|id: u32| start <= id < start + 100 implies #[trigger] stored.contains_key(
                id,
            ) && stored[id] == put[id - start].1 by {
                assert(put[id - start].0 == id);
                assert(put[id - start].0.id() == id);
                assert(crate::table::has_key(put, id));
                let at = crate::table::key_position(put, id);
                assert(put[at].0.id() == id);
            }
            assert forall|id: u32| !(start <= id < start + 100) implies (
            #[trigger] stored.contains_key(id) <==> old(manager).stored_opks@.contains_key(id)) && (
            stored.contains_key(id) ==> stored[id] == old(manager).stored_opks@[id]) by {
                if crate::table::has_key(put, id) {
                    let at = crate::table::key_position(put, id);
                    assert(put[at].0 == id);
                }
            }
            assert(final(manager).pending_outbound@.drop_last() =~= pending);
            let prekeys = request->UploadPreKeys_prekeys@;
            assert forall|i: int| 0 <= i < 100 implies (#[trigger] prekeys[i]).key_id == start + i
                && encodes(prekeys[i].public_key@, stored[(start + i) as u32].spec_public()) by {
                assert(put[i].0 == start + i);
                assert(stored.contains_key((start + i) as u32));
            }
            assert(old(manager).pending_outbound@.push(final(manager).pending_outbound@.last())
                == final(manager).pending_outbound@);
            assert(forall|id: u32|
                start <= id < start + 100 ==> #[trigger] stored.contains_key(id)
                    && stored[id].spec_key_id() == id && stored[id].wf());
            assert(prekeys.len() == 100);
        }
    }
}

/// A signed pre-key is replaced exactly if it has been in use for seven days
/// and no replacement waits for its answer. The new one has the next
/// identifier, is signed with the identity and announced; the three newest of
/// the old ones are kept behind it.
pub proof fn law_signed_prekey_is_replaced(
    manager: &mut CryptoManager,
    now: u64,
    out: Result<Option<Change>, CryptoError>,
    undo: Change,
)
    requires
        call_ensures(CryptoManager::queue_signed_prekey_rotation, (&*old(manager), now), out),
        out matches Ok(Some(change)) ==> call_ensures(
            CryptoManager::commit,
            (manager, change),
            undo,
        ),
    ensures
        ({
            let waits = exists|i: int|
                0 <= i < old(manager).pending_outbound@.len() && (#[trigger] old(manager).pending_outbound@[i]) is SignedPreKeyRotation;
            let due = old(manager).stored_spk is Some && !waits && now >= old(manager).signed_prekey_rotated_at + 7 * 24 * 3600;
            let number = old(manager).stored_spk->0.spec_key_id();
            &&& !due ==> out == Ok::<Option<Change>, CryptoError>(None)
            &&& due ==> (out is Ok <==> number < u32::MAX && room_for(
                old(manager).pending_outbound@,
                96,
            ))
            &&& due && out is Ok ==> out->Ok_0 is Some && {
                &&& final(manager).stored_spk matches Some(fresh) && fresh.spec_key_id() == number
                    + 1 && fresh.wf() && fresh.spec_signature() == ed25519_sign(
                    old(manager).identity@,
                    fresh.spec_public(),
                ) && (final(manager).pending_outbound@.last() matches
                    PendingOutbound::SignedPreKeyRotation {
                    rotation_id,
                    key_id,
                    public_key,
                    signature,
                } && is_random_uuid(rotation_id@) && key_id == number + 1 && encodes(
                    public_key@,
                    fresh.spec_public(),
                ) && encodes(signature@, fresh.spec_signature()))
                &&& final(manager).previous_spks@.len() == if old(manager).previous_spks@.len() < 3 {
                    old(manager).previous_spks@.len() + 1
                } else {
                    3
                }
                &&& same_signed(final(manager).previous_spks@[0], old(manager).stored_spk->0)
                &&& forall|i: int|
                    1 <= i < final(manager).previous_spks@.len() ==> same_signed(
                        #[trigger] final(manager).previous_spks@[i],
                        old(manager).previous_spks@[i - 1],
                    )
                &&& final(manager).signed_prekey_rotated_at == now
                &&& final(manager).pending_outbound@.drop_last() == old(manager).pending_outbound@
                &&& final(manager).sessions@ == old(manager).sessions@
                &&& final(manager).processed_messages@ == old(manager).processed_messages@
                &&& keeps_one_time_keys(*old(manager), *final(manager))
            }
        }),
{
    lemma_room(old(manager).pending_outbound@, 96);
    if let Ok(Some(change)) = out {
        lemma_none(change.sessions, old(manager).sessions@);
        lemma_none(change.processed, old(manager).processed_messages@);
        lemma_none(change.one_time_prekeys, old(manager).stored_opks@);
        lemma_none(change.created_at, old(manager).one_time_prekey_created_at@);
        assert(final(manager).pending_outbound@.drop_last() =~= old(manager).pending_outbound@);
    }
}

/// An accepted replacement leaves the outbox and nothing else changes. One that
/// was refused is replaced in its place with another, numbered after the key
/// that the server holds; the refused key is kept only if it had been accepted
/// before.
pub proof fn law_answered_rotation(
    manager: &mut CryptoManager,
    id: &MessageId,
    accepted: bool,
    before: bool,
    current: u32,
    now: u64,
    out: Result<(Option<ClientMessage>, Change), CryptoError>,
    undo: Change,
    at: int,
)
    requires
        call_ensures(
            CryptoManager::confirm_signed_prekey_rotated,
            (&*old(manager), id, accepted, before, current, now),
            out,
        ),
        out matches Ok((_, change)) ==> call_ensures(
            CryptoManager::commit,
            (manager, change),
            undo,
        ),
        0 <= at < old(manager).pending_outbound@.len(),
        old(manager).pending_outbound@[at] matches PendingOutbound::SignedPreKeyRotation {
            rotation_id,
            ..
        } && rotation_id == *id,
        forall|i: int|
            0 <= i < at ==> !(#[trigger] old(manager).pending_outbound@[i] matches
                PendingOutbound::SignedPreKeyRotation { rotation_id, .. } && rotation_id == *id),
    ensures
        out is Ok <==> accepted || current < u32::MAX,
        accepted ==> (out->Ok_0).0 is None && final(manager).pending_outbound@ == old(manager).pending_outbound@.remove(at) && keeps_all_but_outbox(
            *old(manager),
            *final(manager),
        ),
        !accepted && out is Ok ==> {
            &&& final(manager).pending_outbound@.len() == old(manager).pending_outbound@.len()
            &&& forall|i: int|
                0 <= i < old(manager).pending_outbound@.len() && i != at ==> #[trigger] final(manager).pending_outbound@[i] == old(manager).pending_outbound@[i]
            &&& final(manager).stored_spk matches Some(fresh) && fresh.spec_key_id() == current + 1
                && fresh.spec_signature() == ed25519_sign(
                old(manager).identity@,
                fresh.spec_public(),
            ) && ((out->Ok_0).0 matches Some(ClientMessage::RotateSignedPreKey {
                rotation_id,
                key_id,
                public_key,
                signature,
            }) && is_random_uuid(rotation_id@) && key_id == current + 1 && encodes(
                public_key@,
                fresh.spec_public(),
            ) && encodes(signature@, fresh.spec_signature()) && final(manager).pending_outbound@[at] == (PendingOutbound::SignedPreKeyRotation {
                rotation_id,
                key_id,
                public_key,
                signature,
            }))
            &&& final(manager).signed_prekey_rotated_at == now
            &&& final(manager).sessions@ == old(manager).sessions@
            &&& final(manager).processed_messages@ == old(manager).processed_messages@
            &&& keeps_one_time_keys(*old(manager), *final(manager))
            &&& !before ==> forall|i: int|
                0 <= i < final(manager).previous_spks@.len() ==> same_signed(
                    #[trigger] final(manager).previous_spks@[i],
                    old(manager).previous_spks@[i],
                )
            &&& !before && old(manager).previous_spks@.len() <= 3 ==> final(manager).previous_spks@.len() == old(manager).previous_spks@.len()
            &&& before && old(manager).stored_spk is Some ==> final(manager).previous_spks@.len()
                > 0 && same_signed(final(manager).previous_spks@[0], old(manager).stored_spk->0)
        },
{
    let pending = old(manager).pending_outbound@;
    assert(pending[at].awaits(Awaited::Rotation, *id));
    assert forall|i: int| 0 <= i < at implies !(#[trigger] pending[i]).awaits(
        Awaited::Rotation,
        *id,
    ) by {
        assert(!(pending[i] matches PendingOutbound::SignedPreKeyRotation { rotation_id, .. }
            && rotation_id == *id));
    }
    if let Ok((_, change)) = out {
        if accepted {
            lemma_only_outbox(*old(manager), change, *final(manager));
            assert(change.outbox == OutboxChange::Remove(at as usize));
        } else {
            lemma_none(change.sessions, old(manager).sessions@);
            lemma_none(change.processed, old(manager).processed_messages@);
            lemma_none(change.one_time_prekeys, old(manager).stored_opks@);
            lemma_none(change.created_at, old(manager).one_time_prekey_created_at@);
            assert(change.outbox->Replace_0 == at);
        }
    }
}

/// A change can be committed exactly if the outbox has the request that it is
/// about and no entry comes in twice.
pub proof fn law_what_can_be_committed(manager: &CryptoManager, change: &Change, out: bool)
    requires
        call_ensures(CryptoManager::can_commit, (manager, change), out),
    ensures
        out && change.outbox is Remove ==> change.outbox->Remove_0
            < manager.pending_outbound@.len(),
        out && change.outbox is Replace ==> change.outbox->Replace_0
            < manager.pending_outbound@.len(),
        out && change.outbox is Insert ==> change.outbox->Insert_0
            <= manager.pending_outbound@.len(),
        out ==> forall|i: int, j: int|
            0 <= i < j < change.one_time_prekeys.put@.len() ==> (
            #[trigger] change.one_time_prekeys.put@[i]).0 != (
            #[trigger] change.one_time_prekeys.put@[j]).0,
        change.sessions.put@.len() <= 1 && change.one_time_prekeys.put@.len() <= 1
            && change.created_at.put@.len() <= 1 && change.processed.put@.len() <= 1 && (
        change.outbox is Keep || change.outbox is Add) ==> out,
{
    if out {
        assert forall|i: int, j: int| 0 <= i < j < change.one_time_prekeys.put@.len() implies (
        #[trigger] change.one_time_prekeys.put@[i]).0 != (
        #[trigger] change.one_time_prekeys.put@[j]).0 by {
            assert(change.one_time_prekeys.put@[i].0.id() != change.one_time_prekeys.put@[j].0.id());
        }
    }
}

} // verus!
