//! The outbox as the server's answers come in.

use super::crypto_mgr::{Change, CryptoManager, OutboxChange};
use super::error::CryptoError;
use super::outbox::{ensure_capacity, PendingOutbound};
use super::replay::ProcessedMessage;
use crate::protocol::consts::MAX_PENDING_OUTBOUND_BYTES;
use crate::protocol::{ClientMessage, MessageId, UserId};
use crate::table::{TableChange, TableKey};
use vstd::prelude::*;
use vstd::string::*;

verus! {

use super::encrypting::id_texts;
use super::outbox::has_capacity;
use super::replay::LedgerModel;
use crate::protocol::types::{is_random_uuid, uuid_text};
use crate::table::{distinct_keys, entry_map, key_position, listed};

/// What kind of answer a request waits for.
#[derive(Clone, Copy, PartialEq, Eq, Structural)]
pub enum Awaited {
    Message,
    ReadReceipt,
    Ack,
    PreKeyUpload,
    Rotation,
}

impl PendingOutbound {
    /// The kind of answer that this request waits for.
    pub open spec fn spec_awaited(self) -> Awaited {
        match self {
            PendingOutbound::Message { .. } => Awaited::Message,
            PendingOutbound::ReadReceipt { .. } => Awaited::ReadReceipt,
            PendingOutbound::Ack { .. } => Awaited::Ack,
            PendingOutbound::ReadReceiptAck { .. } => Awaited::Ack,
            PendingOutbound::PreKeyUpload { .. } => Awaited::PreKeyUpload,
            PendingOutbound::SignedPreKeyRotation { .. } => Awaited::Rotation,
        }
    }

    /// The request waits for an answer of this kind under this identifier.
    pub open spec fn awaits(self, kind: Awaited, id: MessageId) -> bool {
        self.spec_awaited() == kind && self.correlation() == id
    }

    fn does_await(&self, kind: Awaited, id: &MessageId) -> (out: bool)
        ensures
            out == self.awaits(kind, *id),
    {
        match self {
            PendingOutbound::Message { message_id, .. } => kind == Awaited::Message
                && message_id.same(id),
            PendingOutbound::ReadReceipt { receipt_id, .. } => kind == Awaited::ReadReceipt
                && receipt_id.same(id),
            PendingOutbound::Ack { ack_id, .. } => kind == Awaited::Ack && ack_id.same(id),
            PendingOutbound::ReadReceiptAck { ack_id, .. } => kind == Awaited::Ack && ack_id.same(
                id,
            ),
            PendingOutbound::PreKeyUpload { upload_id, .. } => kind == Awaited::PreKeyUpload
                && upload_id.same(id),
            PendingOutbound::SignedPreKeyRotation { rotation_id, .. } => kind == Awaited::Rotation
                && rotation_id.same(id),
        }
    }
}

/// The first request that waits for an answer is the one at `at`.
pub open spec fn first_awaiting(
    pending: Seq<PendingOutbound>,
    kind: Awaited,
    id: MessageId,
    at: int,
) -> bool {
    &&& 0 <= at < pending.len()
    &&& pending[at].awaits(kind, id)
    &&& forall|j: int| 0 <= j < at ==> !(#[trigger] pending[j]).awaits(kind, id)
}

/// No request waits for an answer.
pub open spec fn none_awaiting(
    pending: Seq<PendingOutbound>,
    kind: Awaited,
    id: MessageId,
) -> bool {
    forall|j: int| 0 <= j < pending.len() ==> !(#[trigger] pending[j]).awaits(kind, id)
}

/// Where the request is that waits for an answer.
pub fn position_awaiting(pending: &Vec<PendingOutbound>, kind: Awaited, id: &MessageId) -> (out:
    Option<usize>)
    ensures
        match out {
            Some(at) => first_awaiting(pending@, kind, *id, at as int),
            None => none_awaiting(pending@, kind, *id),
        },
{
    let mut i: usize = 0;
    while i < pending.len()
        invariant
            i <= pending@.len(),
            forall|j: int| 0 <= j < i ==> !(#[trigger] pending@[j]).awaits(kind, *id),
        decreases pending@.len() - i,
    {
        if pending[i].does_await(kind, id) {
            return Some(i);
        }
        i += 1;
    }
    None
}

/// The outbox loses the first request that waits for an answer, if one does.
pub open spec fn settles(
    change: OutboxChange,
    pending: Seq<PendingOutbound>,
    kind: Awaited,
    id: MessageId,
) -> bool {
    match change {
        OutboxChange::Keep => none_awaiting(pending, kind, id),
        OutboxChange::Remove(at) => first_awaiting(pending, kind, id, at as int),
        _ => false,
    }
}

/// The identifiers that an acknowledgement is about.
pub open spec fn acknowledged(item: PendingOutbound) -> Seq<MessageId> {
    match item {
        PendingOutbound::Ack { message_ids, .. } => message_ids@,
        PendingOutbound::ReadReceiptAck { receipt_ids, .. } => receipt_ids@,
        _ => Seq::empty(),
    }
}

/// The ledger without the messages in `ids`, from whatever peer.
pub open spec fn without_messages(ledger: LedgerModel, ids: Seq<MessageId>) -> LedgerModel {
    Map::new(
        |key: (Seq<char>, Seq<char>)|
            ledger.contains_key(key) && !id_texts(ids).contains(key.1),
        |key: (Seq<char>, Seq<char>)| ledger[key],
    )
}

fn same_ids(left: &Vec<MessageId>, right: &Vec<MessageId>) -> (out: bool)
    ensures
        out == (left@ == right@),
{
    if left.len() != right.len() {
        return false;
    }
    let mut i: usize = 0;
    while i < left.len()
        invariant
            i <= left@.len() == right@.len(),
            forall|j: int| 0 <= j < i ==> left@[j] == right@[j],
        decreases left@.len() - i,
    {
        if !left[i].same(&right[i]) {
            return false;
        }
        i += 1;
    }
    assert(left@ =~= right@);
    true
}

fn texts_of(ids: &Vec<MessageId>) -> (out: Vec<String>)
    ensures
        out@.len() == ids@.len(),
        forall|i: int| 0 <= i < ids@.len() ==> (#[trigger] out@[i])@ == id_texts(ids@)[i],
{
    let mut out: Vec<String> = Vec::new();
    let mut i: usize = 0;
    while i < ids.len()
        invariant
            i <= ids@.len(),
            out@.len() == i,
            forall|j: int| 0 <= j < i ==> (#[trigger] out@[j])@ == id_texts(ids@)[j],
        decreases ids@.len() - i,
    {
        out.push(ids[i].to_text());
        i += 1;
    }
    out
}

fn is_among(text: &String, texts: &Vec<String>) -> (out: bool)
    ensures
        out == (exists|i: int| 0 <= i < texts@.len() && (#[trigger] texts@[i])@ == text@),
{
    let mut i: usize = 0;
    while i < texts.len()
        invariant
            i <= texts@.len(),
            forall|j: int| 0 <= j < i ==> (#[trigger] texts@[j])@ != text@,
        decreases texts@.len() - i,
    {
        if texts[i] == *text {
            assert(texts@[i as int]@ == text@);
            return true;
        }
        i += 1;
    }
    false
}

/// So many identifiers of 36 bytes fit in the outbox.
fn ensure_id_capacity(pending: &Vec<PendingOutbound>, count: usize) -> (out: Result<
    (),
    CryptoError,
>)
    ensures
        out is Ok <==> has_capacity(pending@, (count * 36) as nat),
        out matches Err(error) ==> error == CryptoError::OutboxFull,
{
    if count > MAX_PENDING_OUTBOUND_BYTES / 36 {
        return Err(CryptoError::OutboxFull);
    }
    ensure_capacity(pending, count * 36)
}

impl CryptoManager {
    /// All unfinished requests, in the order in which they were made.
    pub fn pending_messages(&self) -> (out: Vec<ClientMessage>)
        ensures
            out@.len() == self.pending_outbound@.len(),
            forall|i: int|
                0 <= i < out@.len() ==> self.pending_outbound@[i].asks(#[trigger] out@[i]),
    {
        let mut out: Vec<ClientMessage> = Vec::new();
        let mut i: usize = 0;
        while i < self.pending_outbound.len()
            invariant
                i <= self.pending_outbound@.len(),
                out@.len() == i,
                forall|j: int|
                    0 <= j < i ==> self.pending_outbound@[j].asks(#[trigger] out@[j]),
            decreases self.pending_outbound@.len() - i,
        {
            out.push(self.pending_outbound[i].to_client_message());
            i += 1;
        }
        out
    }

    /// `change` takes the request that waits for an answer out of the outbox,
    /// and does nothing else.
    pub open spec fn is_settled(&self, kind: Awaited, id: MessageId, change: Change) -> bool {
        &&& change.only_outbox()
        &&& settles(change.outbox, self.pending_outbound@, kind, id)
        &&& change.outbox.fits(self.pending_outbound@.len())
    }

    fn settle(&self, kind: Awaited, id: &MessageId) -> (change: Change)
        ensures
            self.is_settled(kind, *id, change),
    {
        let mut change = Change::none();
        match position_awaiting(&self.pending_outbound, kind, id) {
            Some(at) => {
                change.outbox = OutboxChange::Remove(at);
            },
            None => {},
        }
        change
    }

    /// The server has taken a message.
    pub fn confirm_message_sent(&self, message_id: &MessageId) -> (change: Change)
        ensures
            self.is_settled(Awaited::Message, *message_id, change),
    {
        self.settle(Awaited::Message, message_id)
    }

    /// The server has taken a read receipt.
    pub fn confirm_read_receipt_sent(&self, receipt_id: &MessageId) -> (change: Change)
        ensures
            self.is_settled(Awaited::ReadReceipt, *receipt_id, change),
    {
        self.settle(Awaited::ReadReceipt, receipt_id)
    }

    /// A message that the server refused: `change` takes it out of the outbox,
    /// and drops the session with its recipient.
    pub open spec fn is_rejected(
        &self,
        message_id: MessageId,
        out: Option<(UserId, Change)>,
    ) -> bool {
        match out {
            None => none_awaiting(self.pending_outbound@, Awaited::Message, message_id),
            Some((recipient, change)) => {
                &&& change.wf()
                &&& change.keeps_keys()
                &&& change.processed.is_none()
                &&& change.sessions.applied(self.sessions@) == self.sessions@.remove(recipient@)
                &&& change.outbox matches OutboxChange::Remove(at) && first_awaiting(
                    self.pending_outbound@,
                    Awaited::Message,
                    message_id,
                    at as int,
                ) && (self.pending_outbound@[at as int] matches PendingOutbound::Message {
                    recipient_id,
                    ..
                } && recipient_id == recipient)
            },
        }
    }

    /// The server has refused a message: the session with its recipient is
    /// dropped with it, so that the next message starts a new one.
    pub fn reject_message(&self, message_id: &MessageId) -> (out: Option<(UserId, Change)>)
        ensures
            self.is_rejected(*message_id, out),
    {
        let at: usize = match position_awaiting(
            &self.pending_outbound,
            Awaited::Message,
            message_id,
        ) {
            Some(at) => at,
            None => return None,
        };
        match &self.pending_outbound[at] {
            PendingOutbound::Message { recipient_id, .. } => {
                let mut change = Change::none();
                let peer = recipient_id.as_str().to_owned();
                let ghost before = self.sessions@;
                change.sessions = TableChange::take_one(peer);
                proof {
                    crate::table::lemma_take_one(before, peer, change.sessions.put@);
                }
                change.outbox = OutboxChange::Remove(at);
                Some((recipient_id.clone(), change))
            },
            _ => None,
        }
    }

    /// The answer to an acknowledgement: if it names the messages that were
    /// acknowledged, `change` settles the request and takes the messages out
    /// of the ledger.
    pub open spec fn is_acked(
        &self,
        ack_id: MessageId,
        message_ids: Seq<MessageId>,
        change: Change,
    ) -> bool {
        &&& change.wf()
        &&& change.keeps_keys()
        &&& change.sessions.is_none()
        &&& change.outbox.fits(self.pending_outbound@.len())
        &&& match change.outbox {
            OutboxChange::Keep => {
                &&& change.processed.is_none()
                &&& none_awaiting(self.pending_outbound@, Awaited::Ack, ack_id) || (exists|
                    at: int,
                | #[trigger]
                    first_awaiting(self.pending_outbound@, Awaited::Ack, ack_id, at)
                        && acknowledged(self.pending_outbound@[at]) != message_ids)
            },
            OutboxChange::Remove(at) => {
                &&& first_awaiting(self.pending_outbound@, Awaited::Ack, ack_id, at as int)
                &&& acknowledged(self.pending_outbound@[at as int]) == message_ids
                &&& change.processed.applied(self.processed_messages@) == without_messages(
                    self.processed_messages@,
                    message_ids,
                )
            },
            _ => false,
        }
    }

    /// The server has taken an acknowledgement. If it names the messages that
    /// were acknowledged, the request is settled and the messages leave the
    /// ledger: the server will not deliver them again.
    pub fn confirm_acked(&self, ack_id: &MessageId, message_ids: &Vec<MessageId>) -> (change:
        Change)
        ensures
            self.is_acked(*ack_id, message_ids@, change),
    {
        let mut change = Change::none();
        let at: usize = match position_awaiting(&self.pending_outbound, Awaited::Ack, ack_id) {
            Some(at) => at,
            None => return change,
        };
        let agree = match &self.pending_outbound[at] {
            PendingOutbound::Ack { message_ids: expected, .. } => same_ids(expected, message_ids),
            PendingOutbound::ReadReceiptAck { receipt_ids: expected, .. } => same_ids(
                expected,
                message_ids,
            ),
            _ => false,
        };
        if !agree {
            return change;
        }
        let texts = texts_of(message_ids);
        let entries = self.processed_messages.entries();
        let mut take: Vec<(String, String)> = Vec::new();
        let mut i: usize = 0;
        while i < entries.len()
            invariant
                i <= entries@.len(),
                distinct_keys(entries@),
                entry_map(entries@) == self.processed_messages@,
                texts@.len() == message_ids@.len(),
                forall|k: int|
                    0 <= k < message_ids@.len() ==> (#[trigger] texts@[k])@ == id_texts(
                        message_ids@,
                    )[k],
                forall|k: int|
                    0 <= k < take@.len() ==> id_texts(message_ids@).contains(
                        (#[trigger] take@[k]).id().1,
                    ),
                forall|j: int|
                    0 <= j < i && id_texts(message_ids@).contains(
                        (#[trigger] entries@[j]).0.id().1,
                    ) ==> listed(take@, entries@[j].0.id()),
            decreases entries@.len() - i,
        {
            let ghost taken = take@;
            if is_among(&entries[i].0.1, &texts) {
                proof {
                    let k = choose|k: int|
                        0 <= k < texts@.len() && (#[trigger] texts@[k])@
                            == entries@[i as int].0.1@;
                    assert(id_texts(message_ids@)[k] == entries@[i as int].0.1@);
                }
                take.push(entries[i].0.duplicate());
                assert(take@.last().id() == entries@[i as int].0.id());
                assert forall|id: (Seq<char>, Seq<char>)| #[trigger] listed(taken, id) implies listed(
                    take@,
                    id,
                ) by {
                    let k = choose|k: int| 0 <= k < taken.len() && (#[trigger] taken[k]).id() == id;
                    assert(take@[k].id() == id);
                }
            } else {
                assert forall|k: int| 0 <= k < message_ids@.len() implies #[trigger] id_texts(
                    message_ids@,
                )[k] != entries@[i as int].0.id().1 by {
                    assert(texts@[k]@ == id_texts(message_ids@)[k]);
                }
            }
            i += 1;
        }
        let ghost removed = take@;
        change.processed = TableChange { take, put: Vec::new() };
        change.outbox = OutboxChange::Remove(at);
        proof {
            let ledger = self.processed_messages@;
            assert forall|key: (Seq<char>, Seq<char>)| #[trigger] ledger.contains_key(key) implies (
            listed(removed, key) <==> id_texts(message_ids@).contains(key.1)) by {
                let j = key_position(entries@, key);
                assert(entries@[j].0.id() == key);
            }
            assert(change.processed.applied(ledger) =~= without_messages(ledger, message_ids@));
        }
        change
    }

    /// An acknowledgement of messages goes into the outbox, if it has room.
    pub open spec fn acknowledges(
        &self,
        message_ids: Vec<MessageId>,
        out: Result<(ClientMessage, Change), CryptoError>,
    ) -> bool {
        match out {
            Ok((request, change)) => {
                &&& has_capacity(self.pending_outbound@, message_ids@.len() * 36)
                &&& change.only_outbox()
                &&& change.outbox matches OutboxChange::Add(item) && item.asks(request) && (
                item matches PendingOutbound::Ack { ack_id, message_ids: ids } && is_random_uuid(
                    ack_id@,
                ) && ids == message_ids)
            },
            Err(error) => {
                &&& !has_capacity(self.pending_outbound@, message_ids@.len() * 36)
                &&& error == CryptoError::OutboxFull
            },
        }
    }

    /// Puts an acknowledgement of messages in the outbox, under a new
    /// identifier.
    pub fn queue_ack(&self, message_ids: Vec<MessageId>) -> (out: Result<
        (ClientMessage, Change),
        CryptoError,
    >)
        ensures
            self.acknowledges(message_ids, out),
    {
        match ensure_id_capacity(&self.pending_outbound, message_ids.len()) {
            Ok(()) => {},
            Err(error) => return Err(error),
        }
        let item = PendingOutbound::Ack { ack_id: MessageId::new(), message_ids };
        let request = item.to_client_message();
        let mut change = Change::none();
        change.outbox = OutboxChange::Add(item);
        Ok((request, change))
    }

    /// An acknowledgement of read receipts goes into the outbox, if it has
    /// room.
    pub open spec fn acknowledges_receipts(
        &self,
        receipt_ids: Seq<MessageId>,
        out: Result<(ClientMessage, Change), CryptoError>,
    ) -> bool {
        match out {
            Ok((request, change)) => {
                &&& has_capacity(self.pending_outbound@, receipt_ids.len() * 36)
                &&& change.only_outbox()
                &&& change.outbox matches OutboxChange::Add(item) && item.asks(request) && (
                item matches PendingOutbound::ReadReceiptAck { ack_id, receipt_ids: ids }
                    && is_random_uuid(ack_id@) && ids@ == receipt_ids)
            },
            Err(error) => {
                &&& !has_capacity(self.pending_outbound@, receipt_ids.len() * 36)
                &&& error == CryptoError::OutboxFull
            },
        }
    }

    /// Puts an acknowledgement of read receipts in the outbox, under a new
    /// identifier.
    pub fn queue_read_receipt_ack(&self, receipt_ids: Vec<MessageId>) -> (out: Result<
        (ClientMessage, Change),
        CryptoError,
    >)
        ensures
            self.acknowledges_receipts(receipt_ids@, out),
    {
        match ensure_id_capacity(&self.pending_outbound, receipt_ids.len()) {
            Ok(()) => {},
            Err(error) => return Err(error),
        }
        let item = PendingOutbound::ReadReceiptAck { ack_id: MessageId::new(), receipt_ids };
        let request = item.to_client_message();
        let mut change = Change::none();
        change.outbox = OutboxChange::Add(item);
        Ok((request, change))
    }

    /// `change` takes the text of a received message out of the ledger.
    pub open spec fn is_stored(&self, peer: Seq<char>, message_id: MessageId, change: Change) -> bool {
        let key = (peer, uuid_text(message_id@));
        &&& change.wf()
        &&& change.keeps_keys()
        &&& change.sessions.is_none()
        &&& change.outbox is Keep
        &&& if self.processed_messages@.contains_key(key) {
            change.processed.applied(self.processed_messages@) == self.processed_messages@.insert(
                key,
                ProcessedMessage {
                    pending_plaintext: None,
                    processed_at: self.processed_messages@[key].processed_at,
                },
            )
        } else {
            change.processed.is_none()
        }
    }

    /// A received message is in the chat history: the ledger need not keep its
    /// text any longer.
    pub fn confirm_inbound_stored(&self, peer_id: &str, message_id: &MessageId) -> (change: Change)
        ensures
            self.is_stored(peer_id@, *message_id, change),
    {
        let mut change = Change::none();
        let key = (peer_id.to_owned(), message_id.to_text());
        match self.processed_messages.get(&key) {
            Some(processed) => {
                let stored = ProcessedMessage {
                    pending_plaintext: None,
                    processed_at: processed.processed_at,
                };
                let ghost before = self.processed_messages@;
                change.processed = TableChange::put_one(key, stored);
                proof {
                    crate::table::lemma_put_one(before, change.processed.take@, (key, stored));
                }
            },
            None => {},
        }
        change
    }
}

} // verus!
