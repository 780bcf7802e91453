//! What a user gets after logging in: the messages that waited, page by page,
//! and the receipts.

use super::datetime::parse_sqlite_datetime;
use super::message::validate_envelope;
use super::queue::QueuedRow;
use super::receipts::QueuedReceipt;
use crate::protocol::consts::{
    MAX_QUEUED_MESSAGES, MAX_QUEUED_MESSAGES_PER_PAGE, MAX_QUEUED_PAGE_BYTES,
};
use crate::protocol::{EncryptedEnvelope, InboundMessage, MessageId, ServerMessage, UserId};
use vstd::prelude::*;
use vstd::string::*;

verus! {

use super::datetime::spec_datetime;
use super::message::envelope_fault;
use crate::protocol::types::{uuid_value, valid_user_id};

/// Why a message in the queue cannot be delivered.
#[derive(Debug, Clone, Copy)]
pub enum RowFault {
    /// The envelope could not be read.
    Encoding,
    /// The envelope is not well-formed.
    Envelope(&'static str),
    Sender,
    Identifier,
}

/// A row cannot be delivered, for this reason.
pub open spec fn is_faulty(
    row: QueuedRow,
    envelope: Option<EncryptedEnvelope>,
    fault: RowFault,
) -> bool {
    match envelope {
        None => fault is Encoding,
        Some(read) => if envelope_fault(read) is Some {
            fault matches RowFault::Envelope(reason) && envelope_fault(read) == Some(reason@)
        } else if !valid_user_id(row.sender_id@) {
            fault is Sender
        } else {
            uuid_value(row.message_id@) is None && fault is Identifier
        },
    }
}

/// A row can be delivered, as this message.
pub open spec fn is_message_of(
    row: QueuedRow,
    envelope: Option<EncryptedEnvelope>,
    message: InboundMessage,
) -> bool {
    &&& envelope == Some(message.envelope)
    &&& envelope_fault(message.envelope) is None
    &&& valid_user_id(row.sender_id@)
    &&& uuid_value(row.message_id@) == Some(message.message_id@)
    &&& message.sender_id@ == row.sender_id@
    &&& message.timestamp == spec_datetime(row.created_at@)
}

/// A message out of the queue. `envelope` is its envelope, if that could be
/// read.
pub fn queued_row_to_inbound(row: &QueuedRow, envelope: Option<EncryptedEnvelope>) -> (out: Result<
    InboundMessage,
    RowFault,
>)
    ensures
        match out {
            Ok(message) => is_message_of(*row, envelope, message),
            Err(fault) => is_faulty(*row, envelope, fault),
        },
{
    let envelope = match envelope {
        Some(envelope) => envelope,
        None => return Err(RowFault::Encoding),
    };
    match validate_envelope(&envelope) {
        Ok(()) => {},
        Err(reason) => return Err(RowFault::Envelope(reason)),
    }
    let sender_id = match UserId::new(row.sender_id.as_str()) {
        Ok(sender_id) => sender_id,
        Err(_) => return Err(RowFault::Sender),
    };
    let message_id = match MessageId::parse(row.message_id.as_str()) {
        Some(message_id) => message_id,
        None => return Err(RowFault::Identifier),
    };
    Ok(
        InboundMessage {
            message_id,
            sender_id,
            envelope,
            timestamp: parse_sqlite_datetime(row.created_at.as_str()),
        },
    )
}

/// A receipt out of the queue, if it can be delivered. `envelope` is its
/// envelope, if that could be read.
pub fn queued_receipt_to_message(
    receipt: &QueuedReceipt,
    envelope: Option<EncryptedEnvelope>,
) -> (out: Option<ServerMessage>)
    ensures
        match out {
            Some(message) => envelope matches Some(read) && envelope_fault(read) is None
                && valid_user_id(receipt.sender_id@) && (message matches ServerMessage::IncomingReadReceipt {
                sender_id,
                receipt_id,
                envelope: sent,
            } && sender_id@ == receipt.sender_id@ && Some(receipt_id@) == uuid_value(
                receipt.receipt_id@,
            ) && sent == read),
            None => uuid_value(receipt.receipt_id@) is None || !valid_user_id(receipt.sender_id@)
                || !(envelope matches Some(read) && envelope_fault(read) is None),
        },
{
    let receipt_id = match MessageId::parse(receipt.receipt_id.as_str()) {
        Some(receipt_id) => receipt_id,
        None => return None,
    };
    let sender_id = match UserId::new(receipt.sender_id.as_str()) {
        Ok(sender_id) => sender_id,
        Err(_) => return None,
    };
    let envelope = match envelope {
        Some(envelope) => envelope,
        None => return None,
    };
    match validate_envelope(&envelope) {
        Ok(()) => Some(ServerMessage::IncomingReadReceipt { sender_id, receipt_id, envelope }),
        Err(_) => None,
    }
}

/// Those of a list of texts that are identifiers.
pub open spec fn identifiers(texts: Seq<String>) -> Seq<u128>
    decreases texts.len(),
{
    if texts.len() == 0 {
        Seq::empty()
    } else {
        let before = identifiers(texts.drop_last());
        match uuid_value(texts.last()@) {
            Some(value) => before.push(value),
            None => before,
        }
    }
}

/// Those of a list of texts that are identifiers.
pub fn readable_ids(texts: &Vec<String>) -> (out: Vec<MessageId>)
    ensures
        out@.len() == identifiers(texts@).len(),
        forall|i: int| 0 <= i < out@.len() ==> (#[trigger] out@[i])@ == identifiers(texts@)[i],
{
    let mut out: Vec<MessageId> = Vec::new();
    let mut i: usize = 0;
    while i < texts.len()
        invariant
            i <= texts@.len(),
            out@.len() == identifiers(texts@.take(i as int)).len(),
            forall|j: int|
                0 <= j < out@.len() ==> (#[trigger] out@[j])@ == identifiers(
                    texts@.take(i as int),
                )[j],
        decreases texts@.len() - i,
    {
        let ghost more = texts@.take(i + 1);
        assert(more.drop_last() =~= texts@.take(i as int));
        assert(more.last() == texts@[i as int]);
        match MessageId::parse(texts[i].as_str()) {
            Some(id) => out.push(id),
            None => {},
        }
        i += 1;
    }
    assert(texts@.take(i as int) =~= texts@);
    out
}

/// The identifiers of the messages from a sender, in order.
pub open spec fn ids_from(messages: Seq<InboundMessage>, sender: Seq<char>) -> Seq<MessageId>
    decreases messages.len(),
{
    if messages.len() == 0 {
        Seq::empty()
    } else {
        let before = ids_from(messages.drop_last(), sender);
        if messages.last().sender_id@ == sender {
            before.push(messages.last().message_id)
        } else {
            before
        }
    }
}

/// A message of the list is from this sender.
pub open spec fn is_sender(messages: Seq<InboundMessage>, sender: Seq<char>) -> bool {
    exists|i: int| 0 <= i < messages.len() && (#[trigger] messages[i]).sender_id@ == sender
}

/// The list of groups has one for this sender.
pub open spec fn has_group(groups: Seq<(String, Vec<MessageId>)>, sender: Seq<char>) -> bool {
    exists|g: int| 0 <= g < groups.len() && (#[trigger] groups[g]).0@ == sender
}

/// `groups` has each sender of the messages once, with the identifiers of the
/// messages from that sender.
pub open spec fn grouped(
    groups: Seq<(String, Vec<MessageId>)>,
    messages: Seq<InboundMessage>,
) -> bool {
    &&& forall|g: int|
        0 <= g < groups.len() ==> (#[trigger] groups[g]).1@ == ids_from(messages, groups[g].0@)
    &&& forall|g: int, h: int|
        0 <= g < h < groups.len() ==> (#[trigger] groups[g]).0@ != (#[trigger] groups[h]).0@
    &&& forall|sender: Seq<char>|
        #![trigger has_group(groups, sender)]
        #![trigger is_sender(messages, sender)]
        has_group(groups, sender) <==> is_sender(messages, sender)
}

fn find_group(groups: &Vec<(String, Vec<MessageId>)>, sender: &String) -> (out: Option<usize>)
    ensures
        match out {
            Some(g) => g < groups@.len() && groups@[g as int].0@ == sender@,
            None => !has_group(groups@, sender@),
        },
{
    let mut g: usize = 0;
    while g < groups.len()
        invariant
            g <= groups@.len(),
            forall|h: int| 0 <= h < g ==> (#[trigger] groups@[h]).0@ != sender@,
        decreases groups@.len() - g,
    {
        if groups[g].0 == *sender {
            return Some(g);
        }
        g += 1;
    }
    None
}

proof fn lemma_no_ids(messages: Seq<InboundMessage>, sender: Seq<char>)
    requires
        !is_sender(messages, sender),
    ensures
        ids_from(messages, sender) == Seq::<MessageId>::empty(),
    decreases messages.len(),
{
    if messages.len() > 0 {
        let rest = messages.drop_last();
        assert forall|i: int| 0 <= i < rest.len() implies (#[trigger] rest[i]).sender_id@
            != sender by {
            assert(messages[i] == rest[i]);
        }
        lemma_no_ids(rest, sender);
        assert(messages[messages.len() - 1].sender_id@ != sender);
    }
}

proof fn lemma_group_step(
    groups: Seq<(String, Vec<MessageId>)>,
    after: Seq<(String, Vec<MessageId>)>,
    messages: Seq<InboundMessage>,
    at: int,
)
    requires
        messages.len() > 0,
        grouped(groups, messages.drop_last()),
        0 <= at <= groups.len(),
        at < groups.len() ==> groups[at].0@ == messages.last().sender_id@ && after
            == groups.update(at, after[at]) && after[at].0@ == groups[at].0@ && after[at].1@
            == groups[at].1@.push(messages.last().message_id),
        at == groups.len() ==> !has_group(groups, messages.last().sender_id@) && after
            == groups.push(after[at]) && after[at].0@ == messages.last().sender_id@ && after[at].1@
            == seq![messages.last().message_id],
    ensures
        grouped(after, messages),
{
    let rest = messages.drop_last();
    let from = messages.last().sender_id@;
    assert forall|sender: Seq<char>| is_sender(messages, sender) <==> (is_sender(rest, sender)
        || sender == from) by {
        if is_sender(messages, sender) {
            let i = choose|i: int|
                0 <= i < messages.len() && (#[trigger] messages[i]).sender_id@ == sender;
            if i < rest.len() {
                assert(rest[i].sender_id@ == sender);
            }
        }
        if is_sender(rest, sender) {
            let i = choose|i: int| 0 <= i < rest.len() && (#[trigger] rest[i]).sender_id@ == sender;
            assert(messages[i].sender_id@ == sender);
        }
        if sender == from {
            assert(messages[messages.len() - 1].sender_id@ == sender);
        }
    }
    assert forall|sender: Seq<char>| has_group(after, sender) <==> (has_group(groups, sender)
        || sender == from) by {
        if has_group(after, sender) {
            let g = choose|g: int| 0 <= g < after.len() && (#[trigger] after[g]).0@ == sender;
            if g < groups.len() {
                assert(groups[g].0@ == sender);
            }
        }
        if has_group(groups, sender) {
            let g = choose|g: int| 0 <= g < groups.len() && (#[trigger] groups[g]).0@ == sender;
            assert(after[g].0@ == sender);
        }
        if sender == from {
            assert(after[at].0@ == sender);
        }
    }
    assert forall|g: int| 0 <= g < after.len() implies (#[trigger] after[g]).1@ == ids_from(
        messages,
        after[g].0@,
    ) by {
        if g == at {
            if at == groups.len() {
                lemma_no_ids(rest, from);
                assert(after[g].1@ =~= ids_from(messages, from));
            }
        } else {
            assert(after[g] == groups[g]);
            if groups[g].0@ == from {
                assert(has_group(groups, from));
            }
        }
    }
    assert forall|g: int, h: int| 0 <= g < h < after.len() implies (#[trigger] after[g]).0@ != (
    #[trigger] after[h]).0@ by {
        if h < groups.len() {
            assert(groups[g].0@ != groups[h].0@);
        } else {
            assert(groups[g].0@ != from) by {
                if groups[g].0@ == from {
                    assert(has_group(groups, from));
                }
            }
        }
    }
    assert forall|sender: Seq<char>|
        #![trigger has_group(after, sender)]
        #![trigger is_sender(messages, sender)]
        has_group(after, sender) <==> is_sender(messages, sender) by {
        assert(has_group(groups, sender) <==> is_sender(rest, sender));
    }
}

/// The identifiers of delivered messages by sender: each sender hears which of
/// its messages were delivered.
pub fn group_by_sender(messages: &Vec<InboundMessage>) -> (out: Vec<(String, Vec<MessageId>)>)
    ensures
        grouped(out@, messages@),
{
    let mut groups: Vec<(String, Vec<MessageId>)> = Vec::new();
    let mut i: usize = 0;
    assert(grouped(groups@, messages@.take(0)));
    while i < messages.len()
        invariant
            i <= messages@.len(),
            grouped(groups@, messages@.take(i as int)),
        decreases messages@.len() - i,
    {
        let ghost before = groups@;
        let ghost more = messages@.take(i + 1);
        assert(more.drop_last() =~= messages@.take(i as int));
        assert(more.last() == messages@[i as int]);
        let sender = messages[i].sender_id.as_str().to_owned();
        match find_group(&groups, &sender) {
            Some(g) => {
                let mut group = groups.remove(g);
                let ghost taken = groups@;
                group.1.push(messages[i].message_id);
                groups.insert(g, group);
                assert(groups@ =~= before.update(g as int, groups@[g as int]));
                proof {
                    lemma_group_step(before, groups@, more, g as int);
                }
            },
            None => {
                let mut ids: Vec<MessageId> = Vec::new();
                ids.push(messages[i].message_id);
                assert(ids@ =~= seq![messages@[i as int].message_id]);
                groups.push((sender, ids));
                proof {
                    lemma_group_step(before, groups@, more, before.len() as int);
                }
            },
        }
        i += 1;
    }
    assert(messages@.take(i as int) =~= messages@);
    groups
}

/// A notice tells a sender which messages were delivered.
pub open spec fn tells_delivered(notice: (String, ServerMessage), group: (String, Vec<MessageId>)) -> bool {
    notice.0 == group.0 && notice.1 == (ServerMessage::MessageDelivered { message_ids: group.1 })
}

/// What the senders of delivered messages are told, each once.
pub fn delivery_notices(messages: &Vec<InboundMessage>) -> (out: Vec<(String, ServerMessage)>)
    ensures
        exists|groups: Seq<(String, Vec<MessageId>)>| #[trigger]
            grouped(groups, messages@) && out@.len() == groups.len() && forall|i: int|
                0 <= i < out@.len() ==> tells_delivered(#[trigger] out@[i], groups[i]),
{
    let mut groups = group_by_sender(messages);
    let ghost all = groups@;
    let mut out: Vec<(String, ServerMessage)> = Vec::new();
    while groups.len() > 0
        invariant
            out@.len() + groups@.len() == all.len(),
            groups@ == all.skip(out@.len() as int),
            forall|i: int| 0 <= i < out@.len() ==> tells_delivered(#[trigger] out@[i], all[i]),
        decreases groups@.len(),
    {
        let ghost before = groups@;
        let (sender, message_ids) = groups.remove(0);
        assert(before[0] == all[out@.len() as int]);
        assert(before[0] == (sender, message_ids));
        out.push((sender, ServerMessage::MessageDelivered { message_ids }));
        assert(groups@ =~= all.skip(out@.len() as int));
    }
    assert(grouped(all, messages@));
    out
}

/// The sum of some sizes.
pub open spec fn sum(sizes: Seq<nat>) -> nat
    decreases sizes.len(),
{
    if sizes.len() == 0 {
        0
    } else {
        sum(sizes.drop_last()) + sizes.last()
    }
}

/// The encoded size of a page: that of an empty page, the messages, and a
/// comma between every two.
pub open spec fn page_size(empty: nat, sizes: Seq<nat>) -> nat {
    empty + sum(sizes) + (if sizes.len() > 0 {
        (sizes.len() - 1) as nat
    } else {
        0
    })
}

/// Another message of this size fits on a page.
pub open spec fn fits_page(empty: nat, sizes: Seq<nat>, size: nat) -> bool {
    &&& sizes.len() < MAX_QUEUED_MESSAGES_PER_PAGE
    &&& page_size(empty, sizes.push(size)) <= MAX_QUEUED_PAGE_BYTES
}

/// What becomes of a message on its way to a page.
pub enum PageStep {
    /// It fits on no page, and cannot be delivered.
    TooLarge,
    /// It is on the page.
    Added,
    /// The page is full and to be sent; the message is on the next one.
    Full(Vec<InboundMessage>),
}

/// What becomes of a row of the queue.
pub enum RowStep {
    /// It cannot be delivered, and leaves the queue.
    Remove(RowFault),
    /// The encoded size of the message is to be found out, for
    /// [`Pager::measured`].
    Measure(InboundMessage),
}

/// The messages that wait for a user, on their way to pages.
pub struct Pager {
    page: Vec<InboundMessage>,
    page_bytes: usize,
    empty_page_bytes: usize,
    visited: usize,
    cursor: i64,
    sizes: Ghost<Seq<nat>>,
}

impl Pager {
    /// The messages on the page.
    pub closed spec fn spec_page(&self) -> Seq<InboundMessage> {
        self.page@
    }

    /// The sizes of the messages on the page.
    pub closed spec fn spec_sizes(&self) -> Seq<nat> {
        self.sizes@
    }

    /// The size of an empty page.
    pub closed spec fn spec_empty(&self) -> nat {
        self.empty_page_bytes as nat
    }

    /// How many messages of the queue have been looked at.
    pub closed spec fn spec_visited(&self) -> nat {
        self.visited as nat
    }

    /// The last row of the queue that has been looked at.
    pub closed spec fn spec_cursor(&self) -> int {
        self.cursor as int
    }

    #[verifier::type_invariant]
    spec fn inv(self) -> bool {
        &&& self.page@.len() == self.sizes@.len()
        &&& self.page@.len() <= MAX_QUEUED_MESSAGES_PER_PAGE
        &&& self.page_bytes == page_size(self.empty_page_bytes as nat, self.sizes@)
        &&& self.page@.len() > 0 ==> self.page_bytes <= MAX_QUEUED_PAGE_BYTES
        &&& self.visited <= MAX_QUEUED_MESSAGES
    }

    /// Nothing looked at yet. `empty_page_bytes` is the size of an empty page.
    pub fn new(empty_page_bytes: usize) -> (out: Self)
        ensures
            out.spec_page().len() == 0,
            out.spec_sizes().len() == 0,
            out.spec_empty() == empty_page_bytes,
            out.spec_visited() == 0,
            out.spec_cursor() == 0,
    {
        Pager {
            page: Vec::new(),
            page_bytes: empty_page_bytes,
            empty_page_bytes,
            visited: 0,
            cursor: 0,
            sizes: Ghost(Seq::empty()),
        }
    }

    /// After which row the queue is to be looked at next, or nothing if enough
    /// messages have been looked at for one login.
    pub fn next_after(&self) -> (out: Option<i64>)
        ensures
            match out {
                Some(row_id) => self.spec_visited() < MAX_QUEUED_MESSAGES && row_id
                    == self.spec_cursor(),
                None => self.spec_visited() >= MAX_QUEUED_MESSAGES,
            },
    {
        if self.visited < MAX_QUEUED_MESSAGES {
            Some(self.cursor)
        } else {
            None
        }
    }

    /// Notes that a row of the queue has been looked at.
    pub fn visit(&mut self, row_id: i64)
        requires
            old(self).spec_visited() < MAX_QUEUED_MESSAGES,
        ensures
            final(self).spec_visited() == old(self).spec_visited() + 1,
            final(self).spec_cursor() == row_id,
            final(self).spec_page() == old(self).spec_page(),
            final(self).spec_sizes() == old(self).spec_sizes(),
            final(self).spec_empty() == old(self).spec_empty(),
    {
        proof {
            use_type_invariant(&*self);
        }
        self.cursor = row_id;
        self.visited = self.visited + 1;
    }

    /// Puts a message of a given encoded size on a page.
    pub fn offer(&mut self, message: InboundMessage, item_bytes: usize) -> (out: PageStep)
        ensures
            final(self).spec_empty() == old(self).spec_empty(),
            final(self).spec_visited() == old(self).spec_visited(),
            final(self).spec_cursor() == old(self).spec_cursor(),
            if old(self).spec_empty() + item_bytes > MAX_QUEUED_PAGE_BYTES {
                &&& out is TooLarge
                &&& final(self).spec_page() == old(self).spec_page()
                &&& final(self).spec_sizes() == old(self).spec_sizes()
            } else if fits_page(
                old(self).spec_empty(),
                old(self).spec_sizes(),
                item_bytes as nat,
            ) {
                &&& out is Added
                &&& final(self).spec_page() == old(self).spec_page().push(message)
                &&& final(self).spec_sizes() == old(self).spec_sizes().push(item_bytes as nat)
            } else {
                &&& out matches PageStep::Full(page) && page@ == old(self).spec_page() && 0
                    < page@.len() <= MAX_QUEUED_MESSAGES_PER_PAGE
                &&& old(self).spec_page().len() == old(self).spec_sizes().len()
                &&& page_size(old(self).spec_empty(), old(self).spec_sizes())
                    <= MAX_QUEUED_PAGE_BYTES
                &&& final(self).spec_page() == seq![message]
                &&& final(self).spec_sizes() == seq![item_bytes as nat]
            },
    {
        proof {
            use_type_invariant(&*self);
        }
        let ghost before = self.sizes@;
        let ghost added = before.push(item_bytes as nat);
        assert(added.drop_last() =~= before);
        if self.empty_page_bytes > MAX_QUEUED_PAGE_BYTES || item_bytes > MAX_QUEUED_PAGE_BYTES
            - self.empty_page_bytes {
            return PageStep::TooLarge;
        }
        let separator: usize = if self.page.len() == 0 {
            0
        } else {
            1
        };
        let page_full = self.page.len() >= MAX_QUEUED_MESSAGES_PER_PAGE || self.page_bytes
            + separator + item_bytes > MAX_QUEUED_PAGE_BYTES;
        let mut taken = Pager::new(self.empty_page_bytes);
        core::mem::swap(self, &mut taken);
        let mut page = taken.page;
        if page_full {
            let mut next: Vec<InboundMessage> = Vec::new();
            next.push(message);
            let ghost fresh = seq![item_bytes as nat];
            assert(fresh.drop_last() =~= Seq::<nat>::empty());
            assert(sum(fresh.drop_last()) == 0);
            assert(next@ =~= seq![message]);
            *self = Pager {
                page: next,
                page_bytes: taken.empty_page_bytes + item_bytes,
                empty_page_bytes: taken.empty_page_bytes,
                visited: taken.visited,
                cursor: taken.cursor,
                sizes: Ghost(fresh),
            };
            PageStep::Full(page)
        } else {
            page.push(message);
            *self = Pager {
                page,
                page_bytes: taken.page_bytes + separator + item_bytes,
                empty_page_bytes: taken.empty_page_bytes,
                visited: taken.visited,
                cursor: taken.cursor,
                sizes: Ghost(added),
            };
            PageStep::Added
        }
    }

    /// Looks at a row of the queue. `envelope` is its envelope, if that could
    /// be read.
    pub fn look_at(&mut self, row: &QueuedRow, envelope: Option<EncryptedEnvelope>) -> (out:
        RowStep)
        requires
            old(self).spec_visited() < MAX_QUEUED_MESSAGES,
        ensures
            final(self).spec_visited() == old(self).spec_visited() + 1,
            final(self).spec_cursor() == row.row_id,
            final(self).spec_page() == old(self).spec_page(),
            final(self).spec_sizes() == old(self).spec_sizes(),
            final(self).spec_empty() == old(self).spec_empty(),
            match out {
                RowStep::Measure(message) => is_message_of(*row, envelope, message),
                RowStep::Remove(fault) => is_faulty(*row, envelope, fault),
            },
    {
        self.visit(row.row_id);
        match queued_row_to_inbound(row, envelope) {
            Ok(message) => RowStep::Measure(message),
            Err(fault) => RowStep::Remove(fault),
        }
    }

    /// Goes on with a message of the queue. `item_bytes` is its encoded size:
    /// without one it fits on no page.
    pub fn measured(&mut self, message: InboundMessage, item_bytes: Option<usize>) -> (out: PageStep)
        ensures
            final(self).spec_empty() == old(self).spec_empty(),
            final(self).spec_visited() == old(self).spec_visited(),
            final(self).spec_cursor() == old(self).spec_cursor(),
            match item_bytes {
                Some(size) => pages(
                    old(self).paging(),
                    final(self).paging(),
                    old(self).spec_empty(),
                    (message, size as nat),
                    out,
                ),
                None => out is TooLarge && final(self).paging() == old(self).paging(),
            },
    {
        match item_bytes {
            Some(size) => self.offer(message, size),
            None => PageStep::TooLarge,
        }
    }

    /// What is on the page, with nothing sent.
    pub open spec fn paging(&self) -> Paging {
        Paging {
            sent: Seq::empty(),
            sent_sizes: Seq::empty(),
            page: self.spec_page(),
            sizes: self.spec_sizes(),
        }
    }

    /// The last page, if anything is on it.
    pub fn finish(self) -> (out: Option<Vec<InboundMessage>>)
        ensures
            match out {
                Some(page) => page@ == self.spec_page() && 0 < page@.len()
                    <= MAX_QUEUED_MESSAGES_PER_PAGE && page_size(
                    self.spec_empty(),
                    self.spec_sizes(),
                ) <= MAX_QUEUED_PAGE_BYTES,
                None => self.spec_page().len() == 0,
            },
    {
        proof {
            use_type_invariant(&self);
        }
        if self.page.len() > 0 {
            Some(self.page)
        } else {
            None
        }
    }
}

/// Messages on their way to pages: the pages that were sent, and the one that
/// is being filled, each with the sizes of its messages.
#[verifier::ext_equal]
pub struct Paging {
    pub sent: Seq<Seq<InboundMessage>>,
    pub sent_sizes: Seq<Seq<nat>>,
    pub page: Seq<InboundMessage>,
    pub sizes: Seq<nat>,
}

impl Paging {
    /// Nothing sent, and nothing on the page.
    pub open spec fn start() -> Paging {
        Paging {
            sent: Seq::empty(),
            sent_sizes: Seq::empty(),
            page: Seq::empty(),
            sizes: Seq::empty(),
        }
    }

    /// What offering a message of some size does, as [`Pager::offer`] does it.
    pub open spec fn offered(self, empty: nat, item: (InboundMessage, nat)) -> Paging {
        if empty + item.1 > MAX_QUEUED_PAGE_BYTES {
            self
        } else if fits_page(empty, self.sizes, item.1) {
            Paging {
                page: self.page.push(item.0),
                sizes: self.sizes.push(item.1),
                ..self
            }
        } else {
            Paging {
                sent: self.sent.push(self.page),
                sent_sizes: self.sent_sizes.push(self.sizes),
                page: seq![item.0],
                sizes: seq![item.1],
            }
        }
    }

    /// What offering messages one after the other does.
    pub open spec fn offered_all(self, empty: nat, items: Seq<(InboundMessage, nat)>) -> Paging
        decreases items.len(),
    {
        if items.len() == 0 {
            self
        } else {
            self.offered_all(empty, items.drop_last()).offered(empty, items.last())
        }
    }

    /// Everything that was sent or is on the page.
    pub open spec fn everything(self) -> Seq<InboundMessage> {
        joined(self.sent) + self.page
    }

    /// Every page is within the limits.
    pub open spec fn within_limits(self, empty: nat) -> bool {
        &&& self.page.len() == self.sizes.len()
        &&& self.page.len() <= MAX_QUEUED_MESSAGES_PER_PAGE
        &&& self.page.len() > 0 ==> page_size(empty, self.sizes) <= MAX_QUEUED_PAGE_BYTES
        &&& self.sent.len() == self.sent_sizes.len()
        &&& forall|i: int|
            0 <= i < self.sent.len() ==> {
                &&& 0 < (#[trigger] self.sent[i]).len() <= MAX_QUEUED_MESSAGES_PER_PAGE
                &&& self.sent[i].len() == self.sent_sizes[i].len()
                &&& page_size(empty, self.sent_sizes[i]) <= MAX_QUEUED_PAGE_BYTES
            }
    }
}

/// What offering a message does to a page, and what is to be sent.
pub open spec fn pages(
    before: Paging,
    after: Paging,
    empty: nat,
    item: (InboundMessage, nat),
    out: PageStep,
) -> bool {
    let next = before.offered(empty, item);
    &&& after.page == next.page
    &&& after.sizes == next.sizes
    &&& match out {
        PageStep::TooLarge => empty + item.1 > MAX_QUEUED_PAGE_BYTES,
        PageStep::Added => empty + item.1 <= MAX_QUEUED_PAGE_BYTES && next.sent == before.sent,
        PageStep::Full(page) => {
            &&& next.sent == before.sent.push(page@)
            &&& 0 < page@.len() <= MAX_QUEUED_MESSAGES_PER_PAGE
            &&& page@.len() == before.sizes.len()
            &&& page_size(empty, before.sizes) <= MAX_QUEUED_PAGE_BYTES
        },
    }
}

/// Pages one after the other.
pub open spec fn joined(pages: Seq<Seq<InboundMessage>>) -> Seq<InboundMessage>
    decreases pages.len(),
{
    if pages.len() == 0 {
        Seq::empty()
    } else {
        joined(pages.drop_last()) + pages.last()
    }
}

/// The messages that fit on a page.
pub open spec fn deliverable(empty: nat, items: Seq<(InboundMessage, nat)>) -> Seq<InboundMessage>
    decreases items.len(),
{
    if items.len() == 0 {
        Seq::empty()
    } else {
        let before = deliverable(empty, items.drop_last());
        if empty + items.last().1 > MAX_QUEUED_PAGE_BYTES {
            before
        } else {
            before.push(items.last().0)
        }
    }
}

/// Every message that fits on a page is delivered, once and in order, and every
/// page is within the limits.
pub proof fn law_pages_hold_everything(empty: nat, items: Seq<(InboundMessage, nat)>)
    ensures
        Paging::start().offered_all(empty, items).everything() == deliverable(empty, items),
        Paging::start().offered_all(empty, items).within_limits(empty),
    decreases items.len(),
{
    let start = Paging::start();
    if items.len() == 0 {
        assert(start.everything() =~= Seq::<InboundMessage>::empty());
    } else {
        let rest = items.drop_last();
        let item = items.last();
        law_pages_hold_everything(empty, rest);
        let before = start.offered_all(empty, rest);
        let after = start.offered_all(empty, items);
        if empty + item.1 > MAX_QUEUED_PAGE_BYTES {
        } else if fits_page(empty, before.sizes, item.1) {
            assert(after.everything() =~= before.everything().push(item.0));
        } else {
            assert(after.sent.drop_last() =~= before.sent);
            assert(after.everything() =~= before.everything().push(item.0));
            assert(after.sizes.drop_last() =~= Seq::<nat>::empty());
            assert(sum(after.sizes.drop_last()) == 0);
            if before.page.len() == 0 {
                let single = before.sizes.push(item.1);
                assert(single.drop_last() =~= before.sizes);
                assert(sum(before.sizes) == 0);
            }
        }
    }
}

} // verus!
