//! Messages that come in: how they are read, shown and acknowledged.

use super::app::App;
use super::chat::{ChatEntry, MessageDirection, StoredMessage};
use super::crypto_mgr::{Change, InboundDecrypt};
use super::error::CryptoError;
use super::steps::{AfterSave, AfterStore, AfterTrack, Batch, Clock, Step, Work};
use crate::encoding::decode_json_list;
use crate::protocol::types::InvalidUserId;
use crate::protocol::{
    ClientMessage, EncryptedEnvelope, InboundMessage, MessageHeader, MessageId, UserId,
};
use vstd::prelude::*;
use vstd::string::*;

verus! {

use crate::encoding::json_items;
use crate::protocol::types::{user_id_fault, valid_user_id};
use vstd::utf8::encode_utf8;

/// The text in place of a message that could not be read.
pub open spec fn undecryptable() -> Seq<char> {
    "[undecryptable message]"@
}

/// A history entry for a received message.
pub open spec fn is_received(entry: ChatEntry, sender: Seq<char>, text: Seq<char>) -> bool {
    entry matches ChatEntry::Received { sender: from, text: body } && from@ == sender && body@
        == text
}

/// The identity key that the sender of a message shows, if it shows one.
pub open spec fn shown_identity(message: InboundMessage) -> Option<String> {
    match message.envelope.header {
        MessageHeader::PreKey { sender_identity_key, .. } => Some(sender_identity_key),
        _ => None,
    }
}

/// The batch, with the message `id` to be acknowledged.
pub open spec fn acknowledging(after: Batch, before: Batch, id: MessageId) -> bool {
    &&& after == (Batch { acks: after.acks, ..before })
    &&& after.acks@ == before.acks@.push(id)
}

impl App {
    /// The state is `before`, but for a received message at the end of the
    /// open conversation, if that is with its sender.
    pub open spec fn shows_received(self, before: App, sender: Seq<char>, text: Seq<char>) -> bool {
        if before.is_active(sender) {
            &&& self == (App { chat_history: self.chat_history, ..before })
            &&& self.chat_history@.len() == before.chat_history@.len() + 1
            &&& self.chat_history@.drop_last() == before.chat_history@
            &&& is_received(self.chat_history@.last(), sender, text)
        } else {
            self == before
        }
    }

    fn show_received(&mut self, sender: &str, text: &str)
        ensures
            final(self).shows_received(*old(self), sender@, text@),
    {
        if self.is_active_peer(sender) {
            let ghost before = self.chat_history@;
            self.chat_history.push(
                ChatEntry::Received { sender: sender.to_owned(), text: text.to_owned() },
            );
            assert(self.chat_history@.drop_last() =~= before);
        }
    }

    /// A message has been decrypted: if it shows an identity key, that is
    /// compared with the stored one first. Then it goes into the history.
    pub open spec fn keeps(message: InboundMessage, text: Seq<char>, batch: Batch, out: Step) -> bool {
        &&& out.quiet()
        &&& match shown_identity(message) {
            Some(key) => out.work matches Work::Track { peer, identity_key, next } && peer@
                == message.sender_id@ && identity_key@ == key@ && (next matches
                AfterTrack::Inbound { message: of, text: body, batch: with } && of == message
                && body@ == text && with == batch),
            None => App::keeps_text(message, text, batch, out.work),
        }
    }

    /// A message goes into the history.
    pub open spec fn keeps_text(
        message: InboundMessage,
        text: Seq<char>,
        batch: Batch,
        work: Work,
    ) -> bool {
        work matches Work::Store { peer, direction, message_id, body, next } && peer@
            == message.sender_id@ && direction is Received && message_id == message.message_id
            && body@ == text && (next matches AfterStore::Inbound {
            message: of,
            text: shown,
            batch: with,
        } && of == message && shown@ == text && with == batch)
    }

    fn keep_text(message: InboundMessage, text: String, batch: Batch) -> (out: Work)
        ensures
            App::keeps_text(message, text@, batch, out),
    {
        Work::Store {
            peer: message.sender_id.as_str().to_owned(),
            direction: MessageDirection::Received,
            message_id: message.message_id,
            body: text.clone(),
            next: AfterStore::Inbound { message, text, batch },
        }
    }

    fn keep(message: InboundMessage, text: String, batch: Batch) -> (out: Step)
        ensures
            App::keeps(message, text@, batch, out),
    {
        let shown = match &message.envelope.header {
            MessageHeader::PreKey { sender_identity_key, .. } => Some(sender_identity_key.clone()),
            _ => None,
        };
        match shown {
            Some(identity_key) => Step::work(
                Work::Track {
                    peer: message.sender_id.as_str().to_owned(),
                    identity_key,
                    next: AfterTrack::Inbound { message, text, batch },
                },
            ),
            None => Step::work(App::keep_text(message, text, batch)),
        }
    }

    /// A message is read: what follows from what decrypting it gave.
    pub open spec fn reads_message(
        self,
        before: App,
        message: InboundMessage,
        rest: Batch,
        read: (InboundDecrypt, Option<Change>),
        out: Step,
    ) -> bool {
        let decrypted = App { crypto: self.crypto, ..before };
        match read.0 {
            InboundDecrypt::Pending(text) => {
                &&& self == decrypted
                &&& match read.1 {
                    Some(change) => out.quiet() && (out.work matches Work::Save {
                        change: made,
                        next,
                    } && made == change && (next matches AfterSave::Open {
                        message: of,
                        text: body,
                        batch,
                    } && of == message && body@ == text@ && batch == rest)),
                    None => App::keeps(message, text@, rest, out),
                }
            },
            InboundDecrypt::Duplicate => {
                &&& self == decrypted
                &&& out.quiet()
                &&& out.work matches Work::More(batch) && acknowledging(
                    batch,
                    rest,
                    message.message_id,
                )
            },
            InboundDecrypt::Failed => {
                &&& self.shows_received(decrypted, message.sender_id@, undecryptable())
                &&& out.quiet()
                &&& out.work matches Work::More(batch) && batch == rest
            },
        }
    }

    /// Reads the next message of a batch, or acknowledges those that were
    /// read.
    pub fn read_next(&mut self, batch: Batch, clock: Clock) -> (out: Step)
        ensures
            if batch.rest@.len() == 0 {
                final(self).acknowledges(*old(self), batch, out)
            } else {
                exists|rest: Batch, read: (InboundDecrypt, Option<Change>)|
                    {
                        &&& rest == (Batch { rest: rest.rest, ..batch })
                        &&& rest.rest@ == batch.rest@.skip(1)
                        &&& final(self).crypto.reads_once(
                            &old(self).crypto,
                            batch.rest@[0].sender_id@,
                            batch.rest@[0].message_id,
                            batch.rest@[0].envelope,
                            clock.unix_secs,
                            read,
                        )
                        &&& #[trigger] final(self).reads_message(
                            *old(self),
                            batch.rest@[0],
                            rest,
                            read,
                            out,
                        )
                    }
            },
    {
        if batch.rest.len() == 0 {
            return self.acknowledge(batch);
        }
        let ghost all = batch.rest@;
        let mut rest = batch;
        let message = rest.rest.remove(0);
        assert(rest.rest@ =~= all.skip(1));
        let ghost remaining = rest;
        let ghost subject = message;
        let ghost before = *self;
        let read = self.crypto.decrypt_message_to_text(
            message.sender_id.as_str(),
            &message.message_id,
            &message.envelope,
            clock.unix_secs,
        );
        let ghost outcome = read;
        let out = match read.0 {
            InboundDecrypt::Pending(text) => match read.1 {
                Some(change) => Step::save(change, AfterSave::Open { message, text, batch: rest }),
                None => App::keep(message, text, rest),
            },
            InboundDecrypt::Duplicate => {
                rest.acks.push(message.message_id);
                Step::work(Work::More(rest))
            },
            InboundDecrypt::Failed => {
                self.show_received(message.sender_id.as_str(), "[undecryptable message]");
                Step::work(Work::More(rest))
            },
        };
        assert(self.reads_message(before, subject, remaining, outcome, out));
        out
    }

    /// A decrypted message has been made durable, or could not be. In that
    /// case it counts as one that could not be read.
    pub open spec fn opens(
        self,
        before: App,
        message: InboundMessage,
        text: Seq<char>,
        batch: Batch,
        saved: bool,
        out: Step,
    ) -> bool {
        if saved {
            self == before && App::keeps(message, text, batch, out)
        } else {
            &&& self.shows_received(before, message.sender_id@, undecryptable())
            &&& out.quiet()
            &&& out.work matches Work::More(rest) && rest == batch
        }
    }

    pub(crate) fn open_message(
        &mut self,
        message: InboundMessage,
        text: String,
        batch: Batch,
        saved: bool,
    ) -> (out: Step)
        ensures
            final(self).opens(*old(self), message, text@, batch, saved, out),
    {
        if saved {
            App::keep(message, text, batch)
        } else {
            self.show_received(message.sender_id.as_str(), "[undecryptable message]");
            Step::work(Work::More(batch))
        }
    }

    /// The identity key that came with a message has been compared: the user
    /// is warned if it has changed, and the message goes into the history.
    pub open spec fn tracks_inbound(
        self,
        before: App,
        warning: Option<String>,
        message: InboundMessage,
        text: Seq<char>,
        batch: Batch,
        millis: u64,
        out: Step,
    ) -> bool {
        &&& self.warned(before, message.sender_id@, warning, millis)
        &&& out.quiet()
        &&& App::keeps_text(message, text, batch, out.work)
    }

    pub(crate) fn track_inbound(
        &mut self,
        warning: Option<String>,
        message: InboundMessage,
        text: String,
        batch: Batch,
        clock: Clock,
    ) -> (out: Step)
        ensures
            final(self).tracks_inbound(
                *old(self),
                warning,
                message,
                text@,
                batch,
                clock.millis,
                out,
            ),
    {
        self.track_peer_identity(message.sender_id.as_str(), warning, clock);
        Step::work(App::keep_text(message, text, batch))
    }

    /// A message has been put into the history, or could not be. If it is
    /// there, whether for the first time or not, the ledger need not keep its
    /// text.
    pub open spec fn stores_inbound(
        self,
        message: InboundMessage,
        text: Seq<char>,
        batch: Batch,
        stored: Option<bool>,
        out: Step,
    ) -> bool {
        &&& out.quiet()
        &&& match stored {
            Some(inserted) => out.work matches Work::Save { change, next } && self.crypto.is_stored(
                message.sender_id@,
                message.message_id,
                change,
            ) && (next matches AfterSave::Show {
                message: of,
                text: body,
                inserted: is_new,
                batch: with,
            } && of == message && body@ == text && is_new == inserted && with == batch),
            None => out.work matches Work::More(rest) && rest == batch,
        }
    }

    pub(crate) fn store_inbound(
        &self,
        message: InboundMessage,
        text: String,
        batch: Batch,
        stored: Option<bool>,
    ) -> (out: Step)
        ensures
            self.stores_inbound(message, text@, batch, stored, out),
    {
        match stored {
            Some(inserted) => {
                let change = self.crypto.confirm_inbound_stored(
                    message.sender_id.as_str(),
                    &message.message_id,
                );
                Step::save(change, AfterSave::Show { message, text, inserted, batch })
            },
            None => Step::work(Work::More(batch)),
        }
    }

    /// A message is in the history for good, or might not be. In that case it
    /// is not acknowledged, so that it comes again. A new message is shown if
    /// the open conversation is with its sender. One that waited on the server
    /// counts as unread.
    pub open spec fn shows_message(
        self,
        before: App,
        message: InboundMessage,
        text: Seq<char>,
        inserted: bool,
        batch: Batch,
        saved: bool,
        out: Step,
    ) -> bool {
        &&& out.quiet()
        &&& out.work matches Work::More(rest) && if !saved {
            self == before && rest == batch
        } else if !inserted {
            self == before && acknowledging(rest, batch, message.message_id)
        } else if batch.live {
            &&& self.shows_received(before, message.sender_id@, text)
            &&& acknowledging(
                rest,
                Batch { fresh: Some((message.sender_id, message.message_id)), ..batch },
                message.message_id,
            )
        } else {
            &&& acknowledging(rest, batch, message.message_id)
            &&& self.has_unread(
                App { chat_history: self.chat_history, ..before },
                message.sender_id@,
                message.message_id,
            )
            &&& App { unread_messages: before.unread_messages, ..self }.shows_received(
                before,
                message.sender_id@,
                text,
            )
        }
    }

    pub(crate) fn show_message(
        &mut self,
        message: InboundMessage,
        text: String,
        inserted: bool,
        batch: Batch,
        saved: bool,
    ) -> (out: Step)
        ensures
            final(self).shows_message(*old(self), message, text@, inserted, batch, saved, out),
    {
        let ghost before = *self;
        let mut rest = batch;
        if !saved {
            return Step::work(Work::More(rest));
        }
        rest.acks.push(message.message_id);
        if inserted {
            self.show_received(message.sender_id.as_str(), text.as_str());
            if rest.live {
                rest.fresh = Some((message.sender_id.clone(), message.message_id));
            } else {
                let ghost shown = *self;
                self.accumulate_unread(message.sender_id.as_str(), message.message_id);
                assert(App { unread_messages: before.unread_messages, ..*self } == shown);
            }
        }
        Step::work(Work::More(rest))
    }

    /// A batch has been read: what is to be acknowledged is, and then the
    /// messages are marked as read where they are being looked at.
    pub open spec fn acknowledges(self, before: App, batch: Batch, out: Step) -> bool {
        if batch.acks@.len() == 0 {
            self.marks_read(before, batch, out)
        } else {
            exists|request: Result<(ClientMessage, Change), CryptoError>|
                {
                    &&& #[trigger] before.crypto.acknowledges(batch.acks, request)
                    &&& match request {
                        Ok((ack, change)) => {
                            &&& self == before
                            &&& out.quiet()
                            &&& out.work matches Work::Save { change: made, next } && made
                                == change && (next matches AfterSave::Acknowledge {
                                request: sent,
                                batch: with,
                            } && sent == ack && with.rest == batch.rest && with.acks@.len() == 0
                                && with.live == batch.live && with.fresh == batch.fresh)
                        },
                        Err(_) => self.marks_read(before, batch, out),
                    }
                }
        }
    }

    fn acknowledge(&mut self, batch: Batch) -> (out: Step)
        ensures
            final(self).acknowledges(*old(self), batch, out),
    {
        let ghost whole = batch;
        let Batch { rest, acks, live, fresh } = batch;
        if acks.len() == 0 {
            return self.mark_read(Batch { rest, acks, live, fresh });
        }
        let request = self.crypto.queue_ack(acks);
        assert(old(self).crypto.acknowledges(whole.acks, request));
        match request {
            Ok((ack, change)) => Step::save(
                change,
                AfterSave::Acknowledge {
                    request: ack,
                    batch: Batch { rest, acks: Vec::new(), live, fresh },
                },
            ),
            Err(_) => self.mark_read(Batch { rest, acks: Vec::new(), live, fresh }),
        }
    }

    /// An acknowledgement is in the outbox for good, or could not be put
    /// there. It is sent if it is.
    pub open spec fn acknowledged(
        self,
        before: App,
        request: ClientMessage,
        batch: Batch,
        saved: bool,
        out: Step,
    ) -> bool {
        exists|rest: Step|
            {
                &&& #[trigger] self.marks_read(before, batch, rest)
                &&& out.send@ == (if saved {
                    seq![request] + rest.send@
                } else {
                    rest.send@
                })
                &&& out.work == rest.work
                &&& out.clear_draft == rest.clear_draft
            }
    }

    pub(crate) fn finish_acknowledging(
        &mut self,
        request: ClientMessage,
        batch: Batch,
        saved: bool,
    ) -> (out: Step)
        ensures
            final(self).acknowledged(*old(self), request, batch, saved, out),
    {
        let mut rest = self.mark_read(batch);
        let ghost step = rest;
        if saved {
            rest.send.insert(0, request);
            assert(rest.send@ =~= seq![request] + step.send@);
        }
        rest
    }

    /// After a live message: if no conversation is open, the one with its
    /// sender is opened, and then it is marked as read if it is being looked
    /// at. After messages that waited on the server: those in the open
    /// conversation are marked as read.
    pub open spec fn marks_read(self, before: App, batch: Batch, out: Step) -> bool {
        if batch.live {
            match batch.fresh {
                None => self == before && out.is_done(),
                Some((sender, message_id)) => if before.target_user is None {
                    &&& self == before
                    &&& out.quiet()
                    &&& out.work matches Work::Load { peer, fresh } && peer == sender && fresh
                        == Some((sender, message_id))
                } else {
                    self.reads_now(before, sender, message_id, out)
                },
            }
        } else {
            match before.target_user {
                None => self == before && out.is_done(),
                Some(target) => self.flushes(before, target, None, out),
            }
        }
    }

    fn mark_read(&mut self, batch: Batch) -> (out: Step)
        ensures
            final(self).marks_read(*old(self), batch, out),
    {
        if batch.live {
            match batch.fresh {
                None => Step::done(),
                Some((sender, message_id)) => if self.target_user.is_none() {
                    let peer = sender.clone();
                    Step::work(Work::Load { peer, fresh: Some((sender, message_id)) })
                } else {
                    self.read_now(sender, message_id)
                },
            }
        } else {
            match &self.target_user {
                None => Step::done(),
                Some(target) => {
                    let target = target.clone();
                    self.flush_read_receipts(target, None)
                },
            }
        }
    }

    /// A live message is marked as read if it is being looked at, and counts
    /// as unread otherwise.
    pub open spec fn reads_now(
        self,
        before: App,
        sender: UserId,
        message_id: MessageId,
        out: Step,
    ) -> bool {
        if before.is_active(sender@) && before.crypto.sessions@.contains_key(sender@) {
            exists|receipt: Result<(ClientMessage, Change), CryptoError>|
                {
                    &&& #[trigger] before.crypto.encrypts_receipt(
                        sender@,
                        sender,
                        seq![message_id],
                        receipt,
                    )
                    &&& match receipt {
                        Ok((sealed, change)) => {
                            &&& self == before
                            &&& out.quiet()
                            &&& out.work matches Work::Save { change: made, next } && made
                                == change && next == (AfterSave::Read {
                                sender,
                                message_id,
                                request: sealed,
                            })
                        },
                        Err(_) => self.has_unread(before, sender@, message_id) && out.is_done(),
                    }
                }
        } else {
            self.has_unread(before, sender@, message_id) && out.is_done()
        }
    }

    fn read_now(&mut self, sender: UserId, message_id: MessageId) -> (out: Step)
        ensures
            final(self).reads_now(*old(self), sender, message_id, out),
    {
        if self.is_active_peer(sender.as_str()) && self.crypto.has_session(sender.as_str()) {
            let mut ids: Vec<MessageId> = Vec::new();
            ids.push(message_id);
            assert(ids@ =~= seq![message_id]);
            let receipt = self.crypto.encrypt_read_receipt(sender.as_str(), &sender, &ids);
            assert(old(self).crypto.encrypts_receipt(sender@, sender, seq![message_id], receipt));
            match receipt {
                Ok((request, change)) => Step::save(
                    change,
                    AfterSave::Read { sender, message_id, request },
                ),
                Err(_) => {
                    self.accumulate_unread(sender.as_str(), message_id);
                    Step::done()
                },
            }
        } else {
            self.accumulate_unread(sender.as_str(), message_id);
            Step::done()
        }
    }

    /// A read receipt is in the outbox for good, and is sent. Or it could not
    /// be put there, and the message counts as unread.
    pub open spec fn has_read(
        self,
        before: App,
        sender: UserId,
        message_id: MessageId,
        request: ClientMessage,
        saved: bool,
        out: Step,
    ) -> bool {
        if saved {
            self == before && out.only_sends(request)
        } else {
            self.has_unread(before, sender@, message_id) && out.is_done()
        }
    }

    pub(crate) fn finish_reading(
        &mut self,
        sender: UserId,
        message_id: MessageId,
        request: ClientMessage,
        saved: bool,
    ) -> (out: Step)
        ensures
            final(self).has_read(*old(self), sender, message_id, request, saved, out),
    {
        if saved {
            Step::only_send(request)
        } else {
            self.accumulate_unread(sender.as_str(), message_id);
            Step::done()
        }
    }

    /// What follows when receipts have been dealt with: a live message that
    /// caused them is marked as read.
    pub open spec fn goes_on(
        self,
        before: App,
        fresh: Option<(UserId, MessageId)>,
        out: Step,
    ) -> bool {
        match fresh {
            None => self == before && out.is_done(),
            Some((sender, message_id)) => self.reads_now(before, sender, message_id, out),
        }
    }

    fn go_on(&mut self, fresh: Option<(UserId, MessageId)>) -> (out: Step)
        ensures
            final(self).goes_on(*old(self), fresh, out),
    {
        match fresh {
            None => Step::done(),
            Some((sender, message_id)) => self.read_now(sender, message_id),
        }
    }

    /// The unread messages of a peer are marked as read, if there are any and
    /// there is a session with the peer.
    pub open spec fn flushes(
        self,
        before: App,
        target: UserId,
        fresh: Option<(UserId, MessageId)>,
        out: Step,
    ) -> bool {
        if before.unread_of(target@).len() > 0 && before.crypto.sessions@.contains_key(target@) {
            exists|receipt: Result<(ClientMessage, Change), CryptoError>|
                {
                    &&& #[trigger] before.crypto.encrypts_receipt(
                        target@,
                        target,
                        before.unread_of(target@),
                        receipt,
                    )
                    &&& match receipt {
                        Ok((sealed, change)) => {
                            &&& self == before
                            &&& out.quiet()
                            &&& out.work matches Work::Save { change: made, next } && made
                                == change && next == (AfterSave::Flush {
                                target,
                                request: sealed,
                                fresh,
                            })
                        },
                        Err(_) => self.goes_on(before, fresh, out),
                    }
                }
        } else {
            self.goes_on(before, fresh, out)
        }
    }

    fn flush_read_receipts(&mut self, target: UserId, fresh: Option<(UserId, MessageId)>) -> (out:
        Step)
        ensures
            final(self).flushes(*old(self), target, fresh, out),
    {
        let receipt = match self.unread_messages.get(&target.as_str().to_owned()) {
            Some(unread) => if unread.len() > 0 && self.crypto.has_session(target.as_str()) {
                let receipt = self.crypto.encrypt_read_receipt(target.as_str(), &target, unread);
                assert(old(self).crypto.encrypts_receipt(
                    target@,
                    target,
                    old(self).unread_of(target@),
                    receipt,
                ));
                match receipt {
                    Ok(sealed) => Some(sealed),
                    Err(_) => None,
                }
            } else {
                None
            },
            None => None,
        };
        match receipt {
            Some((request, change)) => Step::save(
                change,
                AfterSave::Flush { target, request, fresh },
            ),
            None => self.go_on(fresh),
        }
    }

    /// A read receipt for the unread messages of a peer is in the outbox for
    /// good: it is sent, and nothing of the peer is unread any longer. Or it
    /// could not be put there.
    pub open spec fn flushed(
        self,
        before: App,
        target: UserId,
        request: ClientMessage,
        fresh: Option<(UserId, MessageId)>,
        saved: bool,
        out: Step,
    ) -> bool {
        if saved {
            exists|read: App, rest: Step|
                {
                    &&& read == (App { unread_messages: read.unread_messages, ..before })
                    &&& read.unread_messages@ == before.unread_messages@.remove(target@)
                    &&& #[trigger] self.goes_on(read, fresh, rest)
                    &&& out.send@ == seq![request] + rest.send@
                    &&& out.work == rest.work
                    &&& out.clear_draft == rest.clear_draft
                }
        } else {
            self.goes_on(before, fresh, out)
        }
    }

    pub(crate) fn finish_flushing(
        &mut self,
        target: UserId,
        request: ClientMessage,
        fresh: Option<(UserId, MessageId)>,
        saved: bool,
    ) -> (out: Step)
        ensures
            final(self).flushed(*old(self), target, request, fresh, saved, out),
    {
        if !saved {
            return self.go_on(fresh);
        }
        let _read = self.unread_messages.remove(&target.as_str().to_owned());
        let ghost read = *self;
        let mut rest = self.go_on(fresh);
        let ghost step = rest;
        rest.send.insert(0, request);
        assert(rest.send@ =~= seq![request] + step.send@);
        rest
    }

    /// Opens the conversation with a peer: its stored messages are looked up.
    pub fn open_conversation(&self, target: &str) -> (out: Result<Step, InvalidUserId>)
        ensures
            out is Ok <==> valid_user_id(target@),
            out matches Ok(step) ==> step.quiet() && (step.work matches Work::Load { peer, fresh }
                && peer@ == target@ && fresh is None),
            out matches Err(fault) ==> user_id_fault(target@) == Some(fault.0@),
    {
        match UserId::new(target) {
            Ok(peer) => Ok(Step::work(Work::Load { peer, fresh: None })),
            Err(fault) => Err(fault),
        }
    }

    /// The stored messages of a peer have been looked up: the conversation is
    /// opened. A notice says how it stands. If there is no session yet, the
    /// keys of the peer are asked for.
    pub open spec fn opened(
        self,
        before: App,
        peer: UserId,
        newest_first: Seq<StoredMessage>,
        fresh: Option<(UserId, MessageId)>,
        millis: u64,
        out: Step,
    ) -> bool {
        exists|switched: App, told: App|
            {
                &&& switched.switched(before, peer, newest_first)
                &&& if peer@ == before.user_id@ {
                    &&& #[trigger] told.told(switched, "note to self"@, millis)
                    &&& self.goes_on(told, fresh, out)
                } else if before.crypto.sessions@.contains_key(peer@) {
                    &&& told.told(switched, "E2EE active with "@ + peer@, millis)
                    &&& self.flushes(told, peer, fresh, out)
                } else {
                    &&& told.waits_for_keys(switched, peer@, millis)
                    &&& exists|rest: Step|
                        {
                            &&& #[trigger] self.goes_on(told, fresh, rest)
                            &&& out.send@ == (if before.authenticated {
                                seq![ClientMessage::FetchPreKeyBundle { target_user_id: peer }]
                                    + rest.send@
                            } else {
                                rest.send@
                            })
                            &&& out.work == rest.work
                            &&& out.clear_draft == rest.clear_draft
                        }
                }
            }
    }

    /// The state is `before`, but that the keys of a peer are waited for.
    pub open spec fn waits_for_keys(self, before: App, peer: Seq<char>, millis: u64) -> bool {
        &&& self.told(
            App { crypto: self.crypto, ..before },
            if before.authenticated {
                "fetching keys for "@ + peer + "..."@
            } else {
                "waiting for server connection..."@
            },
            millis,
        )
        &&& self.crypto.same_state_but_pending(&before.crypto)
        &&& self.crypto.pending_inits@ == before.crypto.pending_inits@.insert(peer, ())
    }

    /// The stored messages of a peer have been looked up.
    pub fn loaded(
        &mut self,
        peer: UserId,
        newest_first: Vec<StoredMessage>,
        fresh: Option<(UserId, MessageId)>,
        clock: Clock,
    ) -> (out: Step)
        ensures
            final(self).opened(*old(self), peer, newest_first@, fresh, clock.millis, out),
    {
        self.switch_to(&peer, newest_first);
        let ghost switched = *self;
        if peer.same(&self.user_id) {
            self.status("note to self", clock);
            assert(self.told(switched, "note to self"@, clock.millis));
            return self.go_on(fresh);
        }
        if self.crypto.has_session(peer.as_str()) {
            let mut text = "E2EE active with ".to_owned();
            text.append(peer.as_str());
            self.status(text.as_str(), clock);
            assert(self.told(switched, "E2EE active with "@ + peer@, clock.millis));
            let ghost told = *self;
            let out = self.flush_read_receipts(peer, fresh);
            assert(self.flushes(told, peer, fresh, out));
            let ghost other = told.told(switched, "note to self"@, clock.millis);
            return out;
        }
        self.crypto.add_pending(peer.as_str());
        if self.authenticated {
            let mut text = "fetching keys for ".to_owned();
            text.append(peer.as_str());
            text.append("...");
            self.status(text.as_str(), clock);
        } else {
            self.status("waiting for server connection...", clock);
        }
        let ghost told = *self;
        assert(told.waits_for_keys(switched, peer@, clock.millis));
        let ghost other = told.told(switched, "note to self"@, clock.millis);
        let fetches = self.authenticated;
        let mut rest = self.go_on(fresh);
        let ghost step = rest;
        assert(self.goes_on(told, fresh, step));
        if fetches {
            rest.send.insert(0, ClientMessage::FetchPreKeyBundle { target_user_id: peer });
            assert(rest.send@ =~= seq![ClientMessage::FetchPreKeyBundle { target_user_id: peer }]
                + step.send@);
        }
        rest
    }

    /// A read receipt has come in.
    pub open spec fn receives_receipt(
        self,
        before: App,
        sender: UserId,
        receipt_id: MessageId,
        read: (InboundDecrypt, Option<Change>),
        millis: u64,
        out: Step,
    ) -> bool {
        let decrypted = App { crypto: self.crypto, ..before };
        match read.0 {
            InboundDecrypt::Pending(text) => match read.1 {
                Some(change) => {
                    &&& self == decrypted
                    &&& out.quiet()
                    &&& out.work matches Work::Save { change: made, next } && made == change && (
                    next matches AfterSave::OpenReceipt { sender: from, receipt_id: id, text: body }
                        && from == sender && id == receipt_id && body@ == text@)
                },
                None => self.opens_receipt(decrypted, sender, receipt_id, text@, millis, out),
            },
            InboundDecrypt::Duplicate => self == decrypted && decrypted.acknowledges_receipt(
                receipt_id,
                out,
            ),
            InboundDecrypt::Failed => self == decrypted && out.is_done(),
        }
    }

    pub(crate) fn receive_receipt(
        &mut self,
        sender: UserId,
        receipt_id: MessageId,
        envelope: &EncryptedEnvelope,
        clock: Clock,
    ) -> (out: Step)
        ensures
            exists|read: (InboundDecrypt, Option<Change>), crypto: super::crypto_mgr::CryptoManager|
                {
                    &&& #[trigger] crypto.reads_once(
                        &old(self).crypto,
                        sender@,
                        receipt_id,
                        *envelope,
                        clock.unix_secs,
                        read,
                    )
                    &&& crypto == final(self).crypto
                    &&& final(self).receives_receipt(
                        *old(self),
                        sender,
                        receipt_id,
                        read,
                        clock.millis,
                        out,
                    )
                },
    {
        let ghost before = *self;
        let read = self.crypto.decrypt_message_to_text(
            sender.as_str(),
            &receipt_id,
            envelope,
            clock.unix_secs,
        );
        let ghost outcome = read;
        let ghost crypto = self.crypto;
        assert(crypto.reads_once(
            &before.crypto,
            sender@,
            receipt_id,
            *envelope,
            clock.unix_secs,
            outcome,
        ));
        match read.0 {
            InboundDecrypt::Pending(text) => match read.1 {
                Some(change) => Step::save(
                    change,
                    AfterSave::OpenReceipt { sender, receipt_id, text },
                ),
                None => self.open_receipt(sender, receipt_id, text, clock),
            },
            InboundDecrypt::Duplicate => self.acknowledge_receipt(receipt_id),
            InboundDecrypt::Failed => Step::done(),
        }
    }

    /// A decrypted read receipt is shown if it lists messages.
    pub open spec fn opens_receipt(
        self,
        before: App,
        sender: UserId,
        receipt_id: MessageId,
        text: Seq<char>,
        millis: u64,
        out: Step,
    ) -> bool {
        if json_items(encode_utf8(text)) is Some {
            &&& self.told(before, "  \u{2713}\u{2713}"@, millis)
            &&& out.quiet()
            &&& out.work matches Work::Save { change, next } && before.crypto.is_stored(
                sender@,
                receipt_id,
                change,
            ) && next == (AfterSave::ShowReceipt { receipt_id })
        } else {
            self == before && out.is_done()
        }
    }

    pub(crate) fn open_receipt(
        &mut self,
        sender: UserId,
        receipt_id: MessageId,
        text: String,
        clock: Clock,
    ) -> (out: Step)
        ensures
            final(self).opens_receipt(*old(self), sender, receipt_id, text@, clock.millis, out),
    {
        if decode_json_list(text.as_str().as_bytes()).is_none() {
            return Step::done();
        }
        self.status("  \u{2713}\u{2713}", clock);
        let change = self.crypto.confirm_inbound_stored(sender.as_str(), &receipt_id);
        Step::save(change, AfterSave::ShowReceipt { receipt_id })
    }

    /// A read receipt is acknowledged, if the outbox has room.
    pub open spec fn acknowledges_receipt(self, receipt_id: MessageId, out: Step) -> bool {
        exists|request: Result<(ClientMessage, Change), CryptoError>|
            {
                &&& #[trigger] self.crypto.acknowledges_receipts(seq![receipt_id], request)
                &&& match request {
                    Ok((ack, change)) => {
                        &&& out.quiet()
                        &&& out.work == (Work::Save { change, next: AfterSave::Send(ack) })
                    },
                    Err(_) => out.is_done(),
                }
            }
    }

    pub(crate) fn acknowledge_receipt(&self, receipt_id: MessageId) -> (out: Step)
        ensures
            self.acknowledges_receipt(receipt_id, out),
    {
        let mut ids: Vec<MessageId> = Vec::new();
        ids.push(receipt_id);
        assert(ids@ =~= seq![receipt_id]);
        let request = self.crypto.queue_read_receipt_ack(ids);
        assert(self.crypto.acknowledges_receipts(seq![receipt_id], request));
        match request {
            Ok((ack, change)) => Step::save(change, AfterSave::Send(ack)),
            Err(_) => Step::done(),
        }
    }
}

} // verus!
