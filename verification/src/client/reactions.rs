//! How the client reacts: to the server, to the connection, and to what became
//! of its work outside.

use super::app::App;
use super::crypto_mgr::{Change, InboundDecrypt, OutboxChange};
use super::error::CryptoError;
use super::status_bar::{ConnectionStatus, StatusBar};
use super::steps::{AfterSave, AfterStore, AfterTrack, Batch, Clock, Step, Work};
use crate::protocol::{
    ClientMessage, InboundMessage, MessageId, PreKeyBundle, ServerMessage, UserId,
};
use crate::text::push_decimal;
use vstd::prelude::*;
use vstd::string::*;

verus! {

use super::outbound::Awaited;
use super::sessions::{in_byte_order, lists};
use crate::encoding::texts;
use crate::protocol::types::valid_user_id;
use crate::text::decimal;

/// What happens to the client from outside.
pub enum AppEvent {
    Connecting,
    Connected,
    Authenticated,
    AuthFailed(String),
    Disconnected,
    Server(ServerMessage),
}

/// A text about one-time pre-keys.
pub open spec fn upload_text(accepted: bool, remaining: u32) -> Seq<char> {
    (if accepted {
        "one-time pre-keys replenished"@
    } else {
        "pre-key upload rejected"@
    }) + " ("@ + decimal(remaining as nat) + " available)"@
}

/// A text about one-time pre-keys.
pub fn prekey_upload_status(accepted: bool, remaining: u32) -> (out: String)
    ensures
        out@ == upload_text(accepted, remaining),
{
    let mut out = if accepted {
        "one-time pre-keys replenished".to_owned()
    } else {
        "pre-key upload rejected".to_owned()
    };
    out.append(" (");
    push_decimal(&mut out, remaining as u64);
    out.append(" available)");
    out
}

/// A text about a new signed pre-key.
pub open spec fn rotation_text(accepted: bool, replaced: bool) -> Seq<char> {
    if replaced {
        "signed pre-key rotation reconciled; retrying"@
    } else if accepted {
        "signed pre-key rotated"@
    } else {
        "signed pre-key rotation rejected"@
    }
}

/// Identifiers without those in another list.
pub open spec fn without(ids: Seq<MessageId>, gone: Seq<MessageId>) -> Seq<MessageId> {
    ids.filter(|id: MessageId| !gone.contains(id))
}

fn contains_id(ids: &Vec<MessageId>, id: &MessageId) -> (out: bool)
    ensures
        out == ids@.contains(*id),
{
    let mut i: usize = 0;
    while i < ids.len()
        invariant
            i <= ids@.len(),
            forall|j: int| 0 <= j < i ==> #[trigger] ids@[j] != *id,
        decreases ids@.len() - i,
    {
        if ids[i].same(id) {
            assert(ids@[i as int] == *id);
            return true;
        }
        i += 1;
    }
    false
}

fn remove_ids(ids: &Vec<MessageId>, gone: &Vec<MessageId>) -> (out: Vec<MessageId>)
    ensures
        out@ == without(ids@, gone@),
{
    let ghost stays = |id: MessageId| !gone@.contains(id);
    let mut out: Vec<MessageId> = Vec::new();
    let mut i: usize = 0;
    assert(out@ =~= ids@.take(0).filter(stays)) by {
        reveal(Seq::filter);
    }
    while i < ids.len()
        invariant
            i <= ids@.len(),
            stays == (|id: MessageId| !gone@.contains(id)),
            out@ == ids@.take(i as int).filter(stays),
        decreases ids@.len() - i,
    {
        let ghost more = ids@.take(i + 1);
        let id = ids[i];
        assert(more.drop_last() =~= ids@.take(i as int));
        assert(more.filter(stays) == if stays(id) {
            ids@.take(i as int).filter(stays).push(id)
        } else {
            ids@.take(i as int).filter(stays)
        }) by {
            reveal(Seq::filter);
            assert(more.last() == id);
        }
        if !contains_id(gone, &id) {
            out.push(id);
        }
        i += 1;
    }
    assert(ids@.take(i as int) =~= ids@);
    out
}

/// Whether two lists have an identifier in common.
pub open spec fn overlap(a: Seq<MessageId>, b: Seq<MessageId>) -> bool {
    exists|i: int| 0 <= i < a.len() && b.contains(#[trigger] a[i])
}

/// The message asks for the keys of a user.
pub open spec fn is_fetch(message: ClientMessage, name: Seq<char>) -> bool {
    message matches ClientMessage::FetchPreKeyBundle { target_user_id } && target_user_id@ == name
}

fn fetch_requests(peers: &Vec<String>) -> (out: Vec<ClientMessage>)
    ensures
        out@.len() == App::addressable(peers@).len(),
        forall|i: int|
            0 <= i < out@.len() ==> is_fetch(#[trigger] out@[i], App::addressable(peers@)[i]),
{
    let ghost valid = |name: Seq<char>| valid_user_id(name);
    let ghost views = texts(peers@);
    let ghost mut names = views.take(0).filter(valid);
    let mut out: Vec<ClientMessage> = Vec::new();
    let mut i: usize = 0;
    assert(names.len() == 0) by {
        reveal(Seq::filter);
    }
    while i < peers.len()
        invariant
            i <= peers@.len(),
            views == texts(peers@),
            valid == (|name: Seq<char>| valid_user_id(name)),
            names == views.take(i as int).filter(valid),
            out@.len() == names.len(),
            forall|j: int| 0 <= j < out@.len() ==> is_fetch(#[trigger] out@[j], names[j]),
        decreases peers@.len() - i,
    {
        let ghost more = views.take(i + 1);
        let ghost name = peers@[i as int]@;
        assert(more.drop_last() =~= views.take(i as int));
        assert(more.filter(valid) == if valid(name) {
            names.push(name)
        } else {
            names
        }) by {
            reveal(Seq::filter);
            assert(more.last() == name);
        }
        match UserId::new(peers[i].as_str()) {
            Ok(target_user_id) => {
                out.push(ClientMessage::FetchPreKeyBundle { target_user_id });
            },
            Err(_) => {},
        }
        proof {
            names = more.filter(valid);
        }
        i += 1;
    }
    assert(views.take(i as int) =~= views);
    out
}

impl App {
    /// A pre-key bundle has come: if it was asked for, a session starts.
    pub open spec fn starts_session(
        self,
        before: App,
        user: UserId,
        bundle: PreKeyBundle,
        clock: Clock,
        out: Step,
    ) -> bool {
        if before.crypto.pending_inits@.contains_key(user@) {
            exists|started: Result<Change, CryptoError>|
                {
                    &&& #[trigger] before.crypto.initiates(user@, bundle, clock.unix_secs, started)
                    &&& match started {
                        Ok(change) => {
                            &&& self == before
                            &&& out.quiet()
                            &&& out.work == (Work::Save {
                                change,
                                next: AfterSave::StartSession {
                                    peer: user,
                                    identity_key: bundle.identity_key,
                                },
                            })
                        },
                        Err(error) => out.is_done() && self.told(
                            before,
                            "session init failed: "@ + error.text(),
                            clock.millis,
                        ),
                    }
                }
        } else {
            self == before && out.is_done()
        }
    }

    fn start_session(&mut self, user: UserId, bundle: PreKeyBundle, clock: Clock) -> (out: Step)
        ensures
            final(self).starts_session(*old(self), user, bundle, clock, out),
    {
        if !self.crypto.is_pending(user.as_str()) {
            return Step::done();
        }
        let started = self.crypto.init_session_from_bundle(
            user.as_str(),
            &bundle,
            clock.unix_secs,
        );
        assert(old(self).crypto.initiates(user@, bundle, clock.unix_secs, started));
        match started {
            Ok(change) => Step::save(
                change,
                AfterSave::StartSession { peer: user, identity_key: bundle.identity_key },
            ),
            Err(error) => {
                self.tell_error("session init failed: ", &error, clock);
                Step::done()
            },
        }
    }

    /// A session is there for good: the keys of the peer are not waited for
    /// any longer, and its identity key is compared with the stored one. Or
    /// there is none.
    pub open spec fn session_saved(
        self,
        before: App,
        peer: UserId,
        identity_key: String,
        outcome: Result<(), CryptoError>,
        millis: u64,
        out: Step,
    ) -> bool {
        match outcome {
            Ok(_) => {
                &&& self == (App { crypto: self.crypto, ..before })
                &&& self.crypto.same_state_but_pending(&before.crypto)
                &&& self.crypto.pending_inits@ == before.crypto.pending_inits@.remove(peer@)
                &&& out.quiet()
                &&& out.work matches Work::Track { peer: of, identity_key: key, next } && of@
                    == peer@ && key == identity_key && next == (AfterTrack::Session { peer })
            },
            Err(error) => out.is_done() && self.told(
                before,
                "session init failed: "@ + error.text(),
                millis,
            ),
        }
    }

    fn save_session(
        &mut self,
        peer: UserId,
        identity_key: String,
        outcome: Result<(), CryptoError>,
        clock: Clock,
    ) -> (out: Step)
        ensures
            final(self).session_saved(
                *old(self),
                peer,
                identity_key,
                outcome,
                clock.millis,
                out,
            ),
    {
        match outcome {
            Ok(_) => {
                self.crypto.remove_pending(peer.as_str());
                Step::work(
                    Work::Track {
                        peer: peer.as_str().to_owned(),
                        identity_key,
                        next: AfterTrack::Session { peer },
                    },
                )
            },
            Err(error) => {
                self.tell_error("session init failed: ", &error, clock);
                Step::done()
            },
        }
    }

    /// Somebody is typing, which is shown if the open conversation is with
    /// them.
    pub open spec fn shows_typing(self, before: App, sender: UserId, millis: u64) -> bool {
        if before.is_active(sender@) {
            &&& self == (App { status_bar: self.status_bar, ..before })
            &&& self.status_bar.connection == before.status_bar.connection
            &&& self.status_bar.typing matches Some((who, since)) && who@ == sender@ && since
                == millis
        } else {
            self == before
        }
    }

    fn show_typing(&mut self, sender: UserId, clock: Clock)
        ensures
            final(self).shows_typing(*old(self), sender, clock.millis),
    {
        if self.is_active_peer(sender.as_str()) {
            self.status_bar.set_typing(sender.as_str().to_owned(), clock.millis);
        }
    }

    /// Messages were delivered. A mark is shown if one of them is waited for.
    pub open spec fn delivers(self, before: App, ids: Seq<MessageId>, millis: u64) -> bool {
        if overlap(ids, before.pending_msg_ids@) {
            &&& self.told(
                App { pending_msg_ids: self.pending_msg_ids, ..before },
                "  \u{2713}"@,
                millis,
            )
            &&& self.pending_msg_ids@ == without(before.pending_msg_ids@, ids)
        } else {
            self == before
        }
    }

    fn deliver(&mut self, ids: &Vec<MessageId>, clock: Clock)
        ensures
            final(self).delivers(*old(self), ids@, clock.millis),
    {
        let mut known = false;
        let mut i: usize = 0;
        while i < ids.len() && !known
            invariant
                i <= ids@.len(),
                known ==> overlap(ids@, self.pending_msg_ids@),
                !known ==> forall|j: int|
                    0 <= j < i ==> !self.pending_msg_ids@.contains(#[trigger] ids@[j]),
            decreases ids@.len() - i,
        {
            if contains_id(&self.pending_msg_ids, &ids[i]) {
                assert(self.pending_msg_ids@.contains(ids@[i as int]));
                known = true;
            }
            i += 1;
        }
        if known {
            self.pending_msg_ids = remove_ids(&self.pending_msg_ids, ids);
            self.status("  \u{2713}", clock);
        }
    }

    /// The server has refused a message. If it waits for its answer, it leaves
    /// the outbox together with the session with its recipient.
    pub open spec fn refused(
        self,
        before: App,
        message_id: MessageId,
        reason: String,
        millis: u64,
        out: Step,
    ) -> bool {
        exists|gone: Option<(UserId, Change)>|
            {
                &&& #[trigger] before.crypto.is_rejected(message_id, gone)
                &&& match gone {
                    Some((recipient, change)) => {
                        &&& self == before
                        &&& out.quiet()
                        &&& out.work == (Work::Save {
                            change,
                            next: AfterSave::Reject { recipient, message_id, reason },
                        })
                    },
                    None => out.is_done() && self.shows_refusal(before, message_id, reason@, millis),
                }
            }
    }

    /// A refused message is not waited for any longer, and a notice says why.
    pub open spec fn shows_refusal(
        self,
        before: App,
        message_id: MessageId,
        reason: Seq<char>,
        millis: u64,
    ) -> bool {
        &&& self.told(
            App { pending_msg_ids: self.pending_msg_ids, ..before },
            "message rejected; refreshing session: "@ + reason,
            millis,
        )
        &&& self.pending_msg_ids@ == without(before.pending_msg_ids@, seq![message_id])
    }

    fn show_refusal(&mut self, message_id: MessageId, reason: &str, clock: Clock)
        ensures
            final(self).shows_refusal(*old(self), message_id, reason@, clock.millis),
    {
        let mut gone: Vec<MessageId> = Vec::new();
        gone.push(message_id);
        assert(gone@ =~= seq![message_id]);
        self.pending_msg_ids = remove_ids(&self.pending_msg_ids, &gone);
        let mut text = "message rejected; refreshing session: ".to_owned();
        text.append(reason);
        self.status(text.as_str(), clock);
    }

    fn refuse(&mut self, message_id: MessageId, reason: String, clock: Clock) -> (out: Step)
        ensures
            final(self).refused(*old(self), message_id, reason, clock.millis, out),
    {
        let gone = self.crypto.reject_message(&message_id);
        assert(old(self).crypto.is_rejected(message_id, gone));
        match gone {
            Some((recipient, change)) => Step::save(
                change,
                AfterSave::Reject { recipient, message_id, reason },
            ),
            None => {
                self.show_refusal(message_id, reason.as_str(), clock);
                Step::done()
            },
        }
    }

    /// A refused message and the session with its recipient are gone for good:
    /// the keys of the recipient are asked for. Or they could not be dropped.
    pub open spec fn rejects(
        self,
        before: App,
        recipient: UserId,
        message_id: MessageId,
        reason: Seq<char>,
        saved: bool,
        millis: u64,
        out: Step,
    ) -> bool {
        if saved {
            &&& self.shows_refusal(
                App { crypto: self.crypto, ..before },
                message_id,
                reason,
                millis,
            )
            &&& self.crypto.same_state_but_pending(&before.crypto)
            &&& self.crypto.pending_inits@ == before.crypto.pending_inits@.insert(recipient@, ())
            &&& out.only_sends(ClientMessage::FetchPreKeyBundle { target_user_id: recipient })
        } else {
            out.is_done() && self.shows_refusal(before, message_id, reason, millis)
        }
    }

    fn reject(
        &mut self,
        recipient: UserId,
        message_id: MessageId,
        reason: String,
        saved: bool,
        clock: Clock,
    ) -> (out: Step)
        ensures
            final(self).rejects(
                *old(self),
                recipient,
                message_id,
                reason@,
                saved,
                clock.millis,
                out,
            ),
    {
        if saved {
            self.crypto.add_pending(recipient.as_str());
            self.show_refusal(message_id, reason.as_str(), clock);
            Step::only_send(ClientMessage::FetchPreKeyBundle { target_user_id: recipient })
        } else {
            self.show_refusal(message_id, reason.as_str(), clock);
            Step::done()
        }
    }

    /// One-time pre-keys are running low: new ones are offered.
    pub open spec fn replenishes(
        self,
        before: App,
        remaining: u32,
        clock: Clock,
        out: Step,
    ) -> bool {
        exists|offer: Result<(ClientMessage, Change), CryptoError>|
            {
                &&& #[trigger] before.crypto.replenishes(offer)
                &&& match offer {
                    Ok((request, change)) => {
                        &&& self == before
                        &&& out.quiet()
                        &&& out.work == (Work::Save {
                            change,
                            next: AfterSave::Replenish { request, remaining },
                        })
                    },
                    Err(error) => out.is_done() && self.told(
                        before,
                        "pre-key replenishment failed: "@ + error.text(),
                        clock.millis,
                    ),
                }
            }
    }

    fn replenish(&mut self, remaining: u32, clock: Clock) -> (out: Step)
        ensures
            final(self).replenishes(*old(self), remaining, clock, out),
    {
        let offer = self.crypto.queue_prekey_replenishment();
        assert(old(self).crypto.replenishes(offer));
        match offer {
            Ok((request, change)) => Step::save(
                change,
                AfterSave::Replenish { request, remaining },
            ),
            Err(error) => {
                self.tell_error("pre-key replenishment failed: ", &error, clock);
                Step::done()
            },
        }
    }

    /// New one-time pre-keys are kept for good: they are offered to the
    /// server. Or they could not be kept.
    pub open spec fn offers(
        self,
        before: App,
        request: ClientMessage,
        remaining: u32,
        outcome: Result<(), CryptoError>,
        millis: u64,
        out: Step,
    ) -> bool {
        match outcome {
            Ok(_) => out.only_sends(request) && self.told(
                before,
                "replenishing one-time pre-keys ("@ + decimal(remaining as nat) + " remaining)"@,
                millis,
            ),
            Err(error) => out.is_done() && self.told(
                before,
                "pre-key replenishment failed: "@ + error.text(),
                millis,
            ),
        }
    }

    fn offer(
        &mut self,
        request: ClientMessage,
        remaining: u32,
        outcome: Result<(), CryptoError>,
        clock: Clock,
    ) -> (out: Step)
        ensures
            final(self).offers(*old(self), request, remaining, outcome, clock.millis, out),
    {
        match outcome {
            Ok(_) => {
                let mut text = "replenishing one-time pre-keys (".to_owned();
                push_decimal(&mut text, remaining as u64);
                text.append(" remaining)");
                self.status(text.as_str(), clock);
                Step::only_send(request)
            },
            Err(error) => {
                self.tell_error("pre-key replenishment failed: ", &error, clock);
                Step::done()
            },
        }
    }

    /// The server has answered a rotation of the signed pre-key.
    pub open spec fn rotates(
        self,
        rotation_id: MessageId,
        accepted: bool,
        previously_accepted: bool,
        current_key_id: u32,
        unix_secs: u64,
        out: Step,
    ) -> bool {
        exists|answer: Result<(Option<ClientMessage>, Change), CryptoError>|
            {
                &&& #[trigger] self.crypto.is_rotated(
                    rotation_id,
                    accepted,
                    previously_accepted,
                    current_key_id,
                    unix_secs,
                    answer,
                )
                &&& match answer {
                    Ok((replacement, change)) => out.quiet() && out.work == (Work::Save {
                        change,
                        next: AfterSave::Rotate { accepted, replacement },
                    }),
                    Err(_) => out.is_done(),
                }
            }
    }

    fn rotate(
        &self,
        rotation_id: MessageId,
        accepted: bool,
        previously_accepted: bool,
        current_key_id: u32,
        clock: Clock,
    ) -> (out: Step)
        ensures
            self.rotates(
                rotation_id,
                accepted,
                previously_accepted,
                current_key_id,
                clock.unix_secs,
                out,
            ),
    {
        let answer = self.crypto.confirm_signed_prekey_rotated(
            &rotation_id,
            accepted,
            previously_accepted,
            current_key_id,
            clock.unix_secs,
        );
        assert(self.crypto.is_rotated(
            rotation_id,
            accepted,
            previously_accepted,
            current_key_id,
            clock.unix_secs,
            answer,
        ));
        match answer {
            Ok((replacement, change)) => Step::save(
                change,
                AfterSave::Rotate { accepted, replacement },
            ),
            Err(_) => Step::done(),
        }
    }

    /// The answer to a rotation is settled for good, or could not be.
    pub open spec fn rotated(
        self,
        before: App,
        accepted: bool,
        replacement: Option<ClientMessage>,
        saved: bool,
        millis: u64,
        out: Step,
    ) -> bool {
        if saved {
            &&& self.told(before, rotation_text(accepted, replacement is Some), millis)
            &&& match replacement {
                Some(request) => out.only_sends(request),
                None => out.is_done(),
            }
        } else {
            self == before && out.is_done()
        }
    }

    fn finish_rotation(
        &mut self,
        accepted: bool,
        replacement: Option<ClientMessage>,
        saved: bool,
        clock: Clock,
    ) -> (out: Step)
        ensures
            final(self).rotated(*old(self), accepted, replacement, saved, clock.millis, out),
    {
        if !saved {
            return Step::done();
        }
        match replacement {
            Some(request) => {
                self.status("signed pre-key rotation reconciled; retrying", clock);
                Step::only_send(request)
            },
            None => {
                if accepted {
                    self.status("signed pre-key rotated", clock);
                } else {
                    self.status("signed pre-key rotation rejected", clock);
                }
                Step::done()
            },
        }
    }

    /// How the client reacts to a message of the server.
    pub open spec fn reacts(
        self,
        before: App,
        message: ServerMessage,
        clock: Clock,
        out: Step,
    ) -> bool {
        match message {
            ServerMessage::PreKeyBundleResponse { user_id, bundle } => self.starts_session(
                before,
                user_id,
                bundle,
                clock,
                out,
            ),
            ServerMessage::IncomingMessage(inbound) => {
                &&& self == before
                &&& out.quiet()
                &&& out.work matches Work::More(batch) && batch.rest@ == seq![inbound]
                    && batch.acks@.len() == 0 && batch.live && batch.fresh is None
            },
            ServerMessage::QueuedMessages { messages } => {
                &&& self == before
                &&& out.quiet()
                &&& out.work matches Work::More(batch) && batch.rest@ == messages@
                    && batch.acks@.len() == 0 && !batch.live && batch.fresh is None
            },
            ServerMessage::PeerTyping { sender_id } => out.is_done() && self.shows_typing(
                before,
                sender_id,
                clock.millis,
            ),
            ServerMessage::MessageDelivered { message_ids } => out.is_done() && self.delivers(
                before,
                message_ids@,
                clock.millis,
            ),
            ServerMessage::MessageSent { message_id } => {
                &&& self == before
                &&& out.quiet()
                &&& out.work matches Work::Save { change, next } && before.crypto.is_settled(
                    Awaited::Message,
                    message_id,
                    change,
                ) && (next matches AfterSave::Send(ClientMessage::AckMessageSent { message_ids })
                    && message_ids@ == seq![message_id])
            },
            ServerMessage::MessageRejected { message_id, reason } => self.refused(
                before,
                message_id,
                reason,
                clock.millis,
                out,
            ),
            ServerMessage::AckSuccess { ack_id, message_ids } => {
                &&& self == before
                &&& out.quiet()
                &&& out.work matches Work::Save { change, next } && before.crypto.is_acked(
                    ack_id,
                    message_ids@,
                    change,
                ) && next is Nothing
            },
            ServerMessage::ReadReceiptSent { receipt_id } => {
                &&& self == before
                &&& out.quiet()
                &&& out.work matches Work::Save { change, next } && before.crypto.is_settled(
                    Awaited::ReadReceipt,
                    receipt_id,
                    change,
                ) && (next matches AfterSave::Send(
                    ClientMessage::AckReadReceiptSent { receipt_ids },
                ) && receipt_ids@ == seq![receipt_id])
            },
            ServerMessage::IncomingReadReceipt { sender_id, receipt_id, envelope } => exists|
                read: (InboundDecrypt, Option<Change>),
                crypto: super::crypto_mgr::CryptoManager,
            |
                {
                    &&& #[trigger] crypto.reads_once(
                        &before.crypto,
                        sender_id@,
                        receipt_id,
                        envelope,
                        clock.unix_secs,
                        read,
                    )
                    &&& crypto == self.crypto
                    &&& self.receives_receipt(
                        before,
                        sender_id,
                        receipt_id,
                        read,
                        clock.millis,
                        out,
                    )
                },
            ServerMessage::PreKeyLow { remaining } => self.replenishes(
                before,
                remaining,
                clock,
                out,
            ),
            ServerMessage::PreKeysUploaded { upload_id, accepted, remaining } => {
                &&& self == before
                &&& out.quiet()
                &&& out.work matches Work::Save { change, next } && before.crypto.is_uploaded(
                    upload_id,
                    accepted,
                    change,
                ) && next == (AfterSave::Upload { accepted, remaining })
            },
            ServerMessage::SignedPreKeyRotated {
                rotation_id,
                accepted,
                previously_accepted,
                current_key_id,
            } => self == before && before.rotates(
                rotation_id,
                accepted,
                previously_accepted,
                current_key_id,
                clock.unix_secs,
                out,
            ),
            ServerMessage::Error { message, .. } => out.is_done() && self.told(
                before,
                "server error: "@ + message@,
                clock.millis,
            ),
            _ => self == before && out.is_done(),
        }
    }

    /// Reacts to a message of the server.
    pub fn handle_server_message(&mut self, message: ServerMessage, clock: Clock) -> (out: Step)
        ensures
            final(self).reacts(*old(self), message, clock, out),
    {
        match message {
            ServerMessage::PreKeyBundleResponse { user_id, bundle } => self.start_session(
                user_id,
                bundle,
                clock,
            ),
            ServerMessage::IncomingMessage(inbound) => {
                let mut rest: Vec<InboundMessage> = Vec::new();
                rest.push(inbound);
                assert(rest@ =~= seq![inbound]);
                Step::work(
                    Work::More(Batch { rest, acks: Vec::new(), live: true, fresh: None }),
                )
            },
            ServerMessage::QueuedMessages { messages } => Step::work(
                Work::More(Batch { rest: messages, acks: Vec::new(), live: false, fresh: None }),
            ),
            ServerMessage::PeerTyping { sender_id } => {
                self.show_typing(sender_id, clock);
                Step::done()
            },
            ServerMessage::MessageDelivered { message_ids } => {
                self.deliver(&message_ids, clock);
                Step::done()
            },
            ServerMessage::MessageSent { message_id } => {
                let change = self.crypto.confirm_message_sent(&message_id);
                let mut message_ids: Vec<MessageId> = Vec::new();
                message_ids.push(message_id);
                assert(message_ids@ =~= seq![message_id]);
                Step::save(change, AfterSave::Send(ClientMessage::AckMessageSent { message_ids }))
            },
            ServerMessage::MessageRejected { message_id, reason } => self.refuse(
                message_id,
                reason,
                clock,
            ),
            ServerMessage::AckSuccess { ack_id, message_ids } => Step::save(
                self.crypto.confirm_acked(&ack_id, &message_ids),
                AfterSave::Nothing,
            ),
            ServerMessage::ReadReceiptSent { receipt_id } => {
                let change = self.crypto.confirm_read_receipt_sent(&receipt_id);
                let mut receipt_ids: Vec<MessageId> = Vec::new();
                receipt_ids.push(receipt_id);
                assert(receipt_ids@ =~= seq![receipt_id]);
                Step::save(
                    change,
                    AfterSave::Send(ClientMessage::AckReadReceiptSent { receipt_ids }),
                )
            },
            ServerMessage::IncomingReadReceipt { sender_id, receipt_id, envelope } => {
                self.receive_receipt(sender_id, receipt_id, &envelope, clock)
            },
            ServerMessage::PreKeyLow { remaining } => self.replenish(remaining, clock),
            ServerMessage::PreKeysUploaded { upload_id, accepted, remaining } => Step::save(
                self.crypto.confirm_prekeys_uploaded(&upload_id, accepted),
                AfterSave::Upload { accepted, remaining },
            ),
            ServerMessage::SignedPreKeyRotated {
                rotation_id,
                accepted,
                previously_accepted,
                current_key_id,
            } => self.rotate(rotation_id, accepted, previously_accepted, current_key_id, clock),
            ServerMessage::Error { message, .. } => {
                let mut text = "server error: ".to_owned();
                text.append(message.as_str());
                self.status(text.as_str(), clock);
                Step::done()
            },
            _ => Step::done(),
        }
    }

    /// The names among which a user identifier can be.
    pub open spec fn addressable(names: Seq<String>) -> Seq<Seq<char>> {
        texts(names).filter(|name: Seq<char>| valid_user_id(name))
    }

    /// Everything unfinished is asked for again: the requests in the outbox in
    /// their order, and then the keys that are waited for.
    pub open spec fn resumes(self, out: Step) -> bool {
        &&& out.work is Done
        &&& !out.clear_draft
        &&& exists|peers: Seq<String>|
            {
                let pending = self.crypto.pending_outbound@;
                let names = #[trigger] App::addressable(peers);
                &&& lists(peers, self.crypto.pending_inits@)
                &&& in_byte_order(peers)
                &&& out.send@.len() == pending.len() + names.len()
                &&& forall|i: int|
                    0 <= i < pending.len() ==> (#[trigger] pending[i]).asks(out.send@[i])
                &&& forall|i: int|
                    0 <= i < names.len() ==> is_fetch(
                        out.send@[pending.len() + i],
                        #[trigger] names[i],
                    )
            }
    }

    fn resume(&self) -> (out: Step)
        ensures
            self.resumes(out),
    {
        let mut send = self.crypto.pending_messages();
        let ghost requests = send@;
        let peers = self.crypto.pending_peers();
        let mut fetches = fetch_requests(&peers);
        let ghost asked = fetches@;
        let ghost pending = self.crypto.pending_outbound@;
        let ghost names = App::addressable(peers@);
        send.append(&mut fetches);
        assert(send@ =~= requests + asked);
        assert forall|i: int| 0 <= i < pending.len() implies (#[trigger] pending[i]).asks(
            send@[i],
        ) by {
            assert(pending[i].asks(requests[i]));
        }
        assert forall|i: int| 0 <= i < names.len() implies is_fetch(
            send@[pending.len() + i],
            #[trigger] names[i],
        ) by {
            assert(send@[pending.len() + i] == asked[i]);
        }
        Step { send, work: Work::Done, clear_draft: false }
    }

    /// The connection is shown.
    pub open spec fn shows_connection(self, before: App, status: ConnectionStatus) -> bool {
        self == (App {
            status_bar: StatusBar { connection: Some(status), ..before.status_bar },
            ..before
        })
    }

    fn show_connection(&mut self, status: ConnectionStatus)
        ensures
            final(self).shows_connection(*old(self), status),
    {
        self.status_bar.set_connection(status);
        assert(self.status_bar == (StatusBar {
            connection: Some(status),
            ..old(self).status_bar
        }));
    }

    /// The user is logged in: a signed pre-key that has been in use for long
    /// enough is replaced, and then everything unfinished is asked for again.
    pub open spec fn logs_in(self, clock: Clock, out: Step) -> bool {
        exists|renewed: Result<Option<Change>, CryptoError>|
            {
                &&& #[trigger] self.crypto.renews(clock.unix_secs, renewed)
                &&& match renewed {
                    Ok(Some(change)) => out.quiet() && out.work == (Work::Save {
                        change,
                        next: AfterSave::LogIn,
                    }),
                    _ => self.resumes(out),
                }
            }
    }

    fn log_in(&self, clock: Clock) -> (out: Step)
        ensures
            self.logs_in(clock, out),
    {
        let renewed = self.crypto.queue_signed_prekey_rotation(clock.unix_secs);
        assert(self.crypto.renews(clock.unix_secs, renewed));
        match renewed {
            Ok(Some(change)) => Step::save(change, AfterSave::LogIn),
            _ => self.resume(),
        }
    }

    /// Reacts to what happens from outside.
    pub fn handle_app_event(&mut self, event: AppEvent, clock: Clock) -> (out: Step)
        ensures
            match event {
                AppEvent::Connecting => out.is_done() && final(self).shows_connection(
                    *old(self),
                    ConnectionStatus::Connecting,
                ),
                AppEvent::Connected => out.is_done() && final(self).shows_connection(
                    *old(self),
                    ConnectionStatus::Authenticating,
                ),
                AppEvent::Authenticated => {
                    &&& final(self).shows_connection(
                        App { authenticated: true, ..*old(self) },
                        ConnectionStatus::Authenticated(clock.millis),
                    )
                    &&& final(self).logs_in(clock, out)
                },
                AppEvent::AuthFailed(reason) => out.is_done() && final(self).shows_connection(
                    App { authenticated: false, ..*old(self) },
                    ConnectionStatus::AuthFailed(reason),
                ),
                AppEvent::Disconnected => {
                    &&& out.is_done()
                    &&& final(self).pending_msg_ids@.len() == 0
                    &&& final(self).shows_connection(
                        App {
                            authenticated: false,
                            pending_msg_ids: final(self).pending_msg_ids,
                            ..*old(self)
                        },
                        ConnectionStatus::Disconnected,
                    )
                },
                AppEvent::Server(message) => final(self).reacts(*old(self), message, clock, out),
            },
    {
        match event {
            AppEvent::Connecting => {
                self.show_connection(ConnectionStatus::Connecting);
                Step::done()
            },
            AppEvent::Connected => {
                self.show_connection(ConnectionStatus::Authenticating);
                Step::done()
            },
            AppEvent::Authenticated => {
                self.authenticated = true;
                self.show_connection(ConnectionStatus::Authenticated(clock.millis));
                self.log_in(clock)
            },
            AppEvent::AuthFailed(reason) => {
                self.authenticated = false;
                self.show_connection(ConnectionStatus::AuthFailed(reason));
                Step::done()
            },
            AppEvent::Disconnected => {
                self.authenticated = false;
                self.pending_msg_ids.clear();
                self.show_connection(ConnectionStatus::Disconnected);
                Step::done()
            },
            AppEvent::Server(message) => self.handle_server_message(message, clock),
        }
    }

    /// From time to time: a signed pre-key that has been in use for long
    /// enough is replaced.
    pub fn handle_lifecycle_tick(&self, clock: Clock) -> (out: Step)
        ensures
            if !self.authenticated {
                out.is_done()
            } else {
                exists|renewed: Result<Option<Change>, CryptoError>|
                    {
                        &&& #[trigger] self.crypto.renews(clock.unix_secs, renewed)
                        &&& match renewed {
                            Ok(Some(change)) => out.quiet() && (out.work matches Work::Save {
                                change: made,
                                next: AfterSave::Send(request),
                            } && made == change && (change.outbox matches OutboxChange::Add(item)
                                && item.asks(request))),
                            _ => out.is_done(),
                        }
                    }
            },
    {
        if !self.authenticated {
            return Step::done();
        }
        let renewed = self.crypto.queue_signed_prekey_rotation(clock.unix_secs);
        assert(self.crypto.renews(clock.unix_secs, renewed));
        match renewed {
            Ok(Some(change)) => {
                let request = match &change.outbox {
                    OutboxChange::Add(item) => item.to_client_message(),
                    _ => return Step::done(),
                };
                Step::save(change, AfterSave::Send(request))
            },
            _ => Step::done(),
        }
    }

    /// A change has been made durable, or could not be and was undone.
    pub fn saved(&mut self, next: AfterSave, outcome: Result<(), CryptoError>, clock: Clock) -> (out:
        Step)
        ensures
            match next {
                AfterSave::Nothing => *final(self) == *old(self) && out.is_done(),
                AfterSave::Send(request) => *final(self) == *old(self) && (if outcome is Ok {
                    out.only_sends(request)
                } else {
                    out.is_done()
                }),
                AfterSave::StartSession { peer, identity_key } => final(self).session_saved(
                    *old(self),
                    peer,
                    identity_key,
                    outcome,
                    clock.millis,
                    out,
                ),
                AfterSave::Open { message, text, batch } => final(self).opens(
                    *old(self),
                    message,
                    text@,
                    batch,
                    outcome is Ok,
                    out,
                ),
                AfterSave::Show { message, text, inserted, batch } => final(self).shows_message(
                    *old(self),
                    message,
                    text@,
                    inserted,
                    batch,
                    outcome is Ok,
                    out,
                ),
                AfterSave::Acknowledge { request, batch } => final(self).acknowledged(
                    *old(self),
                    request,
                    batch,
                    outcome is Ok,
                    out,
                ),
                AfterSave::Flush { target, request, fresh } => final(self).flushed(
                    *old(self),
                    target,
                    request,
                    fresh,
                    outcome is Ok,
                    out,
                ),
                AfterSave::Read { sender, message_id, request } => final(self).has_read(
                    *old(self),
                    sender,
                    message_id,
                    request,
                    outcome is Ok,
                    out,
                ),
                AfterSave::Reject { recipient, message_id, reason } => final(self).rejects(
                    *old(self),
                    recipient,
                    message_id,
                    reason@,
                    outcome is Ok,
                    clock.millis,
                    out,
                ),
                AfterSave::OpenReceipt { sender, receipt_id, text } => if outcome is Ok {
                    final(self).opens_receipt(
                        *old(self),
                        sender,
                        receipt_id,
                        text@,
                        clock.millis,
                        out,
                    )
                } else {
                    *final(self) == *old(self) && out.is_done()
                },
                AfterSave::ShowReceipt { receipt_id } => *final(self) == *old(self) && old(
                    self,
                ).acknowledges_receipt(receipt_id, out),
                AfterSave::Replenish { request, remaining } => final(self).offers(
                    *old(self),
                    request,
                    remaining,
                    outcome,
                    clock.millis,
                    out,
                ),
                AfterSave::Upload { accepted, remaining } => out.is_done() && (if outcome is Ok {
                    final(self).told(*old(self), upload_text(accepted, remaining), clock.millis)
                } else {
                    *final(self) == *old(self)
                }),
                AfterSave::Rotate { accepted, replacement } => final(self).rotated(
                    *old(self),
                    accepted,
                    replacement,
                    outcome is Ok,
                    clock.millis,
                    out,
                ),
                AfterSave::LogIn => *final(self) == *old(self) && old(self).resumes(out),
                AfterSave::Refresh { target } => final(self).refreshes(
                    *old(self),
                    target,
                    outcome,
                    clock.millis,
                    out,
                ),
                AfterSave::Encrypt { target, message_id, text, request } => final(self).encrypted(
                    *old(self),
                    target,
                    message_id,
                    text@,
                    request,
                    outcome,
                    clock.millis,
                    out,
                ),
            },
    {
        let saved = outcome.is_ok();
        match next {
            AfterSave::Nothing => Step::done(),
            AfterSave::Send(request) => if saved {
                Step::only_send(request)
            } else {
                Step::done()
            },
            AfterSave::StartSession { peer, identity_key } => self.save_session(
                peer,
                identity_key,
                outcome,
                clock,
            ),
            AfterSave::Open { message, text, batch } => self.open_message(
                message,
                text,
                batch,
                saved,
            ),
            AfterSave::Show { message, text, inserted, batch } => self.show_message(
                message,
                text,
                inserted,
                batch,
                saved,
            ),
            AfterSave::Acknowledge { request, batch } => self.finish_acknowledging(
                request,
                batch,
                saved,
            ),
            AfterSave::Flush { target, request, fresh } => self.finish_flushing(
                target,
                request,
                fresh,
                saved,
            ),
            AfterSave::Read { sender, message_id, request } => self.finish_reading(
                sender,
                message_id,
                request,
                saved,
            ),
            AfterSave::Reject { recipient, message_id, reason } => self.reject(
                recipient,
                message_id,
                reason,
                saved,
                clock,
            ),
            AfterSave::OpenReceipt { sender, receipt_id, text } => if saved {
                self.open_receipt(sender, receipt_id, text, clock)
            } else {
                Step::done()
            },
            AfterSave::ShowReceipt { receipt_id } => self.acknowledge_receipt(receipt_id),
            AfterSave::Replenish { request, remaining } => self.offer(
                request,
                remaining,
                outcome,
                clock,
            ),
            AfterSave::Upload { accepted, remaining } => {
                if saved {
                    let text = prekey_upload_status(accepted, remaining);
                    self.status(text.as_str(), clock);
                }
                Step::done()
            },
            AfterSave::Rotate { accepted, replacement } => self.finish_rotation(
                accepted,
                replacement,
                saved,
                clock,
            ),
            AfterSave::LogIn => self.resume(),
            AfterSave::Refresh { target } => self.refresh(target, outcome, clock),
            AfterSave::Encrypt { target, message_id, text, request } => self.send_encrypted(
                target,
                message_id,
                text,
                request,
                outcome,
                clock,
            ),
        }
    }

    /// The identity key of a peer has been compared with the stored one, with
    /// a warning if it has changed.
    pub fn compared(&mut self, next: AfterTrack, warning: Option<String>, clock: Clock) -> (out: Step)
        ensures
            match next {
                AfterTrack::Session { peer } => {
                    &&& out.is_done()
                    &&& exists|warned: App| #[trigger]
                        warned.warned(*old(self), peer@, warning, clock.millis)
                            && final(self).told(
                            warned,
                            "E2EE session established with "@ + peer@ + " \u{1f512}"@,
                            clock.millis,
                        )
                },
                AfterTrack::Inbound { message, text, batch } => final(self).tracks_inbound(
                    *old(self),
                    warning,
                    message,
                    text@,
                    batch,
                    clock.millis,
                    out,
                ),
            },
    {
        match next {
            AfterTrack::Session { peer } => {
                self.track_peer_identity(peer.as_str(), warning, clock);
                let ghost warned = *self;
                assert(warned.warned(*old(self), peer@, warning, clock.millis));
                let mut text = "E2EE session established with ".to_owned();
                text.append(peer.as_str());
                text.append(" \u{1f512}");
                self.status(text.as_str(), clock);
                Step::done()
            },
            AfterTrack::Inbound { message, text, batch } => self.track_inbound(
                warning,
                message,
                text,
                batch,
                clock,
            ),
        }
    }

    /// A message has been put into the history, for the first time or not, or
    /// could not be.
    pub fn stored(&mut self, next: AfterStore, stored: Option<bool>, clock: Clock) -> (out: Step)
        ensures
            match next {
                AfterStore::Inbound { message, text, batch } => {
                    &&& *final(self) == *old(self)
                    &&& old(self).stores_inbound(message, text@, batch, stored, out)
                },
                AfterStore::Note { text } => final(self).noted(
                    *old(self),
                    text,
                    stored is Some,
                    clock.millis,
                    out,
                ),
                AfterStore::Sent { text } => final(self).shows_sent(*old(self), text, out),
            },
    {
        match next {
            AfterStore::Inbound { message, text, batch } => self.store_inbound(
                message,
                text,
                batch,
                stored,
            ),
            AfterStore::Note { text } => self.note(text, stored.is_some(), clock),
            AfterStore::Sent { text } => self.show_sent(text),
        }
    }
}

/// A draft is not given up, and nothing of it is sent, before it is durable:
/// whatever becomes of a draft at first, it stays in the composer and no
/// message goes out.
pub proof fn law_draft_is_kept(before: App, after: App, text: String, clock: Clock, out: Step)
    requires
        after.takes_draft(before, text, clock, out),
    ensures
        !out.clear_draft,
        out.send@.len() == 0,
{
}

/// A message that could not be made durable at one of its steps is not
/// acknowledged, so that the server delivers it again.
pub proof fn law_unsaved_message_comes_again(
    before: App,
    after: App,
    message: InboundMessage,
    text: Seq<char>,
    inserted: bool,
    batch: Batch,
    out: Step,
)
    requires
        after.opens(before, message, text, batch, false, out) || before.stores_inbound(
            message,
            text,
            batch,
            None,
            out,
        ) || after.shows_message(before, message, text, inserted, batch, false, out),
    ensures
        out.work matches Work::More(rest) && rest.acks@ == batch.acks@ && rest.rest@
            == batch.rest@,
{
}

/// A message of somebody else stays out of the open conversation.
pub proof fn law_other_conversations_stay_apart(
    before: App,
    after: App,
    message: InboundMessage,
    text: Seq<char>,
    inserted: bool,
    batch: Batch,
    saved: bool,
    out: Step,
)
    requires
        after.shows_message(before, message, text, inserted, batch, saved, out),
        !before.is_active(message.sender_id@),
    ensures
        after.chat_history == before.chat_history,
{
}

} // verus!
