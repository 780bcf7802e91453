//! What the user writes, on its way to the server.

use super::app::{App, MAX_PENDING_IDS};
use super::chat::{ChatEntry, MessageDirection};
use super::crypto_mgr::Change;
use super::error::CryptoError;
use super::input::trimmed;
use super::steps::{AfterSave, AfterStore, Clock, Step, Work};
use crate::protocol::consts::MAX_CIPHERTEXT_BYTES;
use crate::protocol::{ClientMessage, MessageId, UserId};
use vstd::prelude::*;
use vstd::string::*;

verus! {

use super::input::is_trimmed;
use super::outbox::encoded_size;
use crate::protocol::types::is_random_uuid;
use vstd::utf8::encode_utf8;

impl App {
    /// What becomes of a draft without white space at its ends.
    pub open spec fn takes_draft(self, before: App, text: String, clock: Clock, out: Step) -> bool {
        if text@.len() == 0 {
            self == before && out.is_done()
        } else {
            match before.target_user {
                None => out.is_done() && self.told(
                    before,
                    "choose a conversation before sending"@,
                    clock.millis,
                ),
                Some(target) => if target@ == before.user_id@ {
                    &&& self == before
                    &&& out.quiet()
                    &&& out.work matches Work::Store { peer, direction, message_id, body, next }
                        && peer@ == target@ && direction is Sent && is_random_uuid(message_id@)
                        && body@ == text@ && (next matches AfterStore::Note { text: shown } && shown@
                        == text@)
                } else if !before.crypto.sessions@.contains_key(target@) {
                    out.is_done() && self.told(
                        before,
                        "waiting for session establishment..."@,
                        clock.millis,
                    )
                } else if !before.authenticated {
                    out.is_done() && self.told(
                        before,
                        "waiting for server connection..."@,
                        clock.millis,
                    )
                } else if before.crypto.is_stale(target@, clock.unix_secs) {
                    &&& self == before
                    &&& out.quiet()
                    &&& out.work matches Work::Save { change, next } && before.crypto.drops_session(
                        target@,
                        change,
                    ) && next == (AfterSave::Refresh { target })
                } else if encoded_size(encode_utf8(text@).len()) > MAX_CIPHERTEXT_BYTES {
                    out.is_done() && self.told(before, "message too long"@, clock.millis)
                } else {
                    self.seals_draft(before, target, text, clock, out)
                },
            }
        }
    }

    /// A draft is encrypted under some new identifier.
    pub open spec fn seals_draft(
        self,
        before: App,
        target: UserId,
        text: String,
        clock: Clock,
        out: Step,
    ) -> bool {
        exists|message_id: MessageId, sealed: Result<(ClientMessage, Change), CryptoError>|
            {
                &&& is_random_uuid(message_id@)
                &&& #[trigger] before.crypto.encrypts(
                    target@,
                    target,
                    message_id,
                    encode_utf8(text@),
                    sealed,
                )
                &&& match sealed {
                    Ok((request, change)) => {
                        &&& self == before
                        &&& out.quiet()
                        &&& out.work matches Work::Save { change: made, next } && made == change
                            && (next matches AfterSave::Encrypt {
                            target: to,
                            message_id: id,
                            text: shown,
                            request: asked,
                        } && to == target && id == message_id && shown@ == text@ && asked
                            == request)
                    },
                    Err(error) => out.is_done() && self.told(
                        before,
                        "encrypt error: "@ + error.text(),
                        clock.millis,
                    ),
                }
            }
    }

    /// The user wants a draft to be sent.
    pub fn handle_enter(&mut self, draft: &str, clock: Clock) -> (out: Step)
        ensures
            exists|text: String| #[trigger]
                is_trimmed(text@, draft@) && final(self).takes_draft(
                    *old(self),
                    text,
                    clock,
                    out,
                ),
    {
        let text = trimmed(draft);
        assert(is_trimmed(text@, draft@));
        self.take_draft(text, clock)
    }

    fn take_draft(&mut self, text: String, clock: Clock) -> (out: Step)
        ensures
            final(self).takes_draft(*old(self), text, clock, out),
    {
        let len: usize = text.as_str().as_bytes().len();
        proof {
            lemma_empty(text@);
        }
        if len == 0 {
            return Step::done();
        }
        let target = match &self.target_user {
            Some(target) => target.clone(),
            None => {
                self.status("choose a conversation before sending", clock);
                return Step::done();
            },
        };
        if target.same(&self.user_id) {
            return Step::work(
                Work::Store {
                    peer: target.as_str().to_owned(),
                    direction: MessageDirection::Sent,
                    message_id: MessageId::new(),
                    body: text.clone(),
                    next: AfterStore::Note { text },
                },
            );
        }
        if !self.crypto.has_session(target.as_str()) {
            self.status("waiting for session establishment...", clock);
            return Step::done();
        }
        if !self.authenticated {
            self.status("waiting for server connection...", clock);
            return Step::done();
        }
        match self.crypto.expire_stale_prekey_session(target.as_str(), clock.unix_secs) {
            Some(change) => {
                return Step::save(change, AfterSave::Refresh { target });
            },
            None => {},
        }
        // The length is tested first, so that no message key is used in vain.
        if len > MAX_CIPHERTEXT_BYTES || (len + 18) / 3 * 4 > MAX_CIPHERTEXT_BYTES {
            self.status("message too long", clock);
            return Step::done();
        }
        let message_id = MessageId::new();
        let sealed = self.crypto.encrypt_message(
            target.as_str(),
            &target,
            &message_id,
            text.as_str().as_bytes(),
        );
        assert(old(self).crypto.encrypts(target@, target, message_id, encode_utf8(text@), sealed));
        match sealed {
            Ok((request, change)) => Step::save(
                change,
                AfterSave::Encrypt { target, message_id, text, request },
            ),
            Err(error) => {
                self.tell_error("encrypt error: ", &error, clock);
                Step::done()
            },
        }
    }

    /// Shows an error.
    pub(crate) fn tell_error(&mut self, what: &str, error: &CryptoError, clock: Clock)
        ensures
            final(self).told(*old(self), what@ + error.text(), clock.millis),
    {
        let mut text = what.to_owned();
        text.append(error.message().as_str());
        self.status(text.as_str(), clock);
    }

    /// A session that was past its reservation is gone for good: the keys of
    /// the peer are asked for. Or it could not be dropped.
    pub open spec fn refreshes(
        self,
        before: App,
        target: UserId,
        outcome: Result<(), CryptoError>,
        millis: u64,
        out: Step,
    ) -> bool {
        match outcome {
            Ok(_) => {
                &&& self.told(
                    App { crypto: self.crypto, ..before },
                    "refreshing expired session keys..."@,
                    millis,
                )
                &&& self.crypto.same_state_but_pending(&before.crypto)
                &&& self.crypto.pending_inits@ == before.crypto.pending_inits@.insert(target@, ())
                &&& out.only_sends(ClientMessage::FetchPreKeyBundle { target_user_id: target })
            },
            Err(error) => out.is_done() && self.told(
                before,
                "session refresh failed: "@ + error.text(),
                millis,
            ),
        }
    }

    pub(crate) fn refresh(
        &mut self,
        target: UserId,
        outcome: Result<(), CryptoError>,
        clock: Clock,
    ) -> (out: Step)
        ensures
            final(self).refreshes(*old(self), target, outcome, clock.millis, out),
    {
        match outcome {
            Ok(_) => {
                self.crypto.add_pending(target.as_str());
                self.status("refreshing expired session keys...", clock);
                Step::only_send(ClientMessage::FetchPreKeyBundle { target_user_id: target })
            },
            Err(error) => {
                self.tell_error("session refresh failed: ", &error, clock);
                Step::done()
            },
        }
    }

    /// The identifiers of sent messages with one more. When there are too
    /// many, the older ones are forgotten.
    pub open spec fn remembering(ids: Seq<MessageId>, message_id: MessageId) -> Seq<MessageId> {
        if ids.len() >= MAX_PENDING_IDS {
            seq![message_id]
        } else {
            ids.push(message_id)
        }
    }

    /// An encrypted message is in the outbox for good: it is sent, and goes
    /// into the history. Or it could not be put there.
    pub open spec fn encrypted(
        self,
        before: App,
        target: UserId,
        message_id: MessageId,
        text: Seq<char>,
        request: ClientMessage,
        outcome: Result<(), CryptoError>,
        millis: u64,
        out: Step,
    ) -> bool {
        match outcome {
            Ok(_) => {
                &&& self == (App { pending_msg_ids: self.pending_msg_ids, ..before })
                &&& self.pending_msg_ids@ == App::remembering(before.pending_msg_ids@, message_id)
                &&& out.send@ == seq![request]
                &&& !out.clear_draft
                &&& out.work matches Work::Store { peer, direction, message_id: id, body, next }
                    && peer@ == target@ && direction is Sent && id == message_id && body@ == text
                    && (next matches AfterStore::Sent { text: shown } && shown@ == text)
            },
            Err(error) => out.is_done() && self.told(
                before,
                "encrypt error: "@ + error.text(),
                millis,
            ),
        }
    }

    pub(crate) fn send_encrypted(
        &mut self,
        target: UserId,
        message_id: MessageId,
        text: String,
        request: ClientMessage,
        outcome: Result<(), CryptoError>,
        clock: Clock,
    ) -> (out: Step)
        ensures
            final(self).encrypted(
                *old(self),
                target,
                message_id,
                text@,
                request,
                outcome,
                clock.millis,
                out,
            ),
    {
        match outcome {
            Ok(_) => {
                if self.pending_msg_ids.len() >= MAX_PENDING_IDS {
                    self.pending_msg_ids.clear();
                    assert(self.pending_msg_ids@.push(message_id) =~= seq![message_id]);
                }
                self.pending_msg_ids.push(message_id);
                let mut out = Step::only_send(request);
                out.work = Work::Store {
                    peer: target.as_str().to_owned(),
                    direction: MessageDirection::Sent,
                    message_id,
                    body: text.clone(),
                    next: AfterStore::Sent { text },
                };
                out
            },
            Err(error) => {
                self.tell_error("encrypt error: ", &error, clock);
                Step::done()
            },
        }
    }

    /// The state is `before`, but for a text of the user at the end of the open
    /// conversation. The draft is cleared.
    pub open spec fn shows_sent(self, before: App, text: String, out: Step) -> bool {
        &&& self == (App { chat_history: self.chat_history, ..before })
        &&& self.chat_history@ == before.chat_history@.push(ChatEntry::Sent(text))
        &&& out.send@.len() == 0
        &&& out.work is Done
        &&& out.clear_draft
    }

    pub(crate) fn show_sent(&mut self, text: String) -> (out: Step)
        ensures
            final(self).shows_sent(*old(self), text, out),
    {
        self.chat_history.push(ChatEntry::Sent(text));
        Step { send: Vec::new(), work: Work::Done, clear_draft: true }
    }

    /// A note is in the history, or could not be put there.
    pub open spec fn noted(
        self,
        before: App,
        text: String,
        stored: bool,
        millis: u64,
        out: Step,
    ) -> bool {
        if stored {
            self.shows_sent(before, text, out)
        } else {
            out.is_done() && self.told(before, "failed to save note"@, millis)
        }
    }

    pub(crate) fn note(&mut self, text: String, stored: bool, clock: Clock) -> (out: Step)
        ensures
            final(self).noted(*old(self), text, stored, clock.millis, out),
    {
        if stored {
            self.show_sent(text)
        } else {
            self.status("failed to save note", clock);
            Step::done()
        }
    }
}

/// A text is empty if its bytes are none.
pub proof fn lemma_empty(text: Seq<char>)
    ensures
        encode_utf8(text).len() == 0 <==> text.len() == 0,
{
    vstd::utf8::encode_utf8_decode_utf8(text);
    if encode_utf8(text).len() == 0 {
        assert(encode_utf8(text) =~= encode_utf8(Seq::<char>::empty()));
        vstd::utf8::encode_utf8_decode_utf8(Seq::<char>::empty());
        assert(text =~= Seq::<char>::empty());
    }
    if text.len() == 0 {
        assert(text =~= Seq::<char>::empty());
    }
}

} // verus!
