//! What the client does outside of the library, one step at a time.
//!
//! A function that needs something done outside returns a [`Step`]. The caller
//! sends the messages of the step, does its work, and hands the result back,
//! which gives the next step.

use super::chat::MessageDirection;
use super::crypto_mgr::Change;
use crate::protocol::{ClientMessage, InboundMessage, MessageId, UserId};
use vstd::prelude::*;
use vstd::string::*;

verus! {

/// The time on two clocks.
#[derive(Debug, Clone, Copy)]
pub struct Clock {
    /// Seconds since the Unix epoch.
    pub unix_secs: u64,
    /// Milliseconds on a clock that does not run backwards.
    pub millis: u64,
}

/// Messages that came together, and what has become of those that were read.
pub struct Batch {
    /// Those that are still to be read.
    pub rest: Vec<InboundMessage>,
    /// Those that are to be acknowledged.
    pub acks: Vec<MessageId>,
    /// The message was sent just now: it did not wait on the server.
    pub live: bool,
    /// A live message that was not known before, and its sender.
    pub fresh: Option<(UserId, MessageId)>,
}

/// What follows when a change has been made durable, or could not be.
pub enum AfterSave {
    Nothing,
    /// The request is sent.
    Send(ClientMessage),
    /// A session has started.
    StartSession { peer: UserId, identity_key: String },
    /// A message has been decrypted.
    Open { message: InboundMessage, text: String, batch: Batch },
    /// A message is in the history.
    Show { message: InboundMessage, text: String, inserted: bool, batch: Batch },
    /// Messages are acknowledged.
    Acknowledge { request: ClientMessage, batch: Batch },
    /// The unread messages of a peer have been read.
    Flush { target: UserId, request: ClientMessage, fresh: Option<(UserId, MessageId)> },
    /// A message has been read as it came.
    Read { sender: UserId, message_id: MessageId, request: ClientMessage },
    /// The server has refused a message.
    Reject { recipient: UserId, message_id: MessageId, reason: String },
    /// A read receipt has been decrypted.
    OpenReceipt { sender: UserId, receipt_id: MessageId, text: String },
    /// A read receipt has been shown.
    ShowReceipt { receipt_id: MessageId },
    /// One-time pre-keys are offered.
    Replenish { request: ClientMessage, remaining: u32 },
    /// One-time pre-keys have been answered.
    Upload { accepted: bool, remaining: u32 },
    /// A new signed pre-key has been answered.
    Rotate { accepted: bool, replacement: Option<ClientMessage> },
    /// The user is logged in.
    LogIn,
    /// A session that was past its reservation is dropped.
    Refresh { target: UserId },
    /// A message has been encrypted.
    Encrypt { target: UserId, message_id: MessageId, text: String, request: ClientMessage },
}

/// What follows when the identity key of a peer has been compared with the one
/// that is stored.
pub enum AfterTrack {
    /// A session has started.
    Session { peer: UserId },
    /// A message has been decrypted.
    Inbound { message: InboundMessage, text: String, batch: Batch },
}

/// What follows when a message has been put into the history, or could not be.
pub enum AfterStore {
    /// It was received.
    Inbound { message: InboundMessage, text: String, batch: Batch },
    /// It is a note.
    Note { text: String },
    /// It was sent.
    Sent { text: String },
}

/// Work outside of the library.
#[allow(inconsistent_fields)]
pub enum Work {
    /// There is none.
    Done,
    /// To commit a change and make it durable. Then: `App::saved`.
    Save { change: Change, next: AfterSave },
    /// To compare the identity key of a peer with the one that is stored.
    /// Then: `App::compared`.
    Track { peer: String, identity_key: String, next: AfterTrack },
    /// To put a message into the history. Then: `App::stored`.
    Store {
        peer: String,
        direction: MessageDirection,
        message_id: MessageId,
        body: String,
        next: AfterStore,
    },
    /// To look up the stored messages of a peer. Then: `App::loaded`.
    Load { peer: UserId, fresh: Option<(UserId, MessageId)> },
    /// None, but there are messages to be read. Then: `App::read_next`.
    More(Batch),
}

/// A step: what is to be sent, and what is to be done.
pub struct Step {
    pub send: Vec<ClientMessage>,
    pub work: Work,
    /// The draft is to be cleared.
    pub clear_draft: bool,
}

impl Step {
    /// Nothing is sent, and the draft stays.
    pub open spec fn quiet(&self) -> bool {
        self.send@.len() == 0 && !self.clear_draft
    }

    /// Nothing is sent and nothing is to be done.
    pub open spec fn is_done(&self) -> bool {
        self.quiet() && self.work is Done
    }

    /// A message is sent and nothing is to be done.
    pub open spec fn only_sends(&self, message: ClientMessage) -> bool {
        self.send@ == seq![message] && self.work is Done && !self.clear_draft
    }

    /// Nothing is sent and nothing is to be done.
    pub fn done() -> (out: Self)
        ensures
            out.is_done(),
    {
        Step { send: Vec::new(), work: Work::Done, clear_draft: false }
    }

    /// Nothing is sent, and this is to be done.
    pub fn work(work: Work) -> (out: Self)
        ensures
            out.quiet(),
            out.work == work,
    {
        Step { send: Vec::new(), work, clear_draft: false }
    }

    /// A change is to be made durable.
    pub fn save(change: Change, next: AfterSave) -> (out: Self)
        ensures
            out.quiet(),
            out.work == (Work::Save { change, next }),
    {
        Step::work(Work::Save { change, next })
    }

    /// A message is sent and nothing is to be done.
    pub fn only_send(message: ClientMessage) -> (out: Self)
        ensures
            out.only_sends(message),
    {
        let mut send: Vec<ClientMessage> = Vec::new();
        send.push(message);
        assert(send@ =~= seq![message]);
        Step { send, work: Work::Done, clear_draft: false }
    }
}

} // verus!
