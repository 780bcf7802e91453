//! What becomes of a message that is received or written, stated of the
//! functions that take it from step to step.

use super::app::App;
use super::chat::{ChatEntry, MessageDirection, StoredMessage};
use super::crypto_mgr::{Change, CryptoManager, PeerSession};
use super::error::CryptoError;
use super::input::{Focus, Window};
use super::steps::{AfterSave, AfterStore, AfterTrack, Batch, Clock, Step, Work};
use super::view::Scroll;
use crate::protocol::{
    ClientMessage, EncryptedEnvelope, InboundMessage, InvalidUserId, MessageHeader, MessageId,
    ServerMessage, UserId,
};
use vstd::prelude::*;
use vstd::string::*;

verus! {

use super::keeping::room_for;
use super::responses::{idle, says, sends_only, works};
use crate::encoding::{json_items, json_list};
use crate::protocol::types::{is_random_uuid, uuid_text};
use crate::text::white_space;
use vstd::utf8::encode_utf8;

/// The open conversation is with this user.
pub open spec fn is_open(app: App, name: Seq<char>) -> bool {
    app.target_user is Some && app.target_user->0@ == name
}

/// The history of `after` is that of `before` with a received text behind it
/// if the conversation with its sender is open, and else the same.
pub open spec fn adds_received(before: App, after: App, sender: Seq<char>, text: Seq<char>) -> bool {
    &&& is_open(before, sender) ==> after.chat_history@.len() == before.chat_history@.len() + 1
        && after.chat_history@.drop_last() == before.chat_history@ && (
    after.chat_history@.last() matches ChatEntry::Received { sender: from, text: body } && from@
        == sender && body@ == text)
    &&& !is_open(before, sender) ==> after.chat_history == before.chat_history
}

/// The work stores a received message under its identifier, with its text.
pub open spec fn stores_received(
    work: Work,
    message: InboundMessage,
    text: Seq<char>,
    batch: Batch,
) -> bool {
    work matches Work::Store { peer, direction, message_id, body, next } && peer@
        == message.sender_id@ && direction == MessageDirection::Received && message_id
        == message.message_id && body@ == text && (next matches AfterStore::Inbound {
        message: of,
        text: shown,
        batch: with,
    } && of == message && shown@ == text && with == batch)
}

/// A message of another protocol version cannot be read: so it says where it
/// would be, it is not acknowledged, and the rest goes on.
pub proof fn law_unreadable_message_is_told(
    app: &mut App,
    batch: Batch,
    clock: Clock,
    out: Step,
)
    requires
        call_ensures(App::read_next, (app, batch, clock), out),
        batch.rest@.len() > 0,
        batch.rest@[0].envelope.version != 2,
    ensures
        works(out),
        out.work matches Work::More(rest) && rest.rest@ == batch.rest@.skip(1) && rest.acks@
            == batch.acks@ && rest.live == batch.live && rest.fresh == batch.fresh,
        adds_received(
            *old(app),
            *final(app),
            batch.rest@[0].sender_id@,
            "[undecryptable message]"@,
        ),
        final(app).crypto == old(app).crypto,
        *final(app) == (App { chat_history: final(app).chat_history, ..*old(app) }),
{
}

/// A message that is known and stored is acknowledged again, and shown no
/// second time.
pub proof fn law_known_message_is_acknowledged(
    app: &mut App,
    batch: Batch,
    clock: Clock,
    out: Step,
)
    requires
        call_ensures(App::read_next, (app, batch, clock), out),
        batch.rest@.len() > 0,
        batch.rest@[0].envelope.version == 2,
        ({
            let key = (batch.rest@[0].sender_id@, uuid_text(batch.rest@[0].message_id@));
            &&& old(app).crypto.processed_messages@.contains_key(key)
            &&& old(app).crypto.processed_messages@[key].pending_plaintext is None
        }),
    ensures
        *final(app) == *old(app),
        works(out),
        out.work matches Work::More(rest) && rest.rest@ == batch.rest@.skip(1) && rest.acks@
            == batch.acks@.push(batch.rest@[0].message_id) && rest.live == batch.live && rest.fresh
            == batch.fresh,
{
}

/// Of a message that is read nothing is shown, acknowledged or sent before it
/// is saved; the others of its batch wait their turn.
pub proof fn law_message_is_saved_first(app: &mut App, batch: Batch, clock: Clock, out: Step)
    requires
        call_ensures(App::read_next, (app, batch, clock), out),
        batch.rest@.len() > 0,
    ensures
        works(out),
        out.work matches Work::Save { next, .. } ==> (next matches AfterSave::Open {
            message,
            batch: rest,
            ..
        } && message == batch.rest@[0] && rest.rest@ == batch.rest@.skip(1) && rest.acks@
            == batch.acks@ && rest.live == batch.live && rest.fresh == batch.fresh)
            && *final(app) == (App { crypto: final(app).crypto, ..*old(app) }),
        final(app).pending_msg_ids == old(app).pending_msg_ids,
        final(app).unread_messages == old(app).unread_messages,
        final(app).notice == old(app).notice,
        final(app).target_user == old(app).target_user,
{
}

/// A message that is saved goes into the history: at once, or, where it shows
/// an identity key, once that has been compared. One that could not be saved
/// is told as unreadable and not acknowledged.
pub proof fn law_saved_message_is_stored(
    app: &mut App,
    message: InboundMessage,
    text: String,
    batch: Batch,
    outcome: Result<(), CryptoError>,
    clock: Clock,
    out: Step,
    other: &mut App,
    warning: Option<String>,
    compared: Step,
)
    requires
        call_ensures(
            App::saved,
            (app, AfterSave::Open { message, text, batch }, outcome, clock),
            out,
        ),
        call_ensures(
            App::compared,
            (other, AfterTrack::Inbound { message, text, batch }, warning, clock),
            compared,
        ),
    ensures
        works(out),
        outcome is Ok ==> *final(app) == *old(app) && (match message.envelope.header {
            MessageHeader::PreKey { sender_identity_key, .. } => out.work matches Work::Track {
                peer,
                identity_key,
                next,
            } && peer@ == message.sender_id@ && identity_key@ == sender_identity_key@ && (
            next matches AfterTrack::Inbound { message: of, text: body, batch: with } && of
                == message && body@ == text@ && with == batch),
            MessageHeader::Ratchet(_) => stores_received(out.work, message, text@, batch),
        }),
        outcome is Err ==> adds_received(
            *old(app),
            *final(app),
            message.sender_id@,
            "[undecryptable message]"@,
        ) && out.work == Work::More(batch),
        works(compared),
        stores_received(compared.work, message, text@, batch),
        warning is None ==> *final(other) == *old(other),
        warning matches Some(said) ==> final(other).identity_warnings@.contains_key(
            message.sender_id@,
        ) && final(other).identity_warnings@[message.sender_id@]@ == said@,
{
}

/// A message that is stored, for the first time or not, is not needed in the
/// ledger any longer; one that could not be stored comes again.
pub proof fn law_stored_message_is_settled(
    app: &mut App,
    message: InboundMessage,
    text: String,
    batch: Batch,
    stored: Option<bool>,
    clock: Clock,
    out: Step,
)
    requires
        call_ensures(
            App::stored,
            (app, AfterStore::Inbound { message, text, batch }, stored, clock),
            out,
        ),
    ensures
        *final(app) == *old(app),
        works(out),
        stored is None ==> out.work == Work::More(batch),
        stored matches Some(inserted) ==> (out.work matches Work::Save { change: made, next } && (
        next matches AfterSave::Show { message: of, text: body, inserted: is_new, batch: with }
            && of == message && body@ == text@ && is_new == inserted && with == batch)),
{
}

/// A message is shown once it is settled, if it is new and the conversation
/// with its sender is open. It is acknowledged exactly if it is settled. One
/// that waited on the server counts as unread; one that came live is marked
/// for reading.
pub proof fn law_settled_message_is_shown(
    app: &mut App,
    message: InboundMessage,
    text: String,
    inserted: bool,
    batch: Batch,
    outcome: Result<(), CryptoError>,
    clock: Clock,
    out: Step,
)
    requires
        call_ensures(
            App::saved,
            (app, AfterSave::Show { message, text, inserted, batch }, outcome, clock),
            out,
        ),
    ensures
        works(out),
        outcome is Err ==> *final(app) == *old(app) && out.work == Work::More(batch),
        outcome is Ok ==> (out.work matches Work::More(rest) && rest.rest == batch.rest
            && rest.acks@ == batch.acks@.push(message.message_id) && rest.live == batch.live && (
        if inserted && batch.live {
            rest.fresh == Some((message.sender_id, message.message_id))
        } else {
            rest.fresh == batch.fresh
        })),
        outcome is Ok && !inserted ==> *final(app) == *old(app),
        outcome is Ok && inserted ==> adds_received(
            *old(app),
            *final(app),
            message.sender_id@,
            text@,
        ),
        outcome is Ok && inserted && batch.live ==> final(app).unread_messages == old(app).unread_messages,
        outcome is Ok && inserted && !batch.live ==> final(app).unread_of(message.sender_id@) == (
        if old(app).unread_of(message.sender_id@).len() < 100 {
            old(app).unread_of(message.sender_id@).push(message.message_id)
        } else {
            old(app).unread_of(message.sender_id@)
        }),
        *final(app) == (App {
            chat_history: final(app).chat_history,
            unread_messages: final(app).unread_messages,
            ..*old(app)
        }),
{
}

/// Unread messages are remembered by sender, up to a hundred, in their order;
/// those of others stay as they are.
pub proof fn law_unread_is_remembered(app: &mut App, sender: &str, id: MessageId, other: Seq<char>)
    requires
        call_ensures(App::accumulate_unread, (app, sender, id), ()),
        other != sender@,
    ensures
        ({
            let before = if old(app).unread_messages@.contains_key(sender@) {
                old(app).unread_messages@[sender@]@
            } else {
                Seq::empty()
            };
            &&& final(app).unread_messages@.contains_key(sender@)
            &&& final(app).unread_messages@[sender@]@ == if before.len() < 100 {
                before.push(id)
            } else {
                before
            }
        }),
        final(app).unread_messages@.contains_key(other) <==> old(app).unread_messages@.contains_key(
            other,
        ),
        final(app).unread_messages@.contains_key(other) ==> final(app).unread_messages@[other]
            == old(app).unread_messages@[other],
        *final(app) == (App { unread_messages: final(app).unread_messages, ..*old(app) }),
{
}

/// When a batch is read through and nothing is to be acknowledged, a live
/// message opens the conversation with its sender if none is open, and else
/// nothing of it is forgotten; without a conversation nothing is marked as
/// read.
pub proof fn law_read_batch(app: &mut App, batch: Batch, clock: Clock, out: Step)
    requires
        call_ensures(App::read_next, (app, batch, clock), out),
        batch.rest@.len() == 0,
        batch.acks@.len() == 0,
    ensures
        batch.live && batch.fresh is None ==> *final(app) == *old(app) && idle(out),
        batch.live && batch.fresh is Some && old(app).target_user is None ==> *final(app) == *old(app) && works(out) && (out.work matches Work::Load { peer, fresh } && peer
            == (batch.fresh->0).0 && fresh == batch.fresh),
        !batch.live && old(app).target_user is None ==> *final(app) == *old(app) && idle(out),
        batch.live && batch.fresh is Some && old(app).target_user is Some && !(is_open(
            *old(app),
            (batch.fresh->0).0@,
        ) && old(app).crypto.sessions@.contains_key((batch.fresh->0).0@)) ==> idle(out) && final(app).unread_of((batch.fresh->0).0@) == (if old(app).unread_of(
            (batch.fresh->0).0@,
        ).len() < 100 {
            old(app).unread_of((batch.fresh->0).0@).push((batch.fresh->0).1)
        } else {
            old(app).unread_of((batch.fresh->0).0@)
        }),
        !batch.live && old(app).target_user is Some && old(app).unread_of(
            old(app).target_user->0@,
        ).len() == 0 ==> *final(app) == *old(app) && idle(out),
        final(app).chat_history == old(app).chat_history,
        out.send@.len() == 0,
{
}

/// What was read is acknowledged, all of it at once, before anything is marked
/// as read; if there is no room for that, it comes again.
pub proof fn law_read_batch_is_acknowledged(app: &mut App, batch: Batch, clock: Clock, out: Step)
    requires
        call_ensures(App::read_next, (app, batch, clock), out),
        batch.rest@.len() == 0,
        batch.acks@.len() > 0,
        super::keeping::room_for(old(app).crypto.pending_outbound@, batch.acks@.len() * 36),
    ensures
        *final(app) == *old(app),
        works(out),
        out.work matches Work::Save { next, .. } && (next matches AfterSave::Acknowledge {
            request,
            batch: with,
        } && with.acks@.len() == 0 && with.live == batch.live && with.fresh == batch.fresh && (
        request matches ClientMessage::Ack { ack_id, message_ids } && is_random_uuid(ack_id@)
            && message_ids@ == batch.acks@)),
{
    super::keeping::lemma_room(old(app).crypto.pending_outbound@, batch.acks@.len() * 36);
}

/// An acknowledgement is sent exactly if it is in the outbox for good, in front
/// of what follows.
pub proof fn law_acknowledgement_is_sent(
    app: &mut App,
    request: ClientMessage,
    batch: Batch,
    outcome: Result<(), CryptoError>,
    clock: Clock,
    out: Step,
)
    requires
        call_ensures(
            App::saved,
            (app, AfterSave::Acknowledge { request, batch }, outcome, clock),
            out,
        ),
    ensures
        outcome is Ok ==> out.send@.len() > 0 && out.send@[0] == request,
        batch.live && batch.fresh is None ==> *final(app) == *old(app) && out.work is Done
            && out.send@.len() == (if outcome is Ok {
            1int
        } else {
            0
        }),
        !out.clear_draft,
{
}

/// A read receipt is sent exactly if it is in the outbox for good; otherwise
/// the message counts as unread.
pub proof fn law_read_receipt_is_sent(
    app: &mut App,
    sender: UserId,
    id: MessageId,
    request: ClientMessage,
    outcome: Result<(), CryptoError>,
    clock: Clock,
    out: Step,
)
    requires
        call_ensures(
            App::saved,
            (app, AfterSave::Read { sender, message_id: id, request }, outcome, clock),
            out,
        ),
    ensures
        outcome is Ok ==> *final(app) == *old(app) && sends_only(out, request),
        outcome is Err ==> idle(out) && final(app).unread_of(sender@) == (if old(app).unread_of(
            sender@,
        ).len() < 100 {
            old(app).unread_of(sender@).push(id)
        } else {
            old(app).unread_of(sender@)
        }),
{
}

/// Once the receipt for what was unread of a peer is in the outbox for good, it
/// is sent, and nothing of that peer is unread, but all of any other still is.
pub proof fn law_unread_is_read(
    app: &mut App,
    target: UserId,
    request: ClientMessage,
    outcome: Result<(), CryptoError>,
    clock: Clock,
    out: Step,
)
    requires
        call_ensures(
            App::saved,
            (app, AfterSave::Flush { target, request, fresh: None }, outcome, clock),
            out,
        ),
    ensures
        outcome is Ok ==> sends_only(out, request) && final(app).unread_messages@ == old(app).unread_messages@.remove(target@),
        outcome is Err ==> *final(app) == *old(app) && idle(out),
        *final(app) == (App { unread_messages: final(app).unread_messages, ..*old(app) }),
{
}

/// A conversation is opened with whoever can have the name, and with nobody
/// else.
pub proof fn law_conversation_is_asked_for(
    app: &App,
    name: &str,
    out: Result<Step, InvalidUserId>,
)
    requires
        call_ensures(App::open_conversation, (app, name), out),
    ensures
        out is Ok <==> crate::server::guarantees::nameable(name@),
        out matches Ok(step) ==> works(step) && (step.work matches Work::Load { peer, fresh }
            && peer@ == name@ && fresh is None),
{
    crate::server::guarantees::lemma_nameable(name@);
}

/// An opened conversation shows what is stored of it, oldest first, and a
/// warning about its peer behind it; it is the one that is written to, from its
/// newest message on. A notice says how it stands, and the keys of a peer
/// without a session are asked for, where there is a connection.
pub proof fn law_conversation_is_opened(
    app: &mut App,
    peer: UserId,
    newest_first: Vec<StoredMessage>,
    clock: Clock,
    out: Step,
)
    requires
        call_ensures(App::loaded, (app, peer, newest_first, None, clock), out),
    ensures
        ({
            let count = newest_first@.len();
            let warned = old(app).identity_warnings@.contains_key(peer@);
            let own = peer@ == old(app).user_id@;
            let known = old(app).crypto.sessions@.contains_key(peer@);
            &&& final(app).target_user == Some(peer)
            &&& final(app).chat_history@.len() == count + (if warned {
                1int
            } else {
                0
            })
            &&& forall|i: int|
                0 <= i < count ==> (match #[trigger] final(app).chat_history@[i] {
                    ChatEntry::Sent(text) => newest_first@[count - 1 - i].direction
                        == MessageDirection::Sent && text == newest_first@[count - 1 - i].body,
                    ChatEntry::Received { sender, text } => newest_first@[count - 1 - i].direction
                        == MessageDirection::Received && text == newest_first@[count - 1 - i].body
                        && sender == newest_first@[count - 1 - i].peer_id,
                    _ => false,
                })
            &&& warned ==> (final(app).chat_history@.last() matches ChatEntry::Warning(text) && text@
                == old(app).identity_warnings@[peer@]@)
            &&& final(app).selected_conversation matches Some(name) && name@ == peer@
            &&& final(app).focus == Focus::Composer
            &&& final(app).window == Window::Closed
            &&& final(app).status_bar.typing is None
            &&& final(app).status_bar.connection == old(app).status_bar.connection
            &&& final(app).last_typing_sent is None
            &&& final(app).scroll == (Scroll { back: 0, last_max: None })
            &&& own ==> says(*final(app), "note to self"@, clock.millis) && idle(out)
            &&& !own && known ==> says(*final(app), "E2EE active with "@ + peer@, clock.millis)
            &&& !own && !known && old(app).authenticated ==> says(
                *final(app),
                "fetching keys for "@ + peer@ + "..."@,
                clock.millis,
            ) && sends_only(out, ClientMessage::FetchPreKeyBundle { target_user_id: peer })
            &&& !own && !known && !old(app).authenticated ==> says(
                *final(app),
                "waiting for server connection..."@,
                clock.millis,
            ) && idle(out)
            &&& final(app).crypto.pending_inits@ == if !own && !known {
                old(app).crypto.pending_inits@.insert(peer@, ())
            } else {
                old(app).crypto.pending_inits@
            }
            &&& final(app).crypto.sessions@ == old(app).crypto.sessions@
            &&& final(app).pending_msg_ids == old(app).pending_msg_ids
            &&& final(app).unread_messages == old(app).unread_messages
            &&& final(app).identity_warnings == old(app).identity_warnings
        }),
{
    let (switched, told) = if peer@ == old(app).user_id@ {
        choose|switched: App, told: App|
            {
                &&& switched.switched(*old(app), peer, newest_first@)
                &&& #[trigger] told.told(switched, "note to self"@, clock.millis)
                &&& final(app).goes_on(told, None, out)
            }
    } else if old(app).crypto.sessions@.contains_key(peer@) {
        choose|switched: App, told: App|
            {
                &&& switched.switched(*old(app), peer, newest_first@)
                &&& #[trigger] told.told(switched, "E2EE active with "@ + peer@, clock.millis)
                &&& final(app).flushes(told, peer, None, out)
            }
    } else {
        choose|switched: App, told: App|
            {
                &&& switched.switched(*old(app), peer, newest_first@)
                &&& #[trigger] told.waits_for_keys(switched, peer@, clock.millis)
                &&& exists|rest: Step|
                    {
                        &&& #[trigger] final(app).goes_on(told, None, rest)
                        &&& out.send@ == (if old(app).authenticated {
                            seq![ClientMessage::FetchPreKeyBundle { target_user_id: peer }]
                                + rest.send@
                        } else {
                            rest.send@
                        })
                        &&& out.work == rest.work
                        &&& out.clear_draft == rest.clear_draft
                    }
            }
    };
    assert(switched.switched(*old(app), peer, newest_first@));
    assert(final(app).chat_history == switched.chat_history);
    let count = newest_first@.len();
    assert forall|i: int| 0 <= i < count implies (match #[trigger] final(app).chat_history@[i] {
        ChatEntry::Sent(text) => newest_first@[count - 1 - i].direction == MessageDirection::Sent
            && text == newest_first@[count - 1 - i].body,
        ChatEntry::Received { sender, text } => newest_first@[count - 1 - i].direction
            == MessageDirection::Received && text == newest_first@[count - 1 - i].body && sender
            == newest_first@[count - 1 - i].peer_id,
        _ => false,
    }) by {
        super::chat::law_stored_message_is_shown(newest_first@[count - 1 - i]);
    }
}

/// A read receipt is shown once it is saved, if it lists messages; then it is
/// settled. Nothing else is shown of it.
pub proof fn law_receipt_is_shown(
    app: &mut App,
    sender: UserId,
    id: MessageId,
    text: String,
    outcome: Result<(), CryptoError>,
    clock: Clock,
    out: Step,
)
    requires
        call_ensures(
            App::saved,
            (app, AfterSave::OpenReceipt { sender, receipt_id: id, text }, outcome, clock),
            out,
        ),
    ensures
        ({
            let lists = json_items(encode_utf8(text@)) is Some;
            &&& outcome is Ok && lists ==> says(*final(app), "  \u{2713}\u{2713}"@, clock.millis)
                && works(out) && (out.work matches Work::Save { next, .. } && next == (
            AfterSave::ShowReceipt { receipt_id: id }))
            &&& !(outcome is Ok && lists) ==> *final(app) == *old(app) && idle(out)
        }),
        *final(app) == (App { notice: final(app).notice, ..*old(app) }),
{
}

/// A settled receipt is acknowledged, for itself alone, if there is room.
pub proof fn law_receipt_is_acknowledged(
    app: &mut App,
    id: MessageId,
    outcome: Result<(), CryptoError>,
    clock: Clock,
    out: Step,
)
    requires
        call_ensures(
            App::saved,
            (app, AfterSave::ShowReceipt { receipt_id: id }, outcome, clock),
            out,
        ),
    ensures
        *final(app) == *old(app),
        works(out),
        super::keeping::room_for(old(app).crypto.pending_outbound@, 36) ==> (
        out.work matches Work::Save { next, .. } && (next matches AfterSave::Send(
            ClientMessage::AckReadReceipt { ack_id, receipt_ids },
        ) && is_random_uuid(ack_id@) && receipt_ids@ == seq![id])),
        !super::keeping::room_for(old(app).crypto.pending_outbound@, 36) ==> out.work is Done,
{
    super::keeping::lemma_room(old(app).crypto.pending_outbound@, 36);
}

/// `inner` is what is left of `text` without white space at its ends.
pub open spec fn stripped(text: Seq<char>, inner: Seq<char>, from: int) -> bool {
    &&& 0 <= from
    &&& from + inner.len() <= text.len()
    &&& inner == text.subrange(from, from + inner.len())
    &&& forall|i: int| 0 <= i < from ==> white_space(#[trigger] text[i])
    &&& forall|i: int| from + inner.len() <= i < text.len() ==> white_space(#[trigger] text[i])
    &&& inner.len() > 0 ==> !white_space(inner[0]) && !white_space(inner.last())
}

pub proof fn lemma_stripped(text: Seq<char>, inner: Seq<char>, from: int, other: Seq<char>)
    requires
        stripped(text, inner, from),
        super::input::is_trimmed(other, text),
    ensures
        other == inner,
{
    let (start, end) = choose|start: int, end: int|
        {
            &&& 0 <= start <= end <= text.len()
            &&& other == #[trigger] text.subrange(start, end)
            &&& forall|i: int| 0 <= i < start ==> white_space(#[trigger] text[i])
            &&& forall|i: int| end <= i < text.len() ==> white_space(#[trigger] text[i])
            &&& start < end ==> !white_space(text[start]) && !white_space(text[end - 1])
        };
    let until = from + inner.len();
    if inner.len() > 0 {
        assert(inner[0] == text[from]);
        assert(inner.last() == text[until - 1]);
        assert(start <= from && until <= end);
        assert(!(start < from));
        assert(!(until < end));
    } else if start < end {
        assert(!white_space(text[start]));
        assert(start < from || start >= until);
    }
    assert(other =~= inner);
}

/// A draft of white space is no draft: nothing happens. Without a conversation,
/// a session or a connection nothing is sent either, but the user is told why;
/// a note goes into the history without any of these.
pub proof fn law_draft_that_is_not_sent(
    app: &mut App,
    draft: &str,
    clock: Clock,
    out: Step,
    inner: Seq<char>,
    from: int,
)
    requires
        call_ensures(App::handle_enter, (app, draft, clock), out),
        stripped(draft@, inner, from),
    ensures
        ({
            let target = old(app).target_user;
            let name = target->0@;
            let own = name == old(app).user_id@;
            let known = old(app).crypto.sessions@.contains_key(name);
            let open = inner.len() > 0 && target is Some;
            &&& inner.len() == 0 ==> *final(app) == *old(app) && idle(out)
            &&& inner.len() > 0 && target is None ==> idle(out) && says(
                *final(app),
                "choose a conversation before sending"@,
                clock.millis,
            )
            &&& open && own ==> *final(app) == *old(app) && works(out) && (
            out.work matches Work::Store { peer, direction, message_id, body, next } && peer@
                == name && direction == MessageDirection::Sent && is_random_uuid(message_id@)
                && body@ == inner && (next matches AfterStore::Note { text } && text@ == inner))
            &&& open && !own && !known ==> idle(out) && says(
                *final(app),
                "waiting for session establishment..."@,
                clock.millis,
            )
            &&& open && !own && known && !old(app).authenticated ==> idle(out) && says(
                *final(app),
                "waiting for server connection..."@,
                clock.millis,
            )
        }),
        *final(app) == (App { notice: final(app).notice, ..*old(app) }),
        works(out),
{
    let text = choose|text: String| #[trigger]
        super::input::is_trimmed(text@, draft@) && final(app).takes_draft(
            *old(app),
            text,
            clock,
            out,
        );
    lemma_stripped(draft@, inner, from, text@);
}

/// A draft in a conversation with a session and a connection is encrypted as it
/// was written, without white space at its ends, under a new identifier; unless
/// the session is too old for its first message, which is told by dropping it,
/// or the draft is too long, which is told.
pub proof fn law_draft_is_sent(
    app: &mut App,
    draft: &str,
    clock: Clock,
    out: Step,
    inner: Seq<char>,
    from: int,
)
    requires
        call_ensures(App::handle_enter, (app, draft, clock), out),
        stripped(draft@, inner, from),
        inner.len() > 0,
        old(app).target_user is Some,
        old(app).target_user->0@ != old(app).user_id@,
        old(app).crypto.sessions@.contains_key(old(app).target_user->0@),
        old(app).authenticated,
    ensures
        ({
            let target = old(app).target_user->0;
            let session = old(app).crypto.sessions@[target@];
            let stale = session.prekey_header is Some && session.prekey_expires_at is Some
                && session.prekey_expires_at->0 < clock.unix_secs;
            let long = (encode_utf8(inner).len() + 18) / 3 * 4 > 524_288;
            &&& stale ==> *final(app) == *old(app) && (out.work matches Work::Save { next, .. }
                && next == (AfterSave::Refresh { target }))
            &&& !stale && long ==> idle(out) && says(
                *final(app),
                "message too long"@,
                clock.millis,
            )
            &&& !stale && !long ==> (out.work is Save || idle(out))
            &&& !stale && out.work is Save ==> *final(app) == *old(app) && (
            out.work matches Work::Save { next, .. } && (next matches AfterSave::Encrypt {
                target: to,
                message_id,
                text,
                request,
            } && to == target && is_random_uuid(message_id@) && text@ == inner && (
            request matches ClientMessage::SendMessage { recipient_id, message_id: id, envelope }
                && recipient_id == target && id == message_id && super::encrypting::seals(
                envelope,
                crate::crypto::primitives::ed25519_public(old(app).crypto.identity@),
                session@,
                encode_utf8(inner),
            ))))
            &&& !stale && !long && idle(out) ==> final(app).notice is Some
        }),
        works(out),
        *final(app) == (App { notice: final(app).notice, ..*old(app) }),
{
    let text = choose|text: String| #[trigger]
        super::input::is_trimmed(text@, draft@) && final(app).takes_draft(
            *old(app),
            text,
            clock,
            out,
        );
    lemma_stripped(draft@, inner, from, text@);
}

/// An encrypted message that is in the outbox for good is sent, waited for
/// until it is delivered, and stored as the user's own. With ten thousand that
/// are waited for the older ones are forgotten.
pub proof fn law_encrypted_message_is_sent(
    app: &mut App,
    target: UserId,
    id: MessageId,
    text: String,
    request: ClientMessage,
    outcome: Result<(), CryptoError>,
    clock: Clock,
    out: Step,
)
    requires
        call_ensures(
            App::saved,
            (
                app,
                AfterSave::Encrypt { target, message_id: id, text, request },
                outcome,
                clock,
            ),
            out,
        ),
    ensures
        outcome is Ok ==> {
            &&& final(app).pending_msg_ids@.last() == id
            &&& old(app).pending_msg_ids@.len() < 10_000 ==> final(app).pending_msg_ids@ == old(app).pending_msg_ids@.push(id)
            &&& old(app).pending_msg_ids@.len() >= 10_000 ==> final(app).pending_msg_ids@.len() == 1
            &&& out.send@ == seq![request]
            &&& !out.clear_draft
            &&& out.work matches Work::Store { peer, direction, message_id, body, next } && peer@
                == target@ && direction == MessageDirection::Sent && message_id == id && body@
                == text@ && (next matches AfterStore::Sent { text: shown } && shown@ == text@)
            &&& *final(app) == (App { pending_msg_ids: final(app).pending_msg_ids, ..*old(app) })
        },
        outcome matches Err(error) ==> idle(out) && says(
            *final(app),
            "encrypt error: "@ + error.text(),
            clock.millis,
        ) && *final(app) == (App { notice: final(app).notice, ..*old(app) }),
{
}

/// The keys of a peer are asked for anew once an old session is gone for good.
pub proof fn law_old_session_is_refreshed(
    app: &mut App,
    target: UserId,
    outcome: Result<(), CryptoError>,
    clock: Clock,
    out: Step,
)
    requires
        call_ensures(App::saved, (app, AfterSave::Refresh { target }, outcome, clock), out),
    ensures
        outcome is Ok ==> sends_only(
            out,
            ClientMessage::FetchPreKeyBundle { target_user_id: target },
        ) && says(*final(app), "refreshing expired session keys..."@, clock.millis) && final(app).crypto.pending_inits@ == old(app).crypto.pending_inits@.insert(target@, ()),
        outcome matches Err(error) ==> idle(out) && says(
            *final(app),
            "session refresh failed: "@ + error.text(),
            clock.millis,
        ) && final(app).crypto == old(app).crypto,
        final(app).crypto.sessions@ == old(app).crypto.sessions@,
        *final(app) == (App {
            crypto: final(app).crypto,
            notice: final(app).notice,
            ..*old(app)
        }),
{
}

/// What the user has written is shown behind the history as it was written, and
/// the draft is cleared, when it is stored; of a message also where it could
/// not be stored, since it is sent.
pub proof fn law_written_is_shown(
    app: &mut App,
    text: String,
    stored: Option<bool>,
    clock: Clock,
    sent: Step,
    other: &mut App,
    note: Step,
)
    requires
        call_ensures(App::stored, (app, AfterStore::Sent { text }, stored, clock), sent),
        call_ensures(App::stored, (other, AfterStore::Note { text }, stored, clock), note),
    ensures
        final(app).chat_history@ == old(app).chat_history@.push(ChatEntry::Sent(text)),
        *final(app) == (App { chat_history: final(app).chat_history, ..*old(app) }),
        sent.clear_draft && sent.send@.len() == 0 && sent.work is Done,
        stored is Some ==> final(other).chat_history@ == old(other).chat_history@.push(
            ChatEntry::Sent(text),
        ) && note.clear_draft,
        stored is None ==> idle(note) && final(other).chat_history == old(other).chat_history
            && says(*final(other), "failed to save note"@, clock.millis),
        note.send@.len() == 0 && note.work is Done,
{
}

/// A receipt for these messages, sealed in the session with this user.
pub open spec fn is_receipt_for(
    request: ClientMessage,
    app: App,
    to: UserId,
    names: Seq<Seq<char>>,
) -> bool {
    request matches ClientMessage::SendReadReceipt { recipient_id, receipt_id, envelope }
        && recipient_id == to && is_random_uuid(receipt_id@) && super::encrypting::seals(
        envelope,
        crate::crypto::primitives::ed25519_public(app.crypto.identity@),
        app.crypto.sessions@[to@]@,
        json_list(names),
    )
}

/// A live message that is being looked at is marked as read: a receipt for it
/// alone is saved, exactly if there can be one, and else it counts as unread.
pub proof fn law_open_message_is_marked_read(
    app: &mut App,
    batch: Batch,
    clock: Clock,
    out: Step,
    name: &str,
    ids: &Vec<MessageId>,
    receipt: Result<(ClientMessage, Change), CryptoError>,
)
    requires
        call_ensures(App::read_next, (app, batch, clock), out),
        batch.rest@.len() == 0,
        batch.acks@.len() == 0,
        batch.live,
        batch.fresh is Some,
        is_open(*old(app), (batch.fresh->0).0@),
        old(app).crypto.sessions@.contains_key((batch.fresh->0).0@),
        name@ == (batch.fresh->0).0@,
        ids@ == seq![(batch.fresh->0).1],
        call_ensures(
            CryptoManager::encrypt_read_receipt,
            (&old(app).crypto, name, &(batch.fresh->0).0, ids),
            receipt,
        ),
    ensures
        out.work is Save <==> receipt is Ok,
        out.work matches Work::Save { next, .. } ==> *final(app) == *old(app) && works(out) && (
        next matches AfterSave::Read { sender, message_id, request } && sender == (batch.fresh->0).0
            && message_id == (batch.fresh->0).1 && is_receipt_for(
            request,
            *old(app),
            sender,
            seq![uuid_text(message_id@)],
        )),
        receipt is Err ==> idle(out) && final(app).unread_of(name@) == (if old(app).unread_of(
            name@,
        ).len() < 100 {
            old(app).unread_of(name@).push((batch.fresh->0).1)
        } else {
            old(app).unread_of(name@)
        }),
{
    let id = (batch.fresh->0).1;
    assert(super::encrypting::capped(seq![id]) =~= seq![id]);
    assert(super::encrypting::id_texts(seq![id]) =~= seq![uuid_text(id@)]);
}

/// What was unread in the open conversation is marked as read when queued
/// messages have been read: one receipt for the first hundred is saved, exactly
/// if there can be one, and else nothing happens.
pub proof fn law_unread_is_marked_read(
    app: &mut App,
    batch: Batch,
    clock: Clock,
    out: Step,
    name: &str,
    ids: &Vec<MessageId>,
    receipt: Result<(ClientMessage, Change), CryptoError>,
    names: Seq<Seq<char>>,
)
    requires
        call_ensures(App::read_next, (app, batch, clock), out),
        batch.rest@.len() == 0,
        batch.acks@.len() == 0,
        !batch.live,
        old(app).target_user is Some,
        name@ == old(app).target_user->0@,
        old(app).crypto.sessions@.contains_key(name@),
        old(app).unread_messages@.contains_key(name@),
        ids@ == old(app).unread_messages@[name@]@,
        ids@.len() > 0,
        call_ensures(
            CryptoManager::encrypt_read_receipt,
            (&old(app).crypto, name, &old(app).target_user->0, ids),
            receipt,
        ),
        names.len() == (if ids@.len() < 100 {
            ids@.len()
        } else {
            100
        }),
        forall|i: int| 0 <= i < names.len() ==> #[trigger] names[i] == uuid_text(ids@[i]@),
    ensures
        *final(app) == *old(app),
        works(out),
        out.work is Save <==> receipt is Ok,
        out.work matches Work::Save { next, .. } ==> (next matches AfterSave::Flush {
            target,
            request,
            fresh,
        } && target == old(app).target_user->0 && fresh is None && is_receipt_for(
            request,
            *old(app),
            target,
            names,
        )),
        receipt is Err ==> out.work is Done,
{
    assert(super::encrypting::id_texts(super::encrypting::capped(ids@)) =~= names);
}

/// A receipt of another protocol version is ignored, one that was read and
/// settled is acknowledged again, and one that is new is saved before it is
/// shown.
pub proof fn law_receipt_is_heard(
    app: &mut App,
    sender: UserId,
    id: MessageId,
    envelope: EncryptedEnvelope,
    clock: Clock,
    out: Step,
)
    requires
        call_ensures(
            App::handle_server_message,
            (
                app,
                ServerMessage::IncomingReadReceipt { sender_id: sender, receipt_id: id, envelope },
                clock,
            ),
            out,
        ),
    ensures
        ({
            let key = (sender@, uuid_text(id@));
            let known = old(app).crypto.processed_messages@.contains_key(key);
            let settled = known && old(app).crypto.processed_messages@[key].pending_plaintext is None;
            &&& envelope.version != 2 ==> *final(app) == *old(app) && idle(out)
            &&& envelope.version == 2 && settled ==> *final(app) == *old(app) && (
            super::keeping::room_for(old(app).crypto.pending_outbound@, 36) ==> (
            out.work matches Work::Save { next, .. } && (next matches AfterSave::Send(
                ClientMessage::AckReadReceipt { receipt_ids, .. },
            ) && receipt_ids@ == seq![id])))
            &&& envelope.version == 2 && !known ==> *final(app) == (App {
                crypto: final(app).crypto,
                ..*old(app)
            }) && (out.work is Done || (out.work matches Work::Save { next, .. } && (
            next matches AfterSave::OpenReceipt { sender: from, receipt_id, .. } && from == sender
                && receipt_id == id)))
        }),
        works(out),
        final(app).chat_history == old(app).chat_history,
        final(app).pending_msg_ids == old(app).pending_msg_ids,
{
    super::keeping::lemma_room(old(app).crypto.pending_outbound@, 36);
}

/// A draft that is not too long is refused only where there is no room in the
/// outbox or the session cannot encrypt it; either is told.
pub proof fn law_draft_is_refused_for_a_reason(
    app: &mut App,
    draft: &str,
    clock: Clock,
    out: Step,
    inner: Seq<char>,
    from: int,
    peer: &str,
    bytes: &[u8],
    sealed: Result<(PeerSession, EncryptedEnvelope), CryptoError>,
)
    requires
        call_ensures(App::handle_enter, (app, draft, clock), out),
        stripped(draft@, inner, from),
        inner.len() > 0,
        old(app).target_user is Some,
        old(app).target_user->0@ != old(app).user_id@,
        old(app).target_user->0@ == peer@,
        old(app).crypto.sessions@.contains_key(peer@),
        old(app).authenticated,
        !(old(app).crypto.sessions@[peer@].prekey_header is Some && old(app).crypto.sessions@[peer@].prekey_expires_at is Some
            && old(app).crypto.sessions@[peer@].prekey_expires_at->0 < clock.unix_secs),
        (encode_utf8(inner).len() + 18) / 3 * 4 <= 524_288,
        bytes@ == encode_utf8(inner),
        call_ensures(CryptoManager::advance_encryption, (&old(app).crypto, peer, bytes), sealed),
    ensures
        ({
            let room = room_for(old(app).crypto.pending_outbound@, bytes@.len());
            &&& out.work is Save <==> room && sealed is Ok
            &&& !room ==> idle(out) && says(
                *final(app),
                "encrypt error: "@ + "durable message queue is full"@,
                clock.millis,
            )
            &&& room && sealed is Err ==> idle(out) && says(
                *final(app),
                "encrypt error: "@ + "ratchet error"@,
                clock.millis,
            )
        }),
{
    let text = choose|text: String| #[trigger]
        super::input::is_trimmed(text@, draft@) && final(app).takes_draft(
            *old(app),
            text,
            clock,
            out,
        );
    lemma_stripped(draft@, inner, from, text@);
    super::keeping::lemma_room(old(app).crypto.pending_outbound@, bytes@.len());
}

} // verus!
