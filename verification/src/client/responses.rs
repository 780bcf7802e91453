//! What the client does with what it hears, stated of the functions that hear
//! it.

use super::app::App;
use super::chat::{
    compare_identity_key, history_from, message_text, split_lines, ChatEntry, IdentityKeyStatus,
    LineStyle, MessageDirection, ShownLine, StoredMessage,
};
use super::crypto_mgr::Change;
use super::error::CryptoError;
use super::outbox::PendingOutbound;
use super::reactions::{prekey_upload_status, AppEvent};
use super::status_bar::ConnectionStatus;
use super::steps::{AfterSave, AfterTrack, Clock, Step, Work};
use crate::protocol::{
    ClientMessage, InboundMessage, MessageId, PreKeyBundle, ServerMessage, UserId,
};
use vstd::prelude::*;
use vstd::string::*;

verus! {

use super::chat::text_of_lines;
use crate::encoding::texts;

/// The step asks for nothing: no message, no work, and the draft stays.
pub open spec fn idle(step: Step) -> bool {
    step.send@.len() == 0 && step.work is Done && !step.clear_draft
}

/// The step sends this message and asks for nothing else.
pub open spec fn sends_only(step: Step, message: ClientMessage) -> bool {
    step.send@.len() == 1 && step.send@[0] == message && step.work is Done && !step.clear_draft
}

/// The step asks for work and for nothing else.
pub open spec fn works(step: Step) -> bool {
    step.send@.len() == 0 && !step.clear_draft
}

/// The notice of the client says this, since this time.
pub open spec fn says(app: App, text: Seq<char>, millis: u64) -> bool {
    app.notice matches Some(notice) && notice.text@ == text && notice.created_at == millis
}

proof fn lemma_without(ids: Seq<MessageId>, gone: Seq<MessageId>)
    ensures
        forall|id: MessageId| #[trigger]
            super::reactions::without(ids, gone).contains(id) <==> ids.contains(id)
                && !gone.contains(id),
{
    let stays = |id: MessageId| !gone.contains(id);
    assert forall|id: MessageId| #[trigger]
        super::reactions::without(ids, gone).contains(id) <==> ids.contains(id) && !gone.contains(
            id,
        ) by {
        if ids.filter(stays).contains(id) {
            ids.lemma_filter_contains_rev(stays, id);
        }
        if ids.contains(id) && stays(id) {
            let i = choose|i: int| 0 <= i < ids.len() && ids[i] == id;
            ids.lemma_filter_contains(stays, i);
        }
    }
}

/// After a delivery notice an identifier is waited for exactly if it was waited
/// for before and the notice does not name it; those that stay keep their
/// order. A mark is shown exactly if the notice named one that was waited for,
/// and nothing else of the client changes.
pub proof fn law_delivery_notice(app: &mut App, ids: Vec<MessageId>, clock: Clock, out: Step)
    requires
        call_ensures(
            App::handle_server_message,
            (app, ServerMessage::MessageDelivered { message_ids: ids }, clock),
            out,
        ),
    ensures
        forall|id: MessageId| #[trigger]
            final(app).pending_msg_ids@.contains(id) <==> old(app).pending_msg_ids@.contains(id)
                && !ids@.contains(id),
        final(app).pending_msg_ids@ == old(app).pending_msg_ids@.filter(
            |id: MessageId| !ids@.contains(id),
        ),
        (exists|id: MessageId| #[trigger]
            ids@.contains(id) && old(app).pending_msg_ids@.contains(id)) ==> says(
            *final(app),
            "  \u{2713}"@,
            clock.millis,
        ),
        (forall|id: MessageId| #[trigger]
            ids@.contains(id) ==> !old(app).pending_msg_ids@.contains(id)) ==> *final(app)
            == *old(app),
        *final(app) == (App {
            pending_msg_ids: final(app).pending_msg_ids,
            notice: final(app).notice,
            ..*old(app)
        }),
        idle(out),
{
    let before = old(app).pending_msg_ids@;
    let stays = |id: MessageId| !ids@.contains(id);
    lemma_without(before, ids@);
    if super::reactions::overlap(ids@, before) {
        let i = choose|i: int| 0 <= i < ids@.len() && before.contains(#[trigger] ids@[i]);
        assert(ids@.contains(ids@[i]));
    } else {
        assert forall|id: MessageId| ids@.contains(id) implies !before.contains(id) by {
            let i = choose|i: int| 0 <= i < ids@.len() && ids@[i] == id;
            assert(!before.contains(ids@[i]));
        }
        lemma_all_stay(before, stays);
    }
}

proof fn lemma_all_stay(ids: Seq<MessageId>, stays: spec_fn(MessageId) -> bool)
    requires
        forall|id: MessageId| ids.contains(id) ==> stays(id),
    ensures
        ids.filter(stays) == ids,
    decreases ids.len(),
{
    reveal(Seq::filter);
    if ids.len() > 0 {
        let rest = ids.drop_last();
        assert forall|id: MessageId| rest.contains(id) implies stays(id) by {
            let i = choose|i: int| 0 <= i < rest.len() && rest[i] == id;
            assert(ids.contains(ids[i]));
        }
        lemma_all_stay(rest, stays);
        assert(ids.contains(ids[ids.len() - 1]));
        assert(rest.push(ids.last()) =~= ids);
    } else {
        assert(ids.filter(stays) =~= ids);
    }
}

/// Messages come to be read in the order in which they came, one that was sent
/// just now as live, those that waited as not; nothing is acknowledged before
/// it is read.
pub proof fn law_messages_come_to_be_read(
    app: &mut App,
    inbound: InboundMessage,
    clock: Clock,
    live: Step,
    other: &mut App,
    messages: Vec<InboundMessage>,
    queued: Step,
)
    requires
        call_ensures(
            App::handle_server_message,
            (app, ServerMessage::IncomingMessage(inbound), clock),
            live,
        ),
        call_ensures(
            App::handle_server_message,
            (other, ServerMessage::QueuedMessages { messages }, clock),
            queued,
        ),
    ensures
        *final(app) == *old(app),
        works(live),
        live.work matches Work::More(batch) && batch.rest@.len() == 1 && batch.rest@[0] == inbound
            && batch.acks@.len() == 0 && batch.live && batch.fresh is None,
        *final(other) == *old(other),
        works(queued),
        queued.work matches Work::More(batch) && batch.rest@ == messages@ && batch.acks@.len() == 0
            && !batch.live && batch.fresh is None,
{
}

/// Who is typing is shown in the conversation with them, and nowhere else.
pub proof fn law_typing_is_shown(app: &mut App, sender: UserId, clock: Clock, out: Step)
    requires
        call_ensures(
            App::handle_server_message,
            (app, ServerMessage::PeerTyping { sender_id: sender }, clock),
            out,
        ),
    ensures
        idle(out),
        *final(app) == (App { status_bar: final(app).status_bar, ..*old(app) }),
        final(app).status_bar.connection == old(app).status_bar.connection,
        old(app).target_user matches Some(target) && target@ == sender@ ==> (final(app).status_bar.typing matches Some((who, since)) && who@ == sender@ && since
            == clock.millis),
        !(old(app).target_user matches Some(target) && target@ == sender@) ==> final(app).status_bar.typing == old(app).status_bar.typing,
{
}

/// An error of the server is shown with its text, and only shown.
pub proof fn law_error_is_shown(
    app: &mut App,
    code: u32,
    message: String,
    clock: Clock,
    out: Step,
)
    requires
        call_ensures(
            App::handle_server_message,
            (app, ServerMessage::Error { code, message }, clock),
            out,
        ),
    ensures
        idle(out),
        *final(app) == (App { notice: final(app).notice, ..*old(app) }),
        says(*final(app), "server error: "@ + message@, clock.millis),
{
}

/// Messages of the login are none of the client's business: they change nothing
/// and ask for nothing.
pub proof fn law_rest_is_ignored(app: &mut App, message: ServerMessage, clock: Clock, out: Step)
    requires
        call_ensures(App::handle_server_message, (app, message, clock), out),
        message is Challenge || message is AuthSuccess || message is AuthFailure
            || message is Success,
    ensures
        idle(out),
        *final(app) == *old(app),
{
}

/// That a message or a receipt was taken in is confirmed to the server, for
/// that one alone, once it has been noted.
pub proof fn law_taken_in_is_confirmed(
    app: &mut App,
    id: MessageId,
    clock: Clock,
    message: Step,
    other: &mut App,
    receipt: Step,
)
    requires
        call_ensures(
            App::handle_server_message,
            (app, ServerMessage::MessageSent { message_id: id }, clock),
            message,
        ),
        call_ensures(
            App::handle_server_message,
            (other, ServerMessage::ReadReceiptSent { receipt_id: id }, clock),
            receipt,
        ),
    ensures
        *final(app) == *old(app),
        works(message),
        message.work matches Work::Save { next, .. } && (next matches AfterSave::Send(
            ClientMessage::AckMessageSent { message_ids },
        ) && message_ids@ == seq![id]),
        *final(other) == *old(other),
        works(receipt),
        receipt.work matches Work::Save { next, .. } && (next matches AfterSave::Send(
            ClientMessage::AckReadReceiptSent { receipt_ids },
        ) && receipt_ids@ == seq![id]),
{
}

/// What the connection does is shown; to be logged in is to have been let in
/// and not to have lost the connection since. What is sent and not delivered is
/// forgotten with the connection, and nothing else is.
pub proof fn law_connection_is_shown(app: &mut App, event: AppEvent, clock: Clock, out: Step)
    requires
        call_ensures(App::handle_app_event, (app, event, clock), out),
        event !is Server,
    ensures
        final(app).authenticated == (event is Authenticated || (old(app).authenticated && (event
            is Connecting || event is Connected))),
        event is Connecting ==> final(app).status_bar.connection == Some(
            ConnectionStatus::Connecting,
        ),
        event is Connected ==> final(app).status_bar.connection == Some(
            ConnectionStatus::Authenticating,
        ),
        event is Authenticated ==> final(app).status_bar.connection == Some(
            ConnectionStatus::Authenticated(clock.millis),
        ),
        event matches AppEvent::AuthFailed(reason) ==> final(app).status_bar.connection == Some(
            ConnectionStatus::AuthFailed(reason),
        ),
        event is Disconnected ==> final(app).status_bar.connection == Some(
            ConnectionStatus::Disconnected,
        ),
        event is Disconnected ==> final(app).pending_msg_ids@.len() == 0,
        event !is Disconnected ==> final(app).pending_msg_ids == old(app).pending_msg_ids,
        final(app).status_bar.typing == old(app).status_bar.typing,
        *final(app) == (App {
            authenticated: final(app).authenticated,
            status_bar: final(app).status_bar,
            pending_msg_ids: final(app).pending_msg_ids,
            ..*old(app)
        }),
        event !is Authenticated ==> idle(out),
{
}

/// A message of the server comes through unchanged as an event.
pub proof fn law_server_messages_come_through(
    app: &mut App,
    message: ServerMessage,
    clock: Clock,
    out: Step,
)
    requires
        call_ensures(App::handle_app_event, (app, AppEvent::Server(message), clock), out),
    ensures
        final(app).reacts(*old(app), message, clock, out),
{
}

/// What was to be sent once a change is durable is sent exactly if it is.
pub proof fn law_sent_once_saved(
    app: &mut App,
    request: ClientMessage,
    outcome: Result<(), CryptoError>,
    clock: Clock,
    out: Step,
    other: &mut App,
    nothing: Step,
)
    requires
        call_ensures(App::saved, (app, AfterSave::Send(request), outcome, clock), out),
        call_ensures(App::saved, (other, AfterSave::Nothing, outcome, clock), nothing),
    ensures
        *final(app) == *old(app),
        outcome is Ok ==> sends_only(out, request),
        outcome is Err ==> idle(out),
        *final(other) == *old(other),
        idle(nothing),
{
}

/// What became of uploaded pre-keys is told with their number, if it could be
/// noted.
pub proof fn law_upload_is_told(
    app: &mut App,
    accepted: bool,
    remaining: u32,
    outcome: Result<(), CryptoError>,
    clock: Clock,
    out: Step,
    text: String,
)
    requires
        call_ensures(
            App::saved,
            (app, AfterSave::Upload { accepted, remaining }, outcome, clock),
            out,
        ),
        call_ensures(prekey_upload_status, (accepted, remaining), text),
    ensures
        idle(out),
        outcome is Err ==> *final(app) == *old(app),
        outcome is Ok ==> *final(app) == (App { notice: final(app).notice, ..*old(app) }) && says(
            *final(app),
            text@,
            clock.millis,
        ),
        accepted ==> text@ == "one-time pre-keys replenished"@ + " ("@ + crate::text::decimal(
            remaining as nat,
        ) + " available)"@,
        !accepted ==> text@ == "pre-key upload rejected"@ + " ("@ + crate::text::decimal(
            remaining as nat,
        ) + " available)"@,
{
}

/// New pre-keys are offered to the server once they are kept for good, and not
/// before.
pub proof fn law_keys_are_offered_once_kept(
    app: &mut App,
    request: ClientMessage,
    remaining: u32,
    outcome: Result<(), CryptoError>,
    clock: Clock,
    out: Step,
)
    requires
        call_ensures(
            App::saved,
            (app, AfterSave::Replenish { request, remaining }, outcome, clock),
            out,
        ),
    ensures
        *final(app) == (App { notice: final(app).notice, ..*old(app) }),
        outcome is Ok ==> sends_only(out, request) && says(
            *final(app),
            "replenishing one-time pre-keys ("@ + crate::text::decimal(remaining as nat)
                + " remaining)"@,
            clock.millis,
        ),
        outcome matches Err(error) ==> idle(out) && says(
            *final(app),
            "pre-key replenishment failed: "@ + error.text(),
            clock.millis,
        ),
{
}

/// What became of a rotation is told once it is settled, and the rotation that
/// takes its place is sent.
pub proof fn law_rotation_is_told(
    app: &mut App,
    accepted: bool,
    replacement: Option<ClientMessage>,
    outcome: Result<(), CryptoError>,
    clock: Clock,
    out: Step,
)
    requires
        call_ensures(
            App::saved,
            (app, AfterSave::Rotate { accepted, replacement }, outcome, clock),
            out,
        ),
    ensures
        *final(app) == (App { notice: final(app).notice, ..*old(app) }),
        outcome is Err ==> *final(app) == *old(app) && idle(out),
        outcome is Ok ==> match replacement {
            Some(request) => sends_only(out, request) && says(
                *final(app),
                "signed pre-key rotation reconciled; retrying"@,
                clock.millis,
            ),
            None => idle(out) && says(
                *final(app),
                if accepted {
                    "signed pre-key rotated"@
                } else {
                    "signed pre-key rotation rejected"@
                },
                clock.millis,
            ),
        },
{
}

/// A refused message is not waited for any longer, alone of all; a notice says
/// why; and the keys of its recipient are asked for anew, once the session is
/// gone for good.
pub proof fn law_refused_message_is_given_up(
    app: &mut App,
    recipient: UserId,
    id: MessageId,
    reason: String,
    outcome: Result<(), CryptoError>,
    clock: Clock,
    out: Step,
)
    requires
        call_ensures(
            App::saved,
            (app, AfterSave::Reject { recipient, message_id: id, reason }, outcome, clock),
            out,
        ),
    ensures
        forall|other: MessageId| #[trigger]
            final(app).pending_msg_ids@.contains(other) <==> old(app).pending_msg_ids@.contains(
                other,
            ) && other != id,
        says(*final(app), "message rejected; refreshing session: "@ + reason@, clock.millis),
        *final(app) == (App {
            crypto: final(app).crypto,
            pending_msg_ids: final(app).pending_msg_ids,
            notice: final(app).notice,
            ..*old(app)
        }),
        outcome is Ok ==> sends_only(
            out,
            ClientMessage::FetchPreKeyBundle { target_user_id: recipient },
        ) && final(app).crypto.pending_inits@ == old(app).crypto.pending_inits@.insert(
            recipient@,
            (),
        ),
        outcome is Err ==> idle(out) && final(app).crypto == old(app).crypto,
        final(app).crypto.sessions@ == old(app).crypto.sessions@,
        final(app).crypto.pending_outbound@ == old(app).crypto.pending_outbound@,
{
    lemma_without(old(app).pending_msg_ids@, seq![id]);
    assert forall|other: MessageId| #[trigger]
        final(app).pending_msg_ids@.contains(other) <==> old(app).pending_msg_ids@.contains(other)
            && other != id by {
        let one = seq![id];
        assert(one[0] == id);
        assert(one.contains(other) <==> other == id);
    }
}

/// A session that has started is told, its peer's identity key having been
/// compared, and the peer's keys are not waited for any longer.
pub proof fn law_session_is_established(
    app: &mut App,
    peer: UserId,
    identity_key: String,
    outcome: Result<(), CryptoError>,
    clock: Clock,
    begun: Step,
    later: &mut App,
    warning: Option<String>,
    ended: Step,
)
    requires
        call_ensures(
            App::saved,
            (app, AfterSave::StartSession { peer, identity_key }, outcome, clock),
            begun,
        ),
        call_ensures(App::compared, (later, AfterTrack::Session { peer }, warning, clock), ended),
    ensures
        outcome is Ok ==> {
            &&& *final(app) == (App { crypto: final(app).crypto, ..*old(app) })
            &&& final(app).crypto.pending_inits@ == old(app).crypto.pending_inits@.remove(peer@)
            &&& final(app).crypto.sessions@ == old(app).crypto.sessions@
            &&& works(begun)
            &&& begun.work matches Work::Track { peer: of, identity_key: key, next } && of@ == peer@
                && key == identity_key && next == (AfterTrack::Session { peer })
        },
        outcome matches Err(error) ==> idle(begun) && *final(app) == (App {
            notice: final(app).notice,
            ..*old(app)
        }) && says(*final(app), "session init failed: "@ + error.text(), clock.millis),
        idle(ended),
        says(
            *final(later),
            "E2EE session established with "@ + peer@ + " \u{1f512}"@,
            clock.millis,
        ),
        warning is None ==> *final(later) == (App { notice: final(later).notice, ..*old(later) }),
        warning matches Some(text) ==> final(later).identity_warnings@.contains_key(peer@) && final(later).identity_warnings@[peer@]@ == text@,
        forall|other: Seq<char>|
            other != peer@ ==> (#[trigger] final(later).identity_warnings@.contains_key(other)
                <==> old(later).identity_warnings@.contains_key(other)),
{
}

/// A changed identity key is shown in the conversation with its peer, behind
/// all that is there, or as a notice where another one is open; and it is
/// remembered either way.
pub proof fn law_changed_identity_is_shown(
    app: &mut App,
    peer: &str,
    warning: Option<String>,
    clock: Clock,
)
    requires
        call_ensures(App::track_peer_identity, (app, peer, warning, clock), ()),
    ensures
        warning is None ==> *final(app) == *old(app),
        warning matches Some(text) ==> {
            let open = old(app).target_user matches Some(target) && target@ == peer@;
            &&& final(app).identity_warnings@.contains_key(peer@)
            &&& final(app).identity_warnings@[peer@]@ == text@
            &&& final(app).identity_warnings@.remove(peer@) == old(app).identity_warnings@.remove(
                peer@,
            )
            &&& open ==> final(app).chat_history@ == old(app).chat_history@.push(
                ChatEntry::Warning(text),
            ) && final(app).notice == old(app).notice
            &&& !open ==> final(app).chat_history == old(app).chat_history && says(
                *final(app),
                "security alert for "@ + peer@,
                clock.millis,
            )
        },
        *final(app) == (App {
            identity_warnings: final(app).identity_warnings,
            chat_history: final(app).chat_history,
            notice: final(app).notice,
            ..*old(app)
        }),
{
    if warning is Some {
        assert(final(app).identity_warnings@.remove(peer@) =~= old(app).identity_warnings@.remove(
            peer@,
        ));
    }
}

/// Two keys of a peer are compared as they are: the first is new, the same is
/// unchanged, and another is told with the old one.
pub proof fn law_keys_are_compared(
    stored: Option<String>,
    key: &String,
    out: IdentityKeyStatus,
)
    requires
        call_ensures(compare_identity_key, (stored, key), out),
    ensures
        out is New <==> stored is None,
        out is Unchanged <==> (stored matches Some(old) && old@ == key@),
        out matches IdentityKeyStatus::Changed { old_key } ==> stored == Some(old_key) && old_key@
            != key@,
{
}

/// The lines of a text hold no line feed, and joined by line feeds they are the
/// text.
pub proof fn law_text_is_split(text: &str, out: Vec<String>)
    requires
        call_ensures(split_lines, (text,), out),
    ensures
        out@.len() > 0,
        text_of_lines(texts(out@)) == text@,
        forall|i: int| 0 <= i < out@.len() ==> !(#[trigger] out@[i])@.contains('\n'),
{
    super::chat::law_lines_are_the_text(text@);
    let lines = super::chat::lines_of(text@);
    assert(texts(out@).len() == out@.len());
    assert forall|i: int| 0 <= i < out@.len() implies !(#[trigger] out@[i])@.contains('\n') by {
        assert(texts(out@)[i] == out@[i]@);
        assert(!lines[i].contains('\n'));
    }
}

/// The texts of shown lines.
pub open spec fn line_texts(lines: Seq<ShownLine>) -> Seq<Seq<char>> {
    lines.map_values(|shown: ShownLine| shown.text@)
}

/// A conversation of one message is shown as the name of whoever wrote it and
/// its text, line by line: no line of the text holds a line feed, and joined by
/// line feeds they are the text.
pub proof fn law_one_message_is_shown(history: &Vec<ChatEntry>, out: Vec<ShownLine>)
    requires
        call_ensures(message_text, (history,), out),
        history@.len() == 1,
    ensures
        history@[0] matches ChatEntry::Received { sender, text } ==> out@.len() >= 2
            && out@[0].text@ == sender@ && out@[0].style == LineStyle::ReceivedName && text_of_lines(
            line_texts(out@.skip(1)),
        ) == text@ && forall|i: int|
            1 <= i < out@.len() ==> !(#[trigger] out@[i]).text@.contains('\n') && out@[i].style
                == LineStyle::ReceivedText,
        history@[0] matches ChatEntry::Sent(text) ==> out@.len() >= 2 && out@[0].text@ == "You"@
            && out@[0].style == LineStyle::SentName && text_of_lines(line_texts(out@.skip(1)))
            == text@ && forall|i: int|
            1 <= i < out@.len() ==> !(#[trigger] out@[i]).text@.contains('\n') && out@[i].style
                == LineStyle::SentText,
        history@[0] matches ChatEntry::Status(text) ==> out@.len() == 1 && out@[0].text@ == text@
            && out@[0].style == LineStyle::Status,
        history@[0] matches ChatEntry::Warning(text) ==> out@.len() == 1 && out@[0].text@
            == "\u{26a0} "@ + text@ && out@[0].style == LineStyle::Warning,
{
    let entry = history@[0];
    super::chat::law_history_in_order(history@, Seq::empty());
    let lines = super::chat::entry_lines(entry);
    assert(super::chat::line_views(out@) == lines);
    assert(lines.len() == out@.len());
    assert forall|i: int| 0 <= i < out@.len() implies lines[i].0 == (#[trigger] out@[i]).style
        && lines[i].1 == out@[i].text@ by {
        assert(super::chat::line_views(out@)[i] == (out@[i].style, out@[i].text@));
    }
    if entry is Sent || entry is Received {
        super::chat::law_message_is_shown_line_by_line(entry);
        assert(line_texts(out@.skip(1)) =~= super::chat::shown_texts(lines.skip(1)));
    }
}

/// A conversation is shown message by message: one that goes on after another
/// is shown behind it and a blank line; one without messages is blank.
pub proof fn law_conversation_is_shown_in_order(
    first: &Vec<ChatEntry>,
    second: &Vec<ChatEntry>,
    both: &Vec<ChatEntry>,
    a: Vec<ShownLine>,
    b: Vec<ShownLine>,
    c: Vec<ShownLine>,
)
    requires
        call_ensures(message_text, (first,), a),
        call_ensures(message_text, (second,), b),
        call_ensures(message_text, (both,), c),
        both@ == first@ + second@,
    ensures
        first@.len() == 0 ==> a@.len() == 0,
        first@.len() > 0 && second@.len() > 0 ==> {
            &&& c@.len() == a@.len() + 1 + b@.len()
            &&& forall|i: int|
                0 <= i < a@.len() ==> (#[trigger] c@[i]).style == a@[i].style && c@[i].text@
                    == a@[i].text@
            &&& c@[a@.len() as int].style == LineStyle::Blank
            &&& c@[a@.len() as int].text@.len() == 0
            &&& forall|i: int|
                0 <= i < b@.len() ==> (#[trigger] b@[i]).style == c@[a@.len() + 1 + i].style
                    && b@[i].text@ == c@[a@.len() + 1 + i].text@
        },
{
    super::chat::law_history_in_order(first@, second@);
    let x = super::chat::line_views(a@);
    let y = super::chat::line_views(b@);
    let z = super::chat::line_views(c@);
    assert(x.len() == a@.len() && y.len() == b@.len() && z.len() == c@.len());
    if first@.len() > 0 && second@.len() > 0 {
        assert forall|i: int| 0 <= i < a@.len() implies (#[trigger] c@[i]).style == a@[i].style
            && c@[i].text@ == a@[i].text@ by {
            assert(z[i] == x[i]);
        }
        assert(z[a@.len() as int] == (LineStyle::Blank, Seq::<char>::empty()));
        assert forall|i: int| 0 <= i < b@.len() implies (#[trigger] b@[i]).style == c@[a@.len() + 1
            + i].style && b@[i].text@ == c@[a@.len() + 1 + i].text@ by {
            assert(z[a@.len() + 1 + i] == y[i]);
        }
    }
}

/// The stored messages of a conversation, newest first, are shown oldest first,
/// each with its whole text on the side of whoever wrote it.
pub proof fn law_history_is_turned_round(newest_first: Vec<StoredMessage>, out: Vec<ChatEntry>)
    requires
        call_ensures(history_from, (newest_first,), out),
    ensures
        out@.len() == newest_first@.len(),
        forall|i: int|
            0 <= i < out@.len() ==> {
                let stored = newest_first@[out@.len() - 1 - i];
                match #[trigger] out@[i] {
                    ChatEntry::Sent(text) => stored.direction == MessageDirection::Sent && text
                        == stored.body,
                    ChatEntry::Received { sender, text } => stored.direction
                        == MessageDirection::Received && sender == stored.peer_id && text
                        == stored.body,
                    _ => false,
                }
            },
{
    assert forall|i: int| 0 <= i < out@.len() implies {
        let stored = newest_first@[out@.len() - 1 - i];
        match #[trigger] out@[i] {
            ChatEntry::Sent(text) => stored.direction == MessageDirection::Sent && text
                == stored.body,
            ChatEntry::Received { sender, text } => stored.direction == MessageDirection::Received
                && sender == stored.peer_id && text == stored.body,
            _ => false,
        }
    } by {
        super::chat::law_stored_message_is_shown(newest_first@[out@.len() - 1 - i]);
    }
}

/// A direction is read back as it was stored, sent ones as 0 and received ones
/// as 1, and nothing else is a direction.
pub proof fn law_direction_is_read_back(
    direction: MessageDirection,
    code: u8,
    read: Option<MessageDirection>,
    number: u8,
    other: Option<MessageDirection>,
)
    requires
        call_ensures(MessageDirection::code, (direction,), code),
        call_ensures(MessageDirection::from_code, (code,), read),
        call_ensures(MessageDirection::from_code, (number,), other),
    ensures
        read == Some(direction),
        code == 0 <==> direction == MessageDirection::Sent,
        code == 1 <==> direction == MessageDirection::Received,
        other is Some <==> number <= 1,
{
}

/// A bundle of keys starts a session exactly if it was waited for and is in
/// order: once that is saved its identity key is compared. What is wrong with a
/// bundle that was waited for is told, and any other is ignored.
pub proof fn law_bundle_starts_a_session(
    app: &mut App,
    peer: UserId,
    bundle: PreKeyBundle,
    clock: Clock,
    out: Step,
)
    requires
        call_ensures(
            App::handle_server_message,
            (app, ServerMessage::PreKeyBundleResponse { user_id: peer, bundle }, clock),
            out,
        ),
    ensures
        ({
            let waited = old(app).crypto.pending_inits@.contains_key(peer@);
            let whole = super::exchange::complete(bundle);
            let genuine = crate::crypto::primitives::ed25519_verifies(
                crate::encoding::base64_bytes(bundle.identity_key@)->0,
                crate::encoding::base64_bytes(bundle.signed_prekey@)->0,
                crate::encoding::base64_bytes(bundle.signed_prekey_signature@)->0,
            );
            &&& !waited ==> *final(app) == *old(app) && idle(out)
            &&& waited && whole && genuine ==> *final(app) == *old(app) && works(out) && (
            out.work matches Work::Save { change, next } && next == (AfterSave::StartSession {
                peer,
                identity_key: bundle.identity_key,
            }) && change.sessions.put@.len() == 1 && change.sessions.put@[0].0@ == peer@
                && change.sessions.take@.len() == 0 && change.outbox is Keep)
            &&& waited && !whole ==> idle(out) && says(
                *final(app),
                "session init failed: "@ + "invalid pre-key bundle"@,
                clock.millis,
            )
            &&& waited && whole && !genuine ==> idle(out) && says(
                *final(app),
                "session init failed: "@ + "key agreement failed"@,
                clock.millis,
            )
        }),
        *final(app) == (App { notice: final(app).notice, ..*old(app) }),
{
}

/// A refused message that waits is dropped with its session, and then given up;
/// one that does not wait is given up at once.
pub proof fn law_refusal_is_heard(
    app: &mut App,
    id: MessageId,
    reason: String,
    clock: Clock,
    out: Step,
)
    requires
        call_ensures(
            App::handle_server_message,
            (app, ServerMessage::MessageRejected { message_id: id, reason }, clock),
            out,
        ),
    ensures
        ({
            let waits = exists|i: int|
                0 <= i < old(app).crypto.pending_outbound@.len() && (#[trigger] old(app).crypto.pending_outbound@[i] matches PendingOutbound::Message {
                    message_id,
                    ..
                } && message_id == id);
            &&& waits ==> *final(app) == *old(app) && works(out) && (out.work matches Work::Save {
                next,
                ..
            } && (next matches AfterSave::Reject { message_id, reason: why, .. } && message_id == id
                && why == reason))
            &&& !waits ==> idle(out) && says(
                *final(app),
                "message rejected; refreshing session: "@ + reason@,
                clock.millis,
            ) && final(app).crypto == old(app).crypto
        }),
{
    let pending = old(app).crypto.pending_outbound@;
    let gone = choose|gone: Option<(UserId, Change)>|
        {
            &&& #[trigger] old(app).crypto.is_rejected(id, gone)
            &&& match gone {
                Some((recipient, change)) => {
                    &&& *final(app) == *old(app)
                    &&& out.quiet()
                    &&& out.work == (Work::Save {
                        change,
                        next: AfterSave::Reject { recipient, message_id: id, reason },
                    })
                },
                None => out.is_done() && final(app).shows_refusal(
                    *old(app),
                    id,
                    reason@,
                    clock.millis,
                ),
            }
        };
    match gone {
        Some((_, change)) => {
            let at = change.outbox->Remove_0 as int;
            assert(pending[at] matches PendingOutbound::Message { message_id, .. } && message_id
                == id);
        },
        None => {
            assert forall|i: int| 0 <= i < pending.len() implies !(#[trigger] pending[i] matches
                PendingOutbound::Message { message_id, .. } && message_id == id) by {
                assert(!pending[i].awaits(super::outbound::Awaited::Message, id));
            }
        },
    }
}

/// When pre-keys run low new ones are saved before they are offered; where that
/// cannot be, it is told.
pub proof fn law_low_keys_are_replenished(
    app: &mut App,
    remaining: u32,
    clock: Clock,
    out: Step,
)
    requires
        call_ensures(
            App::handle_server_message,
            (app, ServerMessage::PreKeyLow { remaining }, clock),
            out,
        ),
    ensures
        works(out),
        out.work is Save || out.work is Done,
        out.work matches Work::Save { next, .. } ==> *final(app) == *old(app) && (
        next matches AfterSave::Replenish { request, remaining: left } && left == remaining
            && request is UploadPreKeys),
        out.work is Done ==> final(app).notice is Some,
        ({
            let waits = exists|i: int|
                0 <= i < old(app).crypto.pending_outbound@.len() && (#[trigger] old(app).crypto.pending_outbound@[i]) is PreKeyUpload;
            out.work is Save <==> waits || (old(app).crypto.next_one_time_prekey_id + 100
                <= u32::MAX && super::keeping::room_for(
                old(app).crypto.pending_outbound@,
                4800,
            ))
        }),
        *final(app) == (App { notice: final(app).notice, ..*old(app) }),
{
    super::keeping::lemma_room(old(app).crypto.pending_outbound@, 4800);
}

/// The answers to uploads, rotations and acknowledgements are noted before
/// anything is told of them.
pub proof fn law_answers_are_noted(
    app: &mut App,
    id: MessageId,
    accepted: bool,
    remaining: u32,
    clock: Clock,
    upload: Step,
    other: &mut App,
    ids: Vec<MessageId>,
    ack: Step,
)
    requires
        call_ensures(
            App::handle_server_message,
            (app, ServerMessage::PreKeysUploaded { upload_id: id, accepted, remaining }, clock),
            upload,
        ),
        call_ensures(
            App::handle_server_message,
            (other, ServerMessage::AckSuccess { ack_id: id, message_ids: ids }, clock),
            ack,
        ),
    ensures
        *final(app) == *old(app),
        works(upload),
        upload.work matches Work::Save { next, .. } && next == (AfterSave::Upload {
            accepted,
            remaining,
        }),
        *final(other) == *old(other),
        works(ack),
        ack.work matches Work::Save { next, .. } && next is Nothing,
{
}

/// The answer to a rotation is noted before anything is told of it; one that
/// cannot be followed is ignored.
pub proof fn law_rotation_answer_is_noted(
    app: &mut App,
    id: MessageId,
    accepted: bool,
    before: bool,
    current: u32,
    clock: Clock,
    out: Step,
)
    requires
        call_ensures(
            App::handle_server_message,
            (
                app,
                ServerMessage::SignedPreKeyRotated {
                    rotation_id: id,
                    accepted,
                    previously_accepted: before,
                    current_key_id: current,
                },
                clock,
            ),
            out,
        ),
    ensures
        *final(app) == *old(app),
        works(out),
        out.work is Save || out.work is Done,
        accepted || current < u32::MAX ==> out.work is Save,
        out.work matches Work::Save { next, .. } ==> (next matches AfterSave::Rotate {
            accepted: same,
            replacement,
        } && same == accepted && (accepted ==> replacement is None)),
{
}

/// A login asks for everything unfinished, in the order of the outbox, and then
/// for the keys of exactly those whose keys are waited for; unless the signed
/// pre-key is due, which is replaced first.
pub proof fn law_login_resumes(app: &mut App, clock: Clock, out: Step, i: int, name: Seq<char>)
    requires
        call_ensures(App::handle_app_event, (app, AppEvent::Authenticated, clock), out),
        0 <= i < old(app).crypto.pending_outbound@.len(),
        crate::server::guarantees::nameable(name),
        clock.unix_secs < old(app).crypto.signed_prekey_rotated_at + 7 * 24 * 3600,
    ensures
        out.work is Done && !out.clear_draft,
        out.send@.len() >= old(app).crypto.pending_outbound@.len(),
        old(app).crypto.pending_outbound@[i] matches PendingOutbound::Message {
            recipient_id,
            message_id,
            envelope,
        } ==> out.send@[i] == (ClientMessage::SendMessage { recipient_id, message_id, envelope }),
        old(app).crypto.pending_outbound@[i] matches PendingOutbound::Ack { ack_id, message_ids }
            ==> (out.send@[i] matches ClientMessage::Ack { ack_id: id, message_ids: ids } && id
            == ack_id && ids@ == message_ids@),
        old(app).crypto.pending_inits@.contains_key(name) <==> exists|j: int|
            old(app).crypto.pending_outbound@.len() <= j < out.send@.len() && (
            #[trigger] out.send@[j] matches ClientMessage::FetchPreKeyBundle { target_user_id }
                && target_user_id@ == name),
{
    lemma_resumes(*final(app), out, i, name);
}

/// A client that resumes asks for everything unfinished.
proof fn lemma_resumes(app: App, out: Step, i: int, name: Seq<char>)
    requires
        app.resumes(out),
        0 <= i < app.crypto.pending_outbound@.len(),
        crate::server::guarantees::nameable(name),
    ensures
        out.send@.len() >= app.crypto.pending_outbound@.len(),
        app.crypto.pending_outbound@[i].asks(out.send@[i]),
        app.crypto.pending_inits@.contains_key(name) <==> exists|j: int|
            app.crypto.pending_outbound@.len() <= j < out.send@.len() && (
            #[trigger] out.send@[j] matches ClientMessage::FetchPreKeyBundle { target_user_id }
                && target_user_id@ == name),
{
    let pending = app.crypto.pending_outbound@;
    let peers = choose|peers: Seq<String>|
        {
            let names = #[trigger] App::addressable(peers);
            &&& super::sessions::lists(peers, app.crypto.pending_inits@)
            &&& super::sessions::in_byte_order(peers)
            &&& out.send@.len() == pending.len() + names.len()
            &&& forall|i: int| 0 <= i < pending.len() ==> (#[trigger] pending[i]).asks(out.send@[i])
            &&& forall|i: int|
                0 <= i < names.len() ==> super::reactions::is_fetch(
                    out.send@[pending.len() + i],
                    #[trigger] names[i],
                )
        };
    let names = App::addressable(peers);
    let valid = |name: Seq<char>| crate::protocol::types::valid_user_id(name);
    crate::server::guarantees::lemma_nameable(name);
    assert(pending[i].asks(out.send@[i]));
    assert(super::sessions::has_name(peers, name) <==> app.crypto.pending_inits@.contains_key(
        name,
    ));
    if super::sessions::has_name(peers, name) {
        let k = choose|k: int| 0 <= k < peers.len() && (#[trigger] peers[k])@ == name;
        assert(texts(peers)[k] == name);
        texts(peers).lemma_filter_contains(valid, k);
        let j = choose|j: int| 0 <= j < names.len() && names[j] == name;
        assert(super::reactions::is_fetch(out.send@[pending.len() + j], names[j]));
        assert(out.send@[pending.len() + j] matches ClientMessage::FetchPreKeyBundle {
            target_user_id,
        } && target_user_id@ == name);
    }
    if exists|j: int|
        pending.len() <= j < out.send@.len() && (
        #[trigger] out.send@[j] matches ClientMessage::FetchPreKeyBundle { target_user_id }
            && target_user_id@ == name) {
        let j = choose|j: int|
            pending.len() <= j < out.send@.len() && (
            #[trigger] out.send@[j] matches ClientMessage::FetchPreKeyBundle { target_user_id }
                && target_user_id@ == name);
        let at = j - pending.len();
        assert(super::reactions::is_fetch(out.send@[pending.len() + at], names[at]));
        assert(names.contains(names[at]));
        texts(peers).lemma_filter_contains_rev(valid, name);
        let k = choose|k: int| 0 <= k < texts(peers).len() && texts(peers)[k] == name;
        assert(peers[k]@ == name);
    }
}

/// From time to time a signed pre-key that is due is replaced, and nothing
/// happens otherwise, nor without a connection.
pub proof fn law_lifecycle(app: &App, clock: Clock, out: Step)
    requires
        call_ensures(App::handle_lifecycle_tick, (app, clock), out),
    ensures
        ({
            let waits = exists|i: int|
                0 <= i < app.crypto.pending_outbound@.len() && (
                #[trigger] app.crypto.pending_outbound@[i]) is SignedPreKeyRotation;
            let due = app.authenticated && app.crypto.stored_spk is Some && !waits
                && clock.unix_secs >= app.crypto.signed_prekey_rotated_at + 7 * 24 * 3600;
            let can = app.crypto.stored_spk->0.spec_key_id() < u32::MAX && super::keeping::room_for(
                app.crypto.pending_outbound@,
                96,
            );
            &&& out.work is Save <==> due && can
            &&& out.work !is Save ==> idle(out)
            &&& out.work matches Work::Save { change, next } ==> works(out) && (
            next matches AfterSave::Send(ClientMessage::RotateSignedPreKey { key_id, .. }) && key_id
                == app.crypto.stored_spk->0.spec_key_id() + 1) && change.outbox is Add
        }),
{
    super::keeping::lemma_room(app.crypto.pending_outbound@, 96);
}

/// A client without a history says so when it starts.
pub proof fn law_missing_history_is_told(app: &mut App, history: bool, clock: Clock)
    requires
        call_ensures(App::start, (app, history, clock), ()),
    ensures
        history ==> *final(app) == *old(app),
        !history ==> says(*final(app), "warning: message history unavailable"@, clock.millis)
            && *final(app) == (App { notice: final(app).notice, ..*old(app) }),
{
}

} // verus!
