//! What the user sees and what keys do, stated of the functions that decide it.

use super::app::App;
use super::chat::{ChatEntry, IdentityKeyStatus};
use super::command_popup::{Command, CommandPopup, PopupAction, PopupKey, PopupRow, COMMANDS};
use super::crypto_mgr::CryptoManager;
use super::input::{
    flatten, join, key_action, move_conversation_selection, new_chat_name, paste_action, trimmed,
    Focus, KeyAction, KeyCode, Modifiers, PasteAction, Window,
};
use super::net::{registration_request, Backoff, ConnectionEnd};
use super::reactions::AppEvent;
use super::status_bar::{ConnectionStatus, StatusBar, StatusPart, StatusStyle};
use super::steps::{Clock, Step, Work};
use super::verification::{
    clear_output, confirm_output, database_unavailable, decode_identity_key, format_verify_output,
    identity_warning, is_identity_key, resolve_safety_number, VerifyAction,
};
use super::view::{
    centered_rect, conversation_label, conversation_suffix, footer_text, header_subtitle,
    minimum_text, row_offset, screen, Area, Screen, Scroll, Standing,
};
use crate::crypto::fingerprint::Fingerprint;
use crate::crypto::keys::{IdentityKeyPair, OneTimePreKey, SignedPreKey};
use crate::protocol::{ClientMessage, UserId};
use vstd::prelude::*;
use vstd::string::*;

verus! {

use super::conversing::stripped;
use super::responses::{idle, says, works};
use crate::crypto::primitives::ed25519_public;
use crate::encoding::{base64_bytes, texts};
use crate::text::{decimal, white_space};

/// A notice is shown for five seconds and no longer, and only time takes it
/// away.
pub proof fn law_notice_goes_away(app: &mut App, text: &str, clock: Clock, later: &mut App, then: Clock)
    requires
        call_ensures(App::status, (app, text, clock), ()),
        call_ensures(App::tick_notice, (later, then), ()),
        *old(later) == *final(app),
    ensures
        says(*final(app), text@, clock.millis),
        *final(app) == (App { notice: final(app).notice, ..*old(app) }),
        final(later).notice is None <==> then.millis > clock.millis + 5000,
        final(later).notice is Some ==> *final(later) == *final(app),
        *final(later) == (App { notice: final(later).notice, ..*old(later) }),
{
}

/// Typing is told to the peer of a conversation with a session, who is not the
/// user, and not again for three seconds; and a notice goes away.
pub proof fn law_typing_is_told(app: &mut App, clock: Clock, out: Option<ClientMessage>)
    requires
        call_ensures(App::composer_changed, (app, clock), out),
    ensures
        ({
            let target = old(app).target_user;
            let due = target is Some && target->0@ != old(app).user_id@ && old(app).crypto.sessions@.contains_key(target->0@) && (old(app).last_typing_sent matches Some(sent) ==> clock.millis > sent + 3000);
            &&& due ==> out == Some(ClientMessage::Typing { recipient_id: target->0 }) && final(app).last_typing_sent == Some(clock.millis)
            &&& !due ==> out is None && final(app).last_typing_sent == old(app).last_typing_sent
        }),
        final(app).notice is None,
        *final(app) == (App {
            notice: None,
            last_typing_sent: final(app).last_typing_sent,
            ..*old(app)
        }),
{
}

/// The list of conversations starts with those in the history, names everyone
/// with whom there is something, and the user, and nobody else, and nobody
/// twice who is not there twice.
pub proof fn law_conversations_are_listed(
    app: &App,
    stored: Vec<String>,
    out: Vec<String>,
    name: Seq<char>,
)
    requires
        call_ensures(App::conversations, (app, stored), out),
    ensures
        texts(out@).contains(name) <==> (texts(stored@).contains(name)
            || app.crypto.sessions@.contains_key(name) || app.crypto.pending_inits@.contains_key(
            name,
        ) || app.unread_messages@.contains_key(name) || app.user_id@ == name),
        out@.len() >= stored@.len(),
        texts(out@).take(stored@.len() as int) == texts(stored@),
        texts(stored@).no_duplicates() ==> texts(out@).no_duplicates(),
{
    let (sessions, pending, unread) = choose|
        sessions: Seq<String>,
        pending: Seq<String>,
        unread: Seq<String>,
    |
        #![trigger texts(sessions), texts(pending), texts(unread)]
        {
            &&& super::sessions::lists(sessions, app.crypto.sessions@)
                && super::sessions::in_byte_order(sessions)
            &&& super::sessions::lists(pending, app.crypto.pending_inits@)
                && super::sessions::in_byte_order(pending)
            &&& super::sessions::lists(unread, app.unread_messages@)
                && super::sessions::in_byte_order(unread)
            &&& texts(out@) == super::app::with_new(
                super::app::with_new(
                    super::app::with_new(
                        super::app::with_new(texts(stored@), texts(sessions)),
                        texts(pending),
                    ),
                    texts(unread),
                ),
                seq![app.user_id@],
            )
        };
    super::app::law_conversations_are_complete(
        *app,
        texts(stored@),
        sessions,
        pending,
        unread,
        name,
    );
    let one = super::app::with_new(texts(stored@), texts(sessions));
    let two = super::app::with_new(one, texts(pending));
    let three = super::app::with_new(two, texts(unread));
    lemma_with_new_grows(texts(stored@), texts(sessions));
    lemma_with_new_grows(one, texts(pending));
    lemma_with_new_grows(two, texts(unread));
    lemma_with_new_grows(three, seq![app.user_id@]);
    let n = stored@.len() as int;
    assert(texts(out@).take(n) =~= three.take(n));
    assert(three.take(n) =~= two.take(n));
    assert(two.take(n) =~= one.take(n));
    assert(one.take(n) =~= texts(stored@));
}

proof fn lemma_with_new_grows(names: Seq<Seq<char>>, more: Seq<Seq<char>>)
    ensures
        super::app::with_new(names, more).len() >= names.len(),
        super::app::with_new(names, more).take(names.len() as int) == names,
        forall|i: int|
            0 <= i < names.len() ==> #[trigger] super::app::with_new(names, more)[i] == names[i],
        names.no_duplicates() ==> super::app::with_new(names, more).no_duplicates(),
    decreases more.len(),
{
    let all = super::app::with_new(names, more);
    if more.len() > 0 {
        lemma_with_new_grows(names, more.drop_last());
        let before = super::app::with_new(names, more.drop_last());
        assert forall|i: int| 0 <= i < names.len() implies #[trigger] all[i] == names[i] by {
            assert(before[i] == names[i]);
        }
        if names.no_duplicates() && !before.contains(more.last()) {
            assert forall|i: int, j: int|
                0 <= i < all.len() && 0 <= j < all.len() && i != j implies all[i] != all[j] by {
                if i == before.len() {
                    assert(before.contains(before[j]));
                } else if j == before.len() {
                    assert(before.contains(before[i]));
                }
            }
        }
    }
    assert(all.take(names.len() as int) =~= names);
}

/// The open conversation is the selected one, or else the first of the list;
/// and on a narrow screen the composer has the focus.
pub proof fn law_selection_follows(
    app: &mut App,
    conversations: &Vec<String>,
    other: &mut App,
    layout: Screen,
)
    requires
        call_ensures(App::sync_conversation_cursor, (app, conversations), ()),
        call_ensures(App::fit_focus, (other, layout), ()),
    ensures
        old(app).target_user matches Some(target) ==> (final(app).selected_conversation matches Some(name) && name@ == target@),
        old(app).target_user is None && conversations@.len() > 0 ==> (final(app).selected_conversation matches Some(name) && name@ == conversations@[0]@),
        old(app).target_user is None && conversations@.len() == 0 ==> final(app).selected_conversation is None,
        *final(app) == (App {
            selected_conversation: final(app).selected_conversation,
            ..*old(app)
        }),
        layout is Narrow ==> final(other).focus == Focus::Composer,
        !(layout is Narrow) ==> *final(other) == *old(other),
        *final(other) == (App { focus: final(other).focus, ..*old(other) }),
{
}

/// Only somebody else can be verified, and only in a conversation; a confirmed
/// contact is not warned about any longer, and all others still are.
pub proof fn law_verification(
    app: &mut App,
    clock: Clock,
    peer: Option<UserId>,
    other: &mut App,
    of: &UserId,
    action: VerifyAction,
    confirmed: bool,
    entries: Vec<ChatEntry>,
)
    requires
        call_ensures(App::verification_peer, (app, clock), peer),
        call_ensures(App::show_verification, (other, of, action, confirmed, entries), ()),
    ensures
        peer is Some <==> old(app).target_user is Some && old(app).target_user->0@ != old(app).user_id@,
        peer is Some ==> peer == old(app).target_user && *final(app) == *old(app),
        old(app).target_user is None ==> says(
            *final(app),
            "choose a conversation before verifying"@,
            clock.millis,
        ),
        old(app).target_user is Some && peer is None ==> says(
            *final(app),
            "note to self does not have a peer safety number"@,
            clock.millis,
        ),
        final(other).window == Window::Verification,
        final(other).verification@ == entries@,
        action == VerifyAction::Confirm && confirmed ==> final(other).identity_warnings@ == old(other).identity_warnings@.remove(of@),
        !(action == VerifyAction::Confirm && confirmed) ==> final(other).identity_warnings@ == old(other).identity_warnings@,
        *final(other) == (App {
            window: final(other).window,
            verification: final(other).verification,
            identity_warnings: final(other).identity_warnings,
            ..*old(other)
        }),
{
}

/// What the header says of a conversation: notes are private, a changed key is
/// an alert whatever else holds, and encrypted is what has a session.
pub proof fn law_standing(app: &App, out: Option<Standing>, line: &str)
    requires
        call_ensures(App::standing, (app,), out),
        out matches Some(standing) ==> call_ensures(header_subtitle, (standing,), line),
    ensures
        out is Some <==> app.target_user is Some,
        app.target_user matches Some(target) ==> {
            let own = target@ == app.user_id@;
            let alert = app.identity_warnings@.contains_key(target@);
            let sealed = app.crypto.sessions@.contains_key(target@);
            &&& own ==> line@ == "private notes on this device"@
            &&& !own && alert ==> line@ == "security alert: identity key changed"@
            &&& !own && !alert && sealed ==> line@ == "end-to-end encrypted"@
            &&& !own && !alert && !sealed ==> line@ == "establishing encrypted session"@
        },
{
}

/// Typing is shown for five seconds, and so is a login; any other state of the
/// connection stays.
pub proof fn law_status_goes_away(bar: &mut StatusBar, now: u64, ticks: bool, same: &StatusBar)
    requires
        call_ensures(StatusBar::tick, (bar, now), ()),
        call_ensures(StatusBar::needs_tick, (same,), ticks),
    ensures
        old(bar).typing matches Some((_, since)) ==> (final(bar).typing is None <==> now > since
            + 5000),
        final(bar).typing is Some ==> final(bar).typing == old(bar).typing,
        old(bar).connection matches Some(ConnectionStatus::Authenticated(since)) ==> (final(bar).connection is None <==> now > since + 5000),
        final(bar).connection is Some ==> final(bar).connection == old(bar).connection,
        !(old(bar).connection matches Some(ConnectionStatus::Authenticated(_))) ==> final(bar).connection == old(bar).connection,
        ticks <==> same.typing is Some || (same.connection matches Some(
            ConnectionStatus::Authenticated(_),
        )),
{
}

/// The status line says the state of the connection in these words, and who is
/// typing behind it.
pub proof fn law_status_line(bar: &StatusBar, now: u64, out: Vec<StatusPart>)
    requires
        call_ensures(StatusBar::parts, (bar, now), out),
    ensures
        ({
            let typing = bar.typing matches Some((_, since)) && now < since + 5000;
            let first = if bar.connection is Some {
                2int
            } else {
                0
            };
            &&& out@.len() == first + (if typing {
                2int
            } else {
                0
            })
            &&& bar.connection matches Some(status) ==> out@[0].text@ == "  "@ && (match status {
                ConnectionStatus::Connecting => out@[1].text@ == "connecting..."@,
                ConnectionStatus::Authenticating => out@[1].text@
                    == "connected, authenticating..."@,
                ConnectionStatus::Authenticated(_) => out@[1].text@ == "authenticated \u{2713}"@,
                ConnectionStatus::AuthFailed(reason) => out@[1].text@ == "auth failed: "@ + reason@
                    && out@[1].style == StatusStyle::Alert,
                ConnectionStatus::Disconnected => out@[1].text@ == "disconnected, reconnecting..."@,
            })
            &&& typing ==> out@[first].text@ == "  "@ && out@[first + 1].text@
                == (bar.typing->0).0@ + " is typing..."@
        }),
{
    let views = out@.map_values(|part: StatusPart| (part.style, part.text@));
    assert(views.len() == out@.len());
    assert forall|i: int| 0 <= i < out@.len() implies views[i].1 == (#[trigger] out@[i]).text@
        && views[i].0 == out@[i].style by {}
    assert(bar.shown(now).len() == out@.len());
}

/// A screen is too small under 50 columns or 14 rows, and shows the list of
/// conversations from 80 columns on.
pub proof fn law_layout(width: u16, height: u16, out: Screen)
    requires
        call_ensures(screen, (width, height), out),
    ensures
        out is TooSmall <==> width < 50 || height < 14,
        out is Wide <==> width >= 80 && height >= 14,
        out is Narrow <==> 50 <= width < 80 && height >= 14,
{
}

/// A window is as large as asked for, as far as it leaves two columns at either
/// side and a row above and below, and in the middle to within half a cell.
pub proof fn law_window_is_centered(area: Area, width: u16, height: u16, out: Area)
    requires
        area.on_screen(),
        call_ensures(centered_rect, (area, width, height), out),
    ensures
        out.width <= width && out.height <= height,
        out.width < width ==> out.width == 0 || out.width + 4 == area.width,
        out.height < height ==> out.height == 0 || out.height + 2 == area.height,
        ({
            let left = out.x - area.x;
            let right = area.x + area.width - (out.x + out.width);
            &&& 0 <= left <= right <= left + 1
            &&& area.width >= 4 ==> left + right >= 4
        }),
        ({
            let above = out.y - area.y;
            let below = area.y + area.height - (out.y + out.height);
            &&& 0 <= above <= below <= above + 1
            &&& area.height >= 2 ==> above + below >= 2
        }),
{
}

/// Whoever looks at the newest message goes on looking at it; whoever has
/// scrolled back keeps what is in view while the history grows; and no row is
/// asked for that is not there.
pub proof fn law_scrolling(scroll: &mut Scroll, rows: usize, visible: usize, out: usize)
    requires
        call_ensures(Scroll::show, (scroll, rows, visible), out),
    ensures
        ({
            let max = if rows > visible {
                rows - visible
            } else {
                0
            };
            &&& out + final(scroll).back == max
            &&& old(scroll).back == 0 ==> final(scroll).back == 0 && out == max
            &&& old(scroll).back > 0 && (old(scroll).last_max matches Some(before) && old(scroll).back <= before <= max) ==> out == old(scroll).last_max->0 - old(scroll).back
            &&& final(scroll).last_max == Some(max as usize)
            &&& old(scroll).last_max is None && old(scroll).back <= max ==> final(scroll).back
                == old(scroll).back
        }),
{
}

/// A page is ten rows, back and forth, and the end is the newest message.
pub proof fn law_paging_through(
    scroll: &mut Scroll,
    again: &mut Scroll,
    other: &mut Scroll,
)
    requires
        call_ensures(Scroll::page_up, (scroll,), ()),
        call_ensures(Scroll::page_down, (again,), ()),
        call_ensures(Scroll::end, (other,), ()),
    ensures
        old(scroll).back <= usize::MAX - 10 ==> final(scroll).back == old(scroll).back + 10,
        final(scroll).last_max == old(scroll).last_max,
        old(again).back >= 10 ==> final(again).back == old(again).back - 10,
        old(again).back < 10 ==> final(again).back == 0,
        final(again).last_max == old(again).last_max,
        final(other).back == 0,
        final(other).last_max == old(other).last_max,
{
}

/// A conversation is listed under its peer's name, notes as such; with an
/// exclamation mark where there is a warning, or else a tick where it is
/// verified, and the number of unread messages where there are any.
pub proof fn law_conversation_is_labelled(
    peer: &String,
    user: &str,
    label: String,
    warning: bool,
    verified: bool,
    unread: usize,
    marks: String,
)
    requires
        call_ensures(conversation_label, (peer, user), label),
        call_ensures(conversation_suffix, (warning, verified, unread), marks),
    ensures
        peer@ == user@ ==> label@ == "Note to self"@,
        peer@ != user@ ==> label@ == peer@,
        warning && unread == 0 ==> marks@ == "  !"@,
        !warning && verified && unread == 0 ==> marks@ == "  \u{2713}"@,
        !warning && !verified && unread == 0 ==> marks@.len() == 0,
        warning && unread > 0 ==> marks@ == "  !"@ + " "@ + decimal(unread as nat),
        !warning && verified && unread > 0 ==> marks@ == "  \u{2713}"@ + " "@ + decimal(
            unread as nat,
        ),
        !warning && !verified && unread > 0 ==> marks@ == "  "@ + decimal(unread as nat),
{
}

/// Control-C and Control-D quit from anywhere, and in the list of conversations
/// so does q; nothing else does.
pub proof fn law_what_quits(
    focus: Focus,
    window: Window,
    code: KeyCode,
    modifiers: Modifiers,
    out: KeyAction,
)
    requires
        call_ensures(key_action, (focus, window, code, modifiers), out),
    ensures
        out == KeyAction::Quit <==> (modifiers == Modifiers::Control && (code == KeyCode::Char('c')
            || code == KeyCode::Char('d'))) || (window == Window::Closed && focus
            == Focus::Conversations && code == KeyCode::Char('q')),
{
}

/// Escape closes a window. In the one for a new chat enter submits the name and
/// other keys edit it; help is closed by its own keys; and a verification is
/// confirmed with y and cleared with x.
pub proof fn law_keys_in_a_window(
    focus: Focus,
    window: Window,
    code: KeyCode,
    modifiers: Modifiers,
    out: KeyAction,
)
    requires
        call_ensures(key_action, (focus, window, code, modifiers), out),
        window != Window::Closed,
        out != KeyAction::Quit,
    ensures
        code == KeyCode::Esc ==> out == KeyAction::CloseWindow,
        out == KeyAction::CloseWindow <==> code == KeyCode::Esc || (window == Window::Help && (code
            == KeyCode::Function(1) || code == KeyCode::Char('?'))),
        out == KeyAction::SubmitNewChat <==> window == Window::NewChat && code == KeyCode::Enter
            && modifiers == Modifiers::Plain,
        window == Window::NewChat && code != KeyCode::Esc ==> out == KeyAction::SubmitNewChat || out
            == KeyAction::EditNewChat,
        out == KeyAction::Verify(VerifyAction::Confirm) <==> window == Window::Verification && code
            == KeyCode::Char('y'),
        out == KeyAction::Verify(VerifyAction::Clear) <==> window == Window::Verification && code
            == KeyCode::Char('x'),
        out != KeyAction::Send && out != KeyAction::Edit && out != KeyAction::OpenSelected,
{
}

/// Enter sends the draft and with another key starts a line, as Control-J does;
/// tab and escape leave the composer; and what is no other command edits.
pub proof fn law_keys_in_the_composer(
    code: KeyCode,
    modifiers: Modifiers,
    out: KeyAction,
)
    requires
        call_ensures(key_action, (Focus::Composer, Window::Closed, code, modifiers), out),
    ensures
        out == KeyAction::Send <==> code == KeyCode::Enter && modifiers == Modifiers::Plain,
        out == KeyAction::Newline <==> (code == KeyCode::Enter && modifiers != Modifiers::Plain) || (
        code == KeyCode::Char('j') && modifiers == Modifiers::Control),
        out == KeyAction::FocusConversations <==> code == KeyCode::Tab || code == KeyCode::Esc,
        code matches KeyCode::Char(_) && modifiers != Modifiers::Control ==> out == KeyAction::Edit,
        out == KeyAction::OpenNewChat <==> code == KeyCode::Char('n') && modifiers
            == Modifiers::Control,
        out == KeyAction::OpenHelp <==> code == KeyCode::Function(1),
        out == KeyAction::Verify(VerifyAction::View) <==> code == KeyCode::Function(2),
        out == KeyAction::PageUp <==> code == KeyCode::PageUp,
        out == KeyAction::PageDown <==> code == KeyCode::PageDown,
        out == KeyAction::ScrollToEnd <==> code == KeyCode::End && modifiers == Modifiers::Plain,
{
}

/// In the list of conversations the arrows select, enter opens, and letters are
/// commands; nothing there edits or sends the draft.
pub proof fn law_keys_in_the_list(code: KeyCode, modifiers: Modifiers, out: KeyAction)
    requires
        call_ensures(key_action, (Focus::Conversations, Window::Closed, code, modifiers), out),
    ensures
        out == KeyAction::SelectPrevious <==> code == KeyCode::Up,
        out == KeyAction::SelectNext <==> code == KeyCode::Down,
        out == KeyAction::OpenSelected <==> code == KeyCode::Enter,
        out == KeyAction::FocusComposer <==> code == KeyCode::Tab || code == KeyCode::Esc,
        out == KeyAction::OpenNewChat <==> code == KeyCode::Char('n'),
        out == KeyAction::OpenHelp <==> code == KeyCode::Function(1) || code == KeyCode::Char('?'),
        out == KeyAction::Verify(VerifyAction::View) <==> code == KeyCode::Function(2) || code
            == KeyCode::Char('v'),
        out == KeyAction::PageUp <==> code == KeyCode::PageUp,
        out == KeyAction::PageDown <==> code == KeyCode::PageDown,
        out != KeyAction::Edit && out != KeyAction::Send && out != KeyAction::Newline,
{
}

/// An action changes the one thing that it is about.
pub proof fn law_actions(app: &mut App, action: KeyAction)
    requires
        call_ensures(App::act, (app, action), ()),
    ensures
        final(app).running <==> old(app).running && action != KeyAction::Quit,
        final(app).window == (match action {
            KeyAction::OpenNewChat => Window::NewChat,
            KeyAction::OpenHelp => Window::Help,
            KeyAction::CloseWindow => Window::Closed,
            _ => old(app).window,
        }),
        final(app).focus == (match action {
            KeyAction::FocusComposer => Focus::Composer,
            KeyAction::FocusConversations => Focus::Conversations,
            _ => old(app).focus,
        }),
        action == KeyAction::ScrollToEnd ==> final(app).scroll.back == 0,
        action == KeyAction::PageUp && old(app).scroll.back <= usize::MAX - 10 ==> final(app).scroll.back == old(app).scroll.back + 10,
        action == KeyAction::PageDown ==> final(app).scroll.back == (if old(app).scroll.back >= 10 {
            old(app).scroll.back - 10
        } else {
            0
        }),
        action != KeyAction::PageUp && action != KeyAction::PageDown && action
            != KeyAction::ScrollToEnd ==> final(app).scroll == old(app).scroll,
        *final(app) == (App {
            running: final(app).running,
            window: final(app).window,
            focus: final(app).focus,
            scroll: final(app).scroll,
            ..*old(app)
        }),
{
}

/// A pasted text goes into the name of a new chat, on one line, or into the
/// draft where that has the focus and no window is open.
pub proof fn law_pasting(
    focus: Focus,
    window: Window,
    to: PasteAction,
    text: &str,
    line: String,
)
    requires
        call_ensures(paste_action, (focus, window), to),
        call_ensures(flatten, (text,), line),
    ensures
        to == PasteAction::NewChat <==> window == Window::NewChat,
        to == PasteAction::Composer <==> window == Window::Closed && focus == Focus::Composer,
        line@ == text@.filter(|c: char| c != '\n' && c != '\r'),
        !line@.contains('\n') && !line@.contains('\r'),
{
    let kept = |c: char| c != '\r' && c != '\n';
    let other = |c: char| c != '\n' && c != '\r';
    assert(kept =~= other);
    if line@.contains('\n') {
        text@.lemma_filter_contains_rev(kept, '\n');
    }
    if line@.contains('\r') {
        text@.lemma_filter_contains_rev(kept, '\r');
    }
}

/// A text is trimmed of white space at both ends and nowhere else; the name of
/// a new chat is the lines of its window, one after the other, trimmed.
pub proof fn law_trimming(
    text: &str,
    out: String,
    inner: Seq<char>,
    from: int,
    lines: &Vec<String>,
    joined: String,
    empty: &str,
    name: String,
    start: int,
    core: Seq<char>,
)
    requires
        call_ensures(trimmed, (text,), out),
        stripped(text@, inner, from),
        call_ensures(join, (lines, empty), joined),
        empty@.len() == 0,
        call_ensures(new_chat_name, (lines,), name),
        stripped(joined@, core, start),
    ensures
        out@ == inner,
        name@ == core,
{
    super::conversing::lemma_stripped(text@, inner, from, out@);
    assert(empty@ =~= Seq::<char>::empty());
    super::conversing::lemma_stripped(joined@, core, start, name@);
}

/// Texts are joined in their order, with the separator between every two: that
/// of none is empty, that of one is itself, and one more goes behind.
pub proof fn law_joining(
    parts: &Vec<String>,
    between: &str,
    out: String,
    longer: &Vec<String>,
    more: String,
)
    requires
        call_ensures(join, (parts, between), out),
        call_ensures(join, (longer, between), more),
        longer@.len() == parts@.len() + 1,
        longer@.drop_last() == parts@,
    ensures
        parts@.len() == 0 ==> out@.len() == 0 && more@ == longer@[0]@,
        parts@.len() > 0 ==> more@ == out@ + between@ + longer@.last()@,
{
    assert(texts(longer@).drop_last() =~= texts(parts@));
    assert(texts(longer@).len() == longer@.len());
    assert(texts(longer@).last() == longer@.last()@);
}

/// The selection moves one down or up and stops at the ends; without a
/// selection it starts from the first.
pub proof fn law_selection_moves(
    peers: &Vec<String>,
    selected: &Option<String>,
    down: bool,
    out: Option<String>,
    at: int,
)
    requires
        call_ensures(move_conversation_selection, (peers, selected, down), out),
        0 <= at < peers@.len(),
        selected matches Some(name) ==> name@ == peers@[at]@,
        selected is None ==> at == 0,
        forall|i: int| 0 <= i < at ==> (#[trigger] peers@[i])@ != peers@[at]@,
    ensures
        out is Some,
        down && at + 1 < peers@.len() ==> out->0@ == peers@[at + 1]@,
        down && at + 1 == peers@.len() ==> out->0@ == peers@[at]@,
        !down && at > 0 ==> out->0@ == peers@[at - 1]@,
        !down && at == 0 ==> out->0@ == peers@[0]@,
{
    let found = choose|found: int|
        {
            &&& #[trigger] super::input::position_or_first(peers@, *selected, found)
            &&& out matches Some(name) && name@ == peers@[if down {
                if found + 1 < peers@.len() {
                    found + 1
                } else {
                    peers@.len() - 1
                }
            } else if found > 0 {
                found - 1
            } else {
                0
            }]@
        };
    if let Some(name) = *selected {
        assert(peers@[at]@ == name@);
        if found != at {
            if found < at {
                assert(peers@[found]@ != peers@[at]@);
            }
        }
    }
}

/// A name in the window for a new chat opens the conversation with its owner;
/// one that nobody can have is told, and the window closes either way. An empty
/// one does nothing.
pub proof fn law_new_chat(
    app: &mut App,
    lines: &Vec<String>,
    clock: Clock,
    out: Step,
    empty: &str,
    joined: String,
    name: Seq<char>,
    start: int,
)
    requires
        call_ensures(App::submit_new_chat, (app, lines, clock), out),
        call_ensures(join, (lines, empty), joined),
        empty@.len() == 0,
        stripped(joined@, name, start),
    ensures
        name.len() == 0 ==> *final(app) == *old(app) && idle(out),
        name.len() > 0 ==> final(app).window == Window::Closed,
        crate::server::guarantees::nameable(name) ==> works(out) && (out.work matches Work::Load {
            peer,
            fresh,
        } && peer@ == name && fresh is None) && final(app).notice == old(app).notice,
        name.len() > 0 && !crate::server::guarantees::nameable(name) ==> idle(out) && final(app).notice is Some,
        *final(app) == (App {
            window: final(app).window,
            notice: final(app).notice,
            ..*old(app)
        }),
{
    let chosen = choose|chosen: String| #[trigger]
        super::input::is_trimmed(chosen@, super::input::joined_with(texts(lines@), Seq::empty()))
            && final(app).starts_chat(*old(app), chosen@, clock, out);
    assert(empty@ =~= Seq::<char>::empty());
    super::conversing::lemma_stripped(joined@, name, start, chosen@);
    crate::server::guarantees::lemma_nameable(name);
}

/// A safety number can be told exactly where both identity keys are 32 bytes;
/// it is that of the two users with their keys.
pub proof fn law_safety_number_is_told(
    user: &str,
    key: &str,
    peer: &str,
    peer_key: &Option<String>,
    out: Result<String, String>,
    ours: &[u8; 32],
    theirs: &[u8; 32],
    number: Fingerprint,
    shown: String,
)
    requires
        call_ensures(resolve_safety_number, (user, key, peer, peer_key), out),
        call_ensures(Fingerprint::compute, (user, ours, peer, theirs), number),
        call_ensures(Fingerprint::display_grouped, (&number,), shown),
        base64_bytes(key@) == Some(ours@),
        peer_key matches Some(text) ==> base64_bytes(text@) == Some(theirs@),
    ensures
        peer_key is Some ==> out is Ok && out->Ok_0@ == shown@,
        peer_key is None ==> (out matches Err(said) && said@ == "no identity key stored for "@
            + peer@ + " \u{2014} send or receive a message first"@),
{
}

/// An identity key is 32 bytes in base64 and nothing else.
pub proof fn law_identity_key_is_read(text: &str, out: Result<[u8; 32], String>)
    requires
        call_ensures(decode_identity_key, (text,), out),
    ensures
        out is Ok <==> (base64_bytes(text@) matches Some(bytes) && bytes.len() == 32),
        out matches Ok(key) ==> base64_bytes(text@) == Some(key@),
        base64_bytes(text@) is Some && out is Err ==> out->Err_0@ == "identity key must be 32 bytes"@,
{
}

/// A changed identity key is warned about under its owner's name, and no other
/// is.
pub proof fn law_changed_key_is_warned_about(
    peer: &str,
    status: &IdentityKeyStatus,
    out: Option<String>,
)
    requires
        call_ensures(identity_warning, (peer, status), out),
    ensures
        out is Some <==> status is Changed,
        out matches Some(text) ==> text@ == "security alert: "@ + peer@
            + "'s identity key has changed! Previous verification is no longer valid. Open verification to see the new safety number."@,
{
}

/// What is said of a contact: verified exactly if the number that was confirmed
/// is the one that is shown; and what is said after confirming and clearing.
pub proof fn law_verdict_is_told(
    peer: &str,
    number: String,
    confirmed: Option<String>,
    out: Vec<ChatEntry>,
    stored: Result<bool, String>,
    after: Vec<ChatEntry>,
    cleared: bool,
    cleared_out: Vec<ChatEntry>,
    failure: String,
    failed: Vec<ChatEntry>,
)
    requires
        call_ensures(format_verify_output, (peer, Ok(number), confirmed), out),
        call_ensures(format_verify_output, (peer, Err(failure), confirmed), failed),
        call_ensures(confirm_output, (peer, stored), after),
        call_ensures(clear_output, (peer, cleared), cleared_out),
    ensures
        out@.len() >= 4,
        out@[0] matches ChatEntry::Status(text) && text@ == "safety number with "@ + peer@ + ":"@,
        out@[out@.len() - 2] matches ChatEntry::Status(text) && text@
            == "compare this number with your contact out-of-band to verify E2EE"@,
        confirmed matches Some(before) && before@ == number@ ==> (
        out@.last() matches ChatEntry::Status(text) && text@
            == "\u{2705} this contact is verified"@),
        confirmed matches Some(before) && before@ != number@ ==> out@.last() is Warning,
        confirmed is None ==> (out@.last() matches ChatEntry::Status(text) && text@
            == "not yet verified \u{2014} press y after comparing numbers"@),
        failed@.len() == 1 && (failed@[0] matches ChatEntry::Status(text) && text@ == failure@),
        after@.len() == 1,
        stored == Ok::<bool, String>(true) ==> (after@[0] matches ChatEntry::Status(text) && text@
            == "\u{2705} "@ + peer@ + " marked as verified"@),
        stored == Ok::<bool, String>(false) ==> (after@[0] matches ChatEntry::Status(text) && text@
            == "failed to store verification"@),
        stored matches Err(reason) ==> (after@[0] matches ChatEntry::Status(text) && text@
            == reason@),
        cleared_out@.len() == 1,
        cleared ==> (cleared_out@[0] matches ChatEntry::Status(text) && text@
            == "verification cleared for "@ + peer@),
        !cleared ==> (cleared_out@[0] matches ChatEntry::Status(text) && text@
            == "failed to clear verification"@),
{
    lemma_rows(number@);
}

proof fn lemma_rows(text: Seq<char>)
    ensures
        super::verification::number_rows(text).len() > 0,
    decreases text.len(),
{
    if text.len() > 0 {
        lemma_rows(text.drop_last());
    }
}

/// The waits between attempts double from one second up to thirty, and start
/// over with a login.
pub proof fn law_waits_double(
    backoff: &mut Backoff,
    how: ConnectionEnd,
    out: (AppEvent, u64),
    again: &mut Backoff,
    next: (AppEvent, u64),
    first: Backoff,
    other: &mut Backoff,
    login: AppEvent,
)
    requires
        call_ensures(Backoff::ended, (backoff, how), out),
        call_ensures(Backoff::ended, (again, how), next),
        *old(again) == *final(backoff),
        call_ensures(Backoff::new, (), first),
        call_ensures(Backoff::logged_in, (other,), login),
    ensures
        1 <= out.1 <= 30,
        out.1 <= 15 ==> next.1 == 2 * out.1,
        out.1 > 15 ==> next.1 == 30,
        first@ == 1,
        final(other)@ == 1,
        login is Authenticated,
        how == ConnectionEnd::NotReached || how == ConnectionEnd::Lost ==> out.0 is Disconnected,
        how == ConnectionEnd::ChallengeFailed ==> (out.0 matches AppEvent::AuthFailed(reason)
            && reason@ == "challenge-response failed"@),
        how == ConnectionEnd::Refused ==> (out.0 matches AppEvent::AuthFailed(reason) && reason@
            == "server rejected authentication"@),
{
}

/// A user registers with the public halves of the keys, under their numbers.
pub proof fn law_registration_is_asked_for(
    user: &UserId,
    identity: &IdentityKeyPair,
    signed: &SignedPreKey,
    keys: &Vec<OneTimePreKey>,
    out: ClientMessage,
    i: int,
)
    requires
        call_ensures(registration_request, (user, identity, signed, keys), out),
        0 <= i < keys@.len(),
    ensures
        out matches ClientMessage::Register { user_id, bundle, one_time_prekeys } && user_id@
            == user@ && base64_bytes(bundle.identity_key@) == Some(ed25519_public(identity@))
            && base64_bytes(bundle.signed_prekey@) == Some(signed.spec_public()) && base64_bytes(
            bundle.signed_prekey_signature@,
        ) == Some(signed.spec_signature()) && bundle.signed_prekey_id == signed.spec_key_id()
            && bundle.one_time_prekey is None && one_time_prekeys@.len() == keys@.len()
            && one_time_prekeys@[i].key_id == keys@[i].spec_key_id() && base64_bytes(
            one_time_prekeys@[i].public_key@,
        ) == Some(keys@[i].spec_public()),
{
    if let ClientMessage::Register { one_time_prekeys, .. } = out {
        assert(one_time_prekeys@[i].key_id == keys@[i].spec_key_id());
    }
}

/// The commands have these names and take these arguments.
pub proof fn law_commands(command: Command, name: &str, usage: &str, args: bool)
    requires
        call_ensures(Command::name, (command,), name),
        call_ensures(Command::usage, (command,), usage),
        call_ensures(Command::has_args, (command,), args),
    ensures
        args <==> command == Command::Chat || command == Command::Verify,
        command == Command::Chat ==> name@ == "chat"@ && usage@ == "/chat <user>"@,
        command == Command::Notes ==> name@ == "notes"@ && usage@ == "/notes"@,
        command == Command::Contacts ==> name@ == "contacts"@ && usage@ == "/contacts"@,
        command == Command::Verify ==> name@ == "verify"@ && usage@ == "/verify [confirm|clear]"@,
        command == Command::Keys ==> name@ == "keys"@ && usage@ == "/keys"@,
        command == Command::Quit ==> name@ == "quit"@ && usage@ == "/quit"@,
{
}

/// The popup lists exactly the commands that begin with what was typed, in
/// their order.
pub proof fn law_popup_lists_what_begins(popup: &CommandPopup, at: usize)
    requires
        popup.wf(),
        at < 6,
    ensures
        popup.filtered_indices@.contains(at) <==> popup.filter@.len()
            <= COMMANDS@[at as int].spec_name().len() && COMMANDS@[at as int].spec_name().take(
            popup.filter@.len() as int,
        ) == popup.filter@,
        forall|i: int, j: int|
            0 <= i < j < popup.filtered_indices@.len() ==> popup.filtered_indices@[i]
                < popup.filtered_indices@[j],
        forall|i: int| 0 <= i < popup.filtered_indices@.len() ==> popup.filtered_indices@[i] < 6,
{
    lemma_matching(popup.filter@, 6, at);
}

proof fn lemma_matching(filter: Seq<char>, n: int, at: usize)
    requires
        0 <= n <= 6,
    ensures
        super::command_popup::matching(filter, n).contains(at) <==> at < n
            && super::command_popup::begins(COMMANDS@[at as int].spec_name(), filter),
        forall|i: int, j: int|
            0 <= i < j < super::command_popup::matching(filter, n).len()
                ==> super::command_popup::matching(filter, n)[i] < super::command_popup::matching(
                filter,
                n,
            )[j],
        forall|i: int|
            0 <= i < super::command_popup::matching(filter, n).len()
                ==> super::command_popup::matching(filter, n)[i] < n,
    decreases n,
{
    if n > 0 {
        lemma_matching(filter, n - 1, at);
        let before = super::command_popup::matching(filter, n - 1);
        let all = super::command_popup::matching(filter, n);
        if super::command_popup::begins(COMMANDS@[n - 1].spec_name(), filter) {
            assert(all == before.push((n - 1) as usize));
            assert(all[before.len() as int] == (n - 1) as usize);
            if before.contains(at) {
                let i = choose|i: int| 0 <= i < before.len() && before[i] == at;
                assert(all[i] == at);
            }
            if all.contains(at) && at != n - 1 {
                let i = choose|i: int| 0 <= i < all.len() && all[i] == at;
                assert(before[i] == at);
            }
        }
    }
}

/// In the popup the arrows move the selection round and round; tab completes
/// the selected command, and so does enter, which sends off one that takes no
/// arguments; escape closes the popup.
pub proof fn law_popup_keys(
    popup: &mut CommandPopup,
    code: PopupKey,
    out: PopupAction,
    command: Option<Command>,
    name: &str,
)
    requires
        old(popup).wf(),
        call_ensures(CommandPopup::handle_key, (popup, code), out),
        call_ensures(CommandPopup::selected_command, (&*old(popup),), command),
        command matches Some(chosen) ==> call_ensures(Command::name, (chosen,), name),
    ensures
        ({
            let count = old(popup).filtered_indices@.len();
            let at = old(popup).selected as int;
            let written = "/"@ + name@;
            &&& command is Some <==> count > 0
            &&& count > 0 && code == PopupKey::Down ==> final(popup).selected == (at + 1) % (
            count as int)
            &&& count > 0 && code == PopupKey::Up ==> (final(popup).selected + 1) % (count as int)
                == at
            &&& code == PopupKey::Down || code == PopupKey::Up ==> out is Consumed
            &&& code != PopupKey::Down && code != PopupKey::Up ==> final(popup).selected == at
            &&& code == PopupKey::Esc ==> out is Dismiss
            &&& code == PopupKey::Other ==> out is PassThrough
            &&& command matches Some(chosen) ==> {
                let args = chosen == Command::Chat || chosen == Command::Verify;
                &&& code == PopupKey::Tab ==> (out matches PopupAction::Complete(text) && text@
                    =~= (if args {
                    written + " "@
                } else {
                    written
                }))
                &&& code == PopupKey::Enter && args ==> (out matches PopupAction::Complete(text)
                    && text@ =~= written + " "@)
                &&& code == PopupKey::Enter && !args ==> (out matches PopupAction::Submit(text)
                    && text@ =~= written)
            }
            &&& command is None && code == PopupKey::Tab ==> out is Consumed
            &&& command is None && code == PopupKey::Enter ==> out is PassThrough
        }),
        final(popup).filter == old(popup).filter,
        final(popup).filtered_indices == old(popup).filtered_indices,
{
    let count = old(popup).filtered_indices@.len() as int;
    let at = old(popup).selected as int;
    if count > 0 {
        assert(0 <= at < count);
        if at + 1 < count {
            assert((at + 1) % count == at + 1) by (nonlinear_arith)
                requires
                    0 <= at + 1 < count,
            ;
        } else {
            assert((at + 1) % count == 0) by (nonlinear_arith)
                requires
                    at + 1 == count,
                    count > 0,
            ;
        }
        let now = final(popup).selected as int;
        if code == PopupKey::Up {
            if at == 0 {
                assert((now + 1) % count == 0) by (nonlinear_arith)
                    requires
                        now + 1 == count,
                        count > 0,
                ;
            } else {
                assert((now + 1) % count == now + 1) by (nonlinear_arith)
                    requires
                        0 <= now + 1 < count,
                ;
            }
        }
    }
}

/// A word: no white space in it.
pub open spec fn is_word(text: Seq<char>) -> bool {
    forall|i: int| 0 <= i < text.len() ==> !white_space(#[trigger] text[i])
}

/// The popup stays open while a slash and a word are typed, and filters by the
/// word; it closes where there is no slash, and behind a command that takes
/// arguments.
pub proof fn law_popup_follows_the_draft(
    popup: &mut CommandPopup,
    input: &str,
    out: bool,
    word: Seq<char>,
    rest: Seq<char>,
)
    requires
        call_ensures(CommandPopup::sync, (popup, input), out),
        input@ == seq!['/'] + word + rest,
        is_word(word),
        word.len() > 0,
        rest.len() > 0 ==> white_space(rest[0]),
    ensures
        out <==> !(rest.len() > 0 && (word == "chat"@ || word == "verify"@)),
        out ==> final(popup).filter@ == word && final(popup).wf(),
        out && old(popup).selected < final(popup).filtered_indices@.len() ==> final(popup).selected
            == old(popup).selected,
        out && 0 < final(popup).filtered_indices@.len() <= old(popup).selected
            ==> final(popup).selected == final(popup).filtered_indices@.len() - 1,
        !out ==> *final(popup) == *old(popup),
{
    assert(input@.skip(1) =~= word + rest);
    lemma_first_word(word, rest);
    reveal_strlit("chat");
    reveal_strlit("notes");
    reveal_strlit("contacts");
    reveal_strlit("verify");
    reveal_strlit("keys");
    reveal_strlit("quit");
    if word == "chat"@ {
        assert(COMMANDS@[0].spec_name() == word);
    }
    if word == "verify"@ {
        assert(COMMANDS@[3].spec_name() == word);
    }
}

proof fn lemma_first_word(word: Seq<char>, rest: Seq<char>)
    requires
        is_word(word),
        word.len() > 0,
        rest.len() > 0 ==> white_space(rest[0]),
    ensures
        super::command_popup::first_word(word + rest) == word,
{
    assert((word + rest)[0] == word[0]);
    lemma_up_to_space(word, rest);
}

proof fn lemma_up_to_space(word: Seq<char>, rest: Seq<char>)
    requires
        is_word(word),
        rest.len() > 0 ==> white_space(rest[0]),
    ensures
        super::command_popup::up_to_space(word + rest) == word,
    decreases word.len(),
{
    let all = word + rest;
    if word.len() == 0 {
        assert(all =~= rest);
        assert(super::command_popup::up_to_space(all) =~= word);
    } else {
        let tail = word.drop_first();
        assert forall|i: int| 0 <= i < tail.len() implies !white_space(#[trigger] tail[i]) by {
            assert(tail[i] == word[i + 1]);
        }
        lemma_up_to_space(tail, rest);
        assert(all[0] == word[0]);
        assert(all.drop_first() =~= tail + rest);
        assert(seq![word[0]] + tail =~= word);
    }
}

/// Without a slash in front there is no popup.
pub proof fn law_no_popup_without_a_slash(popup: &mut CommandPopup, input: &str, out: bool)
    requires
        call_ensures(CommandPopup::sync, (popup, input), out),
        input@.len() == 0 || input@[0] != '/',
    ensures
        !out,
        *final(popup) == *old(popup),
{
}

/// The rows of the popup show its commands in order, with what they do from the
/// twentieth column on, or one space behind; cut with three dots where the
/// width ends, and as many as fit.
pub proof fn law_popup_rows(
    popup: &CommandPopup,
    width: u16,
    height: u16,
    out: Vec<PopupRow>,
    count: u16,
    i: int,
    command: Command,
    usage: &str,
    what: &str,
)
    requires
        popup.wf(),
        call_ensures(CommandPopup::rows, (popup, width, height), out),
        call_ensures(CommandPopup::row_count, (popup,), count),
        0 <= i < out@.len(),
        command == COMMANDS@[popup.filtered_indices@[i] as int],
        call_ensures(Command::usage, (command,), usage),
        call_ensures(Command::description, (command,), what),
    ensures
        out@.len() <= height,
        out@.len() <= popup.filtered_indices@.len(),
        out@.len() == height || out@.len() == popup.filtered_indices@.len(),
        count == popup.filtered_indices@.len(),
        out@[i].usage@ == "  "@ + usage@,
        out@[i].selected <==> i == popup.selected,
        out@[i].usage@.len() < 20 ==> out@[i].usage@.len() + out@[i].padding@.len() == 20,
        out@[i].usage@.len() >= 20 ==> out@[i].padding@.len() == 1,
        forall|j: int| 0 <= j < out@[i].padding@.len() ==> #[trigger] out@[i].padding@[j] == ' ',
        ({
            let room = width - out@[i].usage@.len() - out@[i].padding@.len();
            &&& what@.len() <= room ==> out@[i].description@ == what@
            &&& what@.len() > room && room > 3 ==> out@[i].description@ == what@.take(room - 3)
                + "..."@
            &&& what@.len() > room && room <= 3 ==> out@[i].description@.len() == 0
        }),
{
    assert(out@[i].usage@ == super::command_popup::row_usage(command));
}

/// What is said on a screen that is too small, and which keys the footer names
/// on others.
pub proof fn law_fixed_texts(
    minimum: String,
    width: u16,
    sidebar: bool,
    footer: &str,
    none: &str,
    database: Vec<ChatEntry>,
)
    requires
        call_ensures(minimum_text, (), minimum),
        call_ensures(footer_text, (width, sidebar), footer),
        call_ensures(CommandPopup::empty_text, (), none),
        call_ensures(database_unavailable, (), database),
    ensures
        minimum@ == "minimum: "@ + decimal(50) + "x"@ + decimal(14),
        width < 60 ==> footer@ == " Ctrl+N new  Enter send  F1 help"@,
        width >= 60 && sidebar ==> footer@
            == " Enter send  Shift+Enter newline  PgUp/PgDn scroll  F1 help"@,
        width >= 60 && !sidebar ==> footer@
            == " Ctrl+N new  Enter send  Shift+Enter newline  F1 help"@,
        none@ == "  no matches"@,
        database@.len() == 1 && (database@[0] matches ChatEntry::Status(text) && text@
            == "database unavailable"@),
{
}

/// A row number is kept as far as 16 bits hold it; the notice is shown as it
/// is; and a key is worth storing exactly if it can be read.
pub proof fn law_small_views(
    top: usize,
    row: u16,
    app: &App,
    shown: Option<&str>,
    text: &str,
    worth: bool,
)
    requires
        call_ensures(row_offset, (top,), row),
        call_ensures(App::notice_text, (app,), shown),
        call_ensures(is_identity_key, (text,), worth),
    ensures
        top <= 65_535 ==> row == top,
        top > 65_535 ==> row == 65_535,
        shown is Some <==> app.notice is Some,
        shown matches Some(words) ==> words@ == app.notice->0.text@,
        worth <==> (base64_bytes(text@) matches Some(bytes) && bytes.len() == 32),
{
}

/// Moving the selection moves nothing else, and goes as the list does.
pub proof fn law_selection_is_moved(
    app: &mut App,
    conversations: &Vec<String>,
    down: bool,
    at: int,
)
    requires
        call_ensures(App::select_conversation, (app, conversations, down), ()),
        0 <= at < conversations@.len(),
        old(app).selected_conversation matches Some(name) ==> name@ == conversations@[at]@,
        old(app).selected_conversation is None ==> at == 0,
        forall|i: int| 0 <= i < at ==> (#[trigger] conversations@[i])@ != conversations@[at]@,
    ensures
        final(app).selected_conversation is Some,
        down && at + 1 < conversations@.len() ==> final(app).selected_conversation->0@
            == conversations@[at + 1]@,
        !down && at > 0 ==> final(app).selected_conversation->0@ == conversations@[at - 1]@,
        *final(app) == (App {
            selected_conversation: final(app).selected_conversation,
            ..*old(app)
        }),
{
    let peers = conversations@;
    let selected = old(app).selected_conversation;
    let out = final(app).selected_conversation;
    let found = choose|found: int|
        {
            &&& #[trigger] super::input::position_or_first(peers, selected, found)
            &&& out matches Some(name) && name@ == peers[if down {
                if found + 1 < peers.len() {
                    found + 1
                } else {
                    peers.len() - 1
                }
            } else if found > 0 {
                found - 1
            } else {
                0
            }]@
        };
    if let Some(name) = selected {
        assert(peers[at]@ == name@);
        if found < at {
            assert(peers[found]@ != peers[at]@);
        }
    }
}

/// A client starts running and not logged in, with nothing open, unread or
/// shown; the composer has the focus.
pub proof fn law_client_starts(
    user: UserId,
    crypto: CryptoManager,
    app: App,
    popup: CommandPopup,
)
    requires
        call_ensures(App::new, (user, crypto), app),
        call_ensures(CommandPopup::new, (), popup),
    ensures
        app.user_id == user,
        app.crypto == crypto,
        app.running,
        !app.authenticated,
        app.target_user is None,
        app.chat_history@.len() == 0,
        app.pending_msg_ids@.len() == 0,
        app.unread_messages@.dom() == Set::<Seq<char>>::empty(),
        app.identity_warnings@.dom() == Set::<Seq<char>>::empty(),
        app.notice is None,
        app.last_typing_sent is None,
        app.status_bar.connection is None && app.status_bar.typing is None,
        app.focus == Focus::Composer,
        app.window == Window::Closed,
        app.selected_conversation is None,
        app.scroll.back == 0,
        popup.filter@.len() == 0,
        popup.selected == 0,
        popup.filtered_indices@.len() == 6,
{
    assert(app.unread_messages@.dom() =~= Set::<Seq<char>>::empty());
    assert(app.identity_warnings@.dom() =~= Set::<Seq<char>>::empty());
    reveal_with_fuel(super::command_popup::matching, 7);
    assert forall|text: Seq<char>| #[trigger] super::command_popup::begins(text, popup.filter@) by {
        assert(text.take(0) =~= popup.filter@);
    }
}

/// How often a character occurs.
pub open spec fn occurrences(text: Seq<char>, c: char) -> nat
    decreases text.len(),
{
    if text.len() == 0 {
        0
    } else {
        occurrences(text.drop_last(), c) + (if text.last() == c {
            1nat
        } else {
            0
        })
    }
}

/// A safety number is shown in rows of four groups: with spaces between them
/// the rows are the number, every row but the last has three spaces, and the
/// last has at most that.
pub proof fn law_number_is_shown_in_rows(
    peer: &str,
    number: String,
    confirmed: Option<String>,
    out: Vec<ChatEntry>,
    rows: Seq<Seq<char>>,
)
    requires
        call_ensures(format_verify_output, (peer, Ok(number), confirmed), out),
        rows.len() == out@.len() - 3,
        forall|i: int|
            0 <= i < rows.len() ==> (#[trigger] out@[i + 1] matches ChatEntry::Status(text) && text@
                == "  "@ + rows[i]),
    ensures
        super::input::joined_with(rows, " "@) == number@,
        forall|i: int| 0 <= i < rows.len() - 1 ==> occurrences(#[trigger] rows[i], ' ') == 3,
        rows.len() > 0,
        occurrences(rows.last(), ' ') <= 3,
{
    let parts = super::verification::number_rows(number@);
    lemma_rows_are_the_number(number@);
    reveal_strlit("  ");
    assert forall|i: int| 0 <= i < rows.len() implies rows[i] == parts[i] by {
        assert(super::verification::is_status(out@[i + 1], "  "@ + parts[i]));
        assert(("  "@ + rows[i]).skip(2) =~= rows[i]);
        assert(("  "@ + parts[i]).skip(2) =~= parts[i]);
    }
    assert(rows =~= parts);
}

proof fn lemma_rows_are_the_number(text: Seq<char>)
    ensures
        ({
            let rows = super::verification::number_rows(text);
            &&& rows.len() > 0
            &&& super::input::joined_with(rows, " "@) == text
            &&& forall|i: int| 0 <= i < rows.len() - 1 ==> occurrences(#[trigger] rows[i], ' ') == 3
            &&& occurrences(rows.last(), ' ') == super::verification::space_count(text) % 4
        }),
    decreases text.len(),
{
    let rows = super::verification::number_rows(text);
    reveal_strlit(" ");
    let gap = " "@;
    assert(gap =~= seq![' ']);
    if text.len() == 0 {
        assert(super::input::joined_with(rows, gap) =~= text);
    } else {
        let rest = text.drop_last();
        lemma_rows_are_the_number(rest);
        let before = super::verification::number_rows(rest);
        let count = super::verification::space_count(rest);
        if text.last() == ' ' && count % 4 == 3 {
            assert(rows.drop_last() =~= before);
            assert(super::input::joined_with(rows, gap) =~= super::input::joined_with(before, gap)
                + gap + Seq::<char>::empty());
            assert(super::input::joined_with(rows, gap) =~= text);
            assert forall|i: int| 0 <= i < rows.len() - 1 implies occurrences(
                #[trigger] rows[i],
                ' ',
            ) == 3 by {
                assert(rows[i] == before[i]);
            }
        } else {
            let longer = before.last().push(text.last());
            assert(rows == before.drop_last().push(longer));
            assert(rows.drop_last() =~= before.drop_last());
            assert(longer.drop_last() =~= before.last());
            if before.len() == 1 {
                assert(super::input::joined_with(before, gap) == before[0]);
                assert(super::input::joined_with(rows, gap) == longer);
            } else {
                let start = super::input::joined_with(before.drop_last(), gap) + gap;
                assert(super::input::joined_with(before, gap) == start + before.last());
                assert(super::input::joined_with(rows, gap) == start + longer);
            }
            assert(rest.push(text.last()) =~= text);
            assert(super::input::joined_with(rows, gap) =~= text);
            assert forall|i: int| 0 <= i < rows.len() - 1 implies occurrences(
                #[trigger] rows[i],
                ' ',
            ) == 3 by {
                assert(rows[i] == before[i]);
            }
        }
    }
}

/// Why a peer is in the list of conversations: there is a session, its keys are
/// waited for, it wrote something unread, or else.
pub open spec fn reason_listed(app: App, name: Seq<char>) -> int {
    if app.crypto.sessions@.contains_key(name) {
        0
    } else if app.crypto.pending_inits@.contains_key(name) {
        1
    } else if app.unread_messages@.contains_key(name) {
        2
    } else {
        3
    }
}

/// Behind the stored conversations stand those with a session, those whose keys
/// are waited for, those with something unread, and one's own; those with the
/// same reason are in the order of their bytes.
pub proof fn law_conversations_in_order(app: &App, stored: Vec<String>, out: Vec<String>, i: int, j: int)
    requires
        call_ensures(App::conversations, (app, stored), out),
        stored@.len() <= i < j < out@.len(),
    ensures
        reason_listed(*app, out@[i]@) <= reason_listed(*app, out@[j]@),
        reason_listed(*app, out@[i]@) == reason_listed(*app, out@[j]@) ==> crate::bytes::lex_le(
            vstd::utf8::encode_utf8(out@[i]@),
            vstd::utf8::encode_utf8(out@[j]@),
        ),
{
    let (sessions, pending, unread) = choose|
        sessions: Seq<String>,
        pending: Seq<String>,
        unread: Seq<String>,
    |
        #![trigger texts(sessions), texts(pending), texts(unread)]
        {
            &&& super::sessions::lists(sessions, app.crypto.sessions@)
                && super::sessions::in_byte_order(sessions)
            &&& super::sessions::lists(pending, app.crypto.pending_inits@)
                && super::sessions::in_byte_order(pending)
            &&& super::sessions::lists(unread, app.unread_messages@)
                && super::sessions::in_byte_order(unread)
            &&& texts(out@) == super::app::with_new(
                super::app::with_new(
                    super::app::with_new(
                        super::app::with_new(texts(stored@), texts(sessions)),
                        texts(pending),
                    ),
                    texts(unread),
                ),
                seq![app.user_id@],
            )
        };
    let one = super::app::with_new(texts(stored@), texts(sessions));
    let two = super::app::with_new(one, texts(pending));
    let three = super::app::with_new(two, texts(unread));
    let own = seq![app.user_id@];
    let all = texts(out@);
    assert(all[i] == out@[i]@ && all[j] == out@[j]@);
    lemma_with_new_grows(texts(stored@), texts(sessions));
    lemma_with_new_grows(one, texts(pending));
    lemma_with_new_grows(two, texts(unread));
    lemma_with_new_grows(three, own);
    lemma_listed(*app, sessions, pending, unread);
    let n = stored@.len() as int;
    assert forall|k: int| n <= k < all.len() implies #[trigger] reason_listed(*app, all[k]) == (if k
        < one.len() {
        0int
    } else if k < two.len() {
        1
    } else if k < three.len() {
        2
    } else {
        3
    }) by {
        lemma_all_in(texts(stored@), texts(sessions));
        lemma_all_in(one, texts(pending));
        lemma_all_in(two, texts(unread));
        if k < one.len() {
            lemma_new_keep_order(texts(stored@), texts(sessions), k, k);
        } else if k < two.len() {
            lemma_new_keep_order(one, texts(pending), k, k);
        } else if k < three.len() {
            lemma_new_keep_order(two, texts(unread), k, k);
        } else {
            lemma_new_keep_order(three, own, k, k);
        }
        if k < one.len() {
            assert(all[k] == one[k]);
        } else if k < two.len() {
            assert(all[k] == two[k]);
        } else if k < three.len() {
            assert(all[k] == three[k]);
        }
        lemma_contained(one, texts(pending));
        lemma_contained(two, texts(unread));
        let name = all[k];
        assert(texts(sessions).contains(name) ==> one.contains(name));
        assert(texts(pending).contains(name) ==> two.contains(name));
        assert(texts(unread).contains(name) ==> three.contains(name));
        assert(one.contains(name) ==> two.contains(name));
        assert(two.contains(name) ==> three.contains(name));
    }
    if j < one.len() {
        lemma_new_keep_order(texts(stored@), texts(sessions), i, j);
    } else if one.len() <= i && j < two.len() {
        lemma_new_keep_order(one, texts(pending), i, j);
    } else if two.len() <= i && j < three.len() {
        lemma_new_keep_order(two, texts(unread), i, j);
    } else if three.len() <= i {
        lemma_new_keep_order(three, own, i, j);
    }
    assert(reason_listed(*app, all[i]) <= reason_listed(*app, all[j]));
}

proof fn lemma_listed(app: App, sessions: Seq<String>, pending: Seq<String>, unread: Seq<String>)
    requires
        super::sessions::lists(sessions, app.crypto.sessions@),
        super::sessions::lists(pending, app.crypto.pending_inits@),
        super::sessions::lists(unread, app.unread_messages@),
    ensures
        forall|name: Seq<char>| #[trigger]
            texts(sessions).contains(name) <==> app.crypto.sessions@.contains_key(name),
        forall|name: Seq<char>| #[trigger]
            texts(pending).contains(name) <==> app.crypto.pending_inits@.contains_key(name),
        forall|name: Seq<char>| #[trigger]
            texts(unread).contains(name) <==> app.unread_messages@.contains_key(name),
{
    assert forall|names: Seq<String>, name: Seq<char>| #[trigger]
        texts(names).contains(name) <==> super::sessions::has_name(names, name) by {
        if texts(names).contains(name) {
            let i = choose|i: int| 0 <= i < texts(names).len() && texts(names)[i] == name;
            assert(names[i]@ == name);
        }
        if super::sessions::has_name(names, name) {
            let i = choose|i: int| 0 <= i < names.len() && (#[trigger] names[i])@ == name;
            assert(texts(names)[i] == name);
        }
    }
}

proof fn lemma_all_in(names: Seq<Seq<char>>, more: Seq<Seq<char>>)
    ensures
        forall|name: Seq<char>| #[trigger]
            more.contains(name) ==> super::app::with_new(names, more).contains(name),
    decreases more.len(),
{
    if more.len() > 0 {
        let before = super::app::with_new(names, more.drop_last());
        let all = super::app::with_new(names, more);
        lemma_all_in(names, more.drop_last());
        assert forall|name: Seq<char>| #[trigger] more.contains(name) implies all.contains(name) by {
            let i = choose|i: int| 0 <= i < more.len() && more[i] == name;
            if i < more.len() - 1 {
                assert(more.drop_last()[i] == name);
                assert(more.drop_last().contains(name));
                let p = choose|p: int| 0 <= p < before.len() && before[p] == name;
                assert(all[p] == name);
            } else if !before.contains(name) {
                assert(all[before.len() as int] == name);
            }
        }
    }
}

proof fn lemma_contained(names: Seq<Seq<char>>, more: Seq<Seq<char>>)
    ensures
        forall|name: Seq<char>| #[trigger]
            names.contains(name) ==> super::app::with_new(names, more).contains(name),
{
    lemma_with_new_grows(names, more);
    let all = super::app::with_new(names, more);
    assert forall|name: Seq<char>| #[trigger] names.contains(name) implies all.contains(name) by {
        let i = choose|i: int| 0 <= i < names.len() && names[i] == name;
        assert(all[i] == name);
    }
}

proof fn lemma_new_keep_order(names: Seq<Seq<char>>, more: Seq<Seq<char>>, i: int, j: int)
    requires
        names.len() <= i <= j < super::app::with_new(names, more).len(),
    ensures
        ({
            let all = super::app::with_new(names, more);
            &&& !names.contains(all[j])
            &&& more.contains(all[j])
            &&& exists|p: int, q: int|
                0 <= p <= q < more.len() && #[trigger] more[p] == all[i] && #[trigger] more[q] == all[j]
                    && (i < j ==> p < q)
        }),
    decreases more.len(),
{
    if more.len() > 0 {
        let rest = more.drop_last();
        let before = super::app::with_new(names, rest);
        let all = super::app::with_new(names, more);
        lemma_with_new_grows(names, rest);
        if j < before.len() {
            lemma_new_keep_order(names, rest, i, j);
            let (p, q) = choose|p: int, q: int|
                0 <= p <= q < rest.len() && #[trigger] rest[p] == before[i] && #[trigger] rest[q]
                    == before[j] && (i < j ==> p < q);
            assert(more[p] == all[i] && more[q] == all[j]);
        } else {
            assert(all[j] == more.last());
            if names.contains(all[j]) {
                let k = choose|k: int| 0 <= k < names.len() && names[k] == all[j];
                assert(before[k] == all[j]);
            }
            let q = more.len() - 1;
            assert(more[q] == all[j]);
            if i < j {
                lemma_new_keep_order(names, rest, i, i);
                let p = choose|p: int| 0 <= p < rest.len() && rest[p] == before[i];
                assert(more[p] == all[i]);
            }
        }
    }
}

} // verus!
