//! The client as the user sees it.

use super::chat::{history_from, ChatEntry, StoredMessage};
use super::crypto_mgr::CryptoManager;
use super::input::{Focus, Window};
use super::sessions::sorted_names;
use super::status_bar::StatusBar;
use super::steps::Clock;
use super::verification::VerifyAction;
use super::view::{Screen, Scroll, Standing};
use crate::protocol::consts::MAX_RECEIPT_BATCH;
use crate::protocol::{ClientMessage, MessageId, UserId};
use crate::table::Table;
use vstd::prelude::*;
use vstd::string::*;

verus! {

use super::chat::shown_as;
use super::sessions::{has_name, in_byte_order, lists};
use super::status_bar::elapsed;
use crate::encoding::texts;

/// How long a notice is shown.
pub const NOTICE_TIMEOUT_MS: u64 = 5_000;

/// How much time passes between two typing notices.
pub const TYPING_INTERVAL_MS: u64 = 3_000;

/// How many sent messages are remembered until they are delivered.
pub const MAX_PENDING_IDS: usize = 10_000;

/// A short text for the user.
pub struct Notice {
    pub text: String,
    /// When it was first shown, in milliseconds.
    pub created_at: u64,
}

/// The client as the user sees it.
pub struct App {
    pub user_id: UserId,
    /// With whom the open conversation is.
    pub target_user: Option<UserId>,
    pub running: bool,
    pub authenticated: bool,
    pub crypto: CryptoManager,
    pub last_typing_sent: Option<u64>,
    pub status_bar: StatusBar,
    /// Messages that were sent and not yet delivered.
    pub pending_msg_ids: Vec<MessageId>,
    /// Messages that were received and not yet read, by sender.
    pub unread_messages: Table<String, Vec<MessageId>>,
    /// Warnings about changed identity keys, by peer.
    pub identity_warnings: Table<String, String>,
    /// The open conversation.
    pub chat_history: Vec<ChatEntry>,
    pub focus: Focus,
    pub window: Window,
    /// What the window for verification shows.
    pub verification: Vec<ChatEntry>,
    pub selected_conversation: Option<String>,
    pub scroll: Scroll,
    pub notice: Option<Notice>,
}

/// Names, with those of another list behind them that are not among them yet.
pub open spec fn with_new(names: Seq<Seq<char>>, more: Seq<Seq<char>>) -> Seq<Seq<char>>
    decreases more.len(),
{
    if more.len() == 0 {
        names
    } else {
        let before = with_new(names, more.drop_last());
        if before.contains(more.last()) {
            before
        } else {
            before.push(more.last())
        }
    }
}

/// Every name is kept, and every new one comes in.
pub proof fn lemma_with_new(names: Seq<Seq<char>>, more: Seq<Seq<char>>)
    ensures
        forall|name: Seq<char>| #[trigger]
            with_new(names, more).contains(name) <==> (names.contains(name) || more.contains(name)),
    decreases more.len(),
{
    if more.len() > 0 {
        let before = with_new(names, more.drop_last());
        lemma_with_new(names, more.drop_last());
        assert forall|name: Seq<char>| #[trigger] with_new(names, more).contains(name) <==> (
        names.contains(name) || more.contains(name)) by {
            if more.contains(name) {
                let i = choose|i: int| 0 <= i < more.len() && more[i] == name;
                if i < more.len() - 1 {
                    assert(more.drop_last()[i] == name);
                }
            }
            if more.drop_last().contains(name) {
                let i = choose|i: int| 0 <= i < more.drop_last().len() && more.drop_last()[i] == name;
                assert(more[i] == name);
            }
            assert(more[more.len() - 1] == more.last());
            if before.contains(name) && !before.contains(more.last()) {
                let i = choose|i: int| 0 <= i < before.len() && before[i] == name;
                assert(before.push(more.last())[i] == name);
            }
            if !before.contains(more.last()) {
                assert(before.push(more.last())[before.len() as int] == more.last());
            }
        }
    }
}

fn contains_name(names: &Vec<String>, name: &String) -> (out: bool)
    ensures
        out == texts(names@).contains(name@),
{
    let mut i: usize = 0;
    while i < names.len()
        invariant
            i <= names@.len(),
            forall|j: int| 0 <= j < i ==> (#[trigger] names@[j])@ != name@,
        decreases names@.len() - i,
    {
        if names[i] == *name {
            assert(texts(names@)[i as int] == name@);
            return true;
        }
        i += 1;
    }
    assert forall|j: int| 0 <= j < texts(names@).len() implies #[trigger] texts(names@)[j]
        != name@ by {
        assert(texts(names@)[j] == names@[j]@);
    }
    false
}

fn append_new(names: &mut Vec<String>, more: &Vec<String>)
    ensures
        texts(final(names)@) == with_new(texts(old(names)@), texts(more@)),
{
    let ghost before = texts(names@);
    let ghost views = texts(more@);
    let mut i: usize = 0;
    assert(views.take(0) =~= Seq::empty());
    while i < more.len()
        invariant
            i <= more@.len(),
            views == texts(more@),
            texts(names@) == with_new(before, views.take(i as int)),
        decreases more@.len() - i,
    {
        let ghost so_far = names@;
        let ghost next = views.take(i + 1);
        assert(next.drop_last() =~= views.take(i as int));
        assert(next.last() == more@[i as int]@);
        if !contains_name(names, &more[i]) {
            names.push(more[i].clone());
            assert(texts(names@) =~= texts(so_far).push(more@[i as int]@));
        }
        i += 1;
    }
    assert(views.take(i as int) =~= views);
}

impl App {
    /// The client when it starts.
    pub fn new(user_id: UserId, crypto: CryptoManager) -> (out: Self)
        ensures
            out.user_id == user_id,
            out.crypto == crypto,
            out.running,
            !out.authenticated,
            out.target_user is None,
            out.last_typing_sent is None,
            out.status_bar.connection is None,
            out.status_bar.typing is None,
            out.pending_msg_ids@.len() == 0,
            out.unread_messages@ == Map::<Seq<char>, Vec<MessageId>>::empty(),
            out.identity_warnings@ == Map::<Seq<char>, String>::empty(),
            out.chat_history@.len() == 0,
            out.focus is Composer,
            out.window is Closed,
            out.verification@.len() == 0,
            out.selected_conversation is None,
            out.scroll == (Scroll { back: 0, last_max: None }),
            out.notice is None,
    {
        App {
            user_id,
            target_user: None,
            running: true,
            authenticated: false,
            crypto,
            last_typing_sent: None,
            status_bar: StatusBar::new(),
            pending_msg_ids: Vec::new(),
            unread_messages: Table::new(),
            identity_warnings: Table::new(),
            chat_history: Vec::new(),
            focus: Focus::Composer,
            window: Window::Closed,
            verification: Vec::new(),
            selected_conversation: None,
            scroll: Scroll::new(),
            notice: None,
        }
    }

    /// The state is `before`, but for a new notice.
    pub open spec fn told(self, before: App, text: Seq<char>, millis: u64) -> bool {
        &&& self == (App { notice: self.notice, ..before })
        &&& self.notice matches Some(notice) && notice.text@ == text && notice.created_at == millis
    }

    /// The open conversation is with this peer.
    pub open spec fn is_active(self, peer: Seq<char>) -> bool {
        self.target_user matches Some(target) && target@ == peer
    }

    /// Whether the open conversation is with this peer.
    pub fn is_active_peer(&self, peer_id: &str) -> (out: bool)
        ensures
            out == self.is_active(peer_id@),
    {
        match &self.target_user {
            Some(target) => target.as_str().to_owned() == peer_id.to_owned(),
            None => false,
        }
    }

    /// Shows a notice.
    pub fn status(&mut self, text: &str, clock: Clock)
        ensures
            final(self).told(*old(self), text@, clock.millis),
    {
        self.notice = Some(Notice { text: text.to_owned(), created_at: clock.millis });
    }

    /// The text of the notice.
    pub fn notice_text(&self) -> (out: Option<&str>)
        ensures
            out is Some <==> self.notice is Some,
            out matches Some(text) ==> text@ == self.notice->0.text@,
    {
        match &self.notice {
            Some(notice) => Some(notice.text.as_str()),
            None => None,
        }
    }

    /// Drops a notice that has been shown for long enough.
    pub fn tick_notice(&mut self, clock: Clock)
        ensures
            *final(self) == (App {
                notice: match old(self).notice {
                    Some(notice) => if elapsed(notice.created_at, clock.millis)
                        > NOTICE_TIMEOUT_MS {
                        None
                    } else {
                        Some(notice)
                    },
                    None => None,
                },
                ..*old(self)
            }),
    {
        let over = match &self.notice {
            Some(notice) => clock.millis.saturating_sub(notice.created_at) > NOTICE_TIMEOUT_MS,
            None => false,
        };
        if over {
            self.notice = None;
        }
    }

    /// Warns if there is no history.
    pub fn start(&mut self, has_history: bool, clock: Clock)
        ensures
            if has_history {
                *final(self) == *old(self)
            } else {
                final(self).told(
                    *old(self),
                    "warning: message history unavailable"@,
                    clock.millis,
                )
            },
    {
        if !has_history {
            self.status("warning: message history unavailable", clock);
        }
    }

    /// The names of the conversations: those in the history, then the peers
    /// with a session, the peers whose keys were asked for, the senders of
    /// unread messages and the user, each where it was not named before.
    pub fn conversations(&self, stored: Vec<String>) -> (out: Vec<String>)
        ensures
            exists|sessions: Seq<String>, pending: Seq<String>, unread: Seq<String>|
                #![trigger texts(sessions), texts(pending), texts(unread)]
                {
                    &&& lists(sessions, self.crypto.sessions@) && in_byte_order(sessions)
                    &&& lists(pending, self.crypto.pending_inits@) && in_byte_order(pending)
                    &&& lists(unread, self.unread_messages@) && in_byte_order(unread)
                    &&& texts(out@) == with_new(
                        with_new(
                            with_new(
                                with_new(texts(stored@), texts(sessions)),
                                texts(pending),
                            ),
                            texts(unread),
                        ),
                        seq![self.user_id@],
                    )
                },
    {
        let mut out = stored;
        let sessions = self.crypto.session_peers();
        append_new(&mut out, &sessions);
        let pending = self.crypto.pending_peers();
        append_new(&mut out, &pending);
        let unread = sorted_names(&self.unread_messages);
        append_new(&mut out, &unread);
        let mut own: Vec<String> = Vec::new();
        own.push(self.user_id.as_str().to_owned());
        assert(texts(own@) =~= seq![self.user_id@]);
        append_new(&mut out, &own);
        out
    }

    /// The conversation that is selected when the list of conversations gets
    /// the focus: the open one, or the first.
    pub fn sync_conversation_cursor(&mut self, conversations: &Vec<String>)
        ensures
            *final(self) == (App {
                selected_conversation: final(self).selected_conversation,
                ..*old(self)
            }),
            match old(self).target_user {
                Some(target) => final(self).selected_conversation matches Some(name) && name@
                    == target@,
                None => if conversations@.len() > 0 {
                    final(self).selected_conversation matches Some(name) && name@
                        == conversations@[0]@
                } else {
                    final(self).selected_conversation is None
                },
            },
    {
        self.selected_conversation = match &self.target_user {
            Some(target) => Some(target.as_str().to_owned()),
            None => if conversations.len() > 0 {
                Some(conversations[0].clone())
            } else {
                None
            },
        };
    }

    /// The list of conversations cannot have the focus where it is not shown.
    pub fn fit_focus(&mut self, screen: Screen)
        ensures
            *final(self) == (App {
                focus: if screen is Narrow {
                    Focus::Composer
                } else {
                    old(self).focus
                },
                ..*old(self)
            }),
    {
        match screen {
            Screen::Narrow => {
                self.focus = Focus::Composer;
            },
            _ => {},
        }
    }

    /// A typing notice is due: there is a session with the peer of the open
    /// conversation, who is not the user, and the last notice was long enough
    /// ago.
    pub open spec fn typing_due(self, millis: u64) -> bool {
        &&& self.target_user matches Some(target) && target@ != self.user_id@
            && self.crypto.sessions@.contains_key(target@)
        &&& self.last_typing_sent matches Some(sent) ==> elapsed(sent, millis) > TYPING_INTERVAL_MS
    }

    /// The draft has changed: a notice goes away, and the peer is told that
    /// the user is typing.
    pub fn composer_changed(&mut self, clock: Clock) -> (out: Option<ClientMessage>)
        ensures
            if old(self).typing_due(clock.millis) {
                &&& *final(self) == (App {
                    notice: None,
                    last_typing_sent: Some(clock.millis),
                    ..*old(self)
                })
                &&& out == Some(
                    ClientMessage::Typing { recipient_id: old(self).target_user->0 },
                )
            } else {
                *final(self) == (App { notice: None, ..*old(self) }) && out is None
            },
    {
        self.notice = None;
        let recipient_id = match &self.target_user {
            Some(target) => target.clone(),
            None => return None,
        };
        if recipient_id.same(&self.user_id) || !self.crypto.has_session(recipient_id.as_str()) {
            return None;
        }
        let due = match self.last_typing_sent {
            Some(sent) => clock.millis.saturating_sub(sent) > TYPING_INTERVAL_MS,
            None => true,
        };
        if !due {
            return None;
        }
        self.last_typing_sent = Some(clock.millis);
        Some(ClientMessage::Typing { recipient_id })
    }

    /// The messages of a peer that were not read yet.
    pub open spec fn unread_of(self, peer: Seq<char>) -> Seq<MessageId> {
        if self.unread_messages@.contains_key(peer) {
            self.unread_messages@[peer]@
        } else {
            Seq::empty()
        }
    }

    /// The state is `before`, but for another unread message of a peer. Up to
    /// `MAX_RECEIPT_BATCH` are remembered.
    pub open spec fn has_unread(self, before: App, peer: Seq<char>, message_id: MessageId) -> bool {
        &&& self == (App { unread_messages: self.unread_messages, ..before })
        &&& self.unread_messages@ == before.unread_messages@.insert(
            peer,
            self.unread_messages@[peer],
        )
        &&& self.unread_messages@[peer]@ == (if before.unread_of(peer).len() < MAX_RECEIPT_BATCH {
            before.unread_of(peer).push(message_id)
        } else {
            before.unread_of(peer)
        })
    }

    /// Remembers that a message of a peer was not read yet.
    pub fn accumulate_unread(&mut self, sender: &str, message_id: MessageId)
        ensures
            final(self).has_unread(*old(self), sender@, message_id),
    {
        let ghost before = self.unread_messages@;
        let key = sender.to_owned();
        let mut list = match self.unread_messages.remove(&key) {
            Some(list) => list,
            None => Vec::new(),
        };
        assert(list@ =~= old(self).unread_of(sender@));
        if list.len() < MAX_RECEIPT_BATCH {
            list.push(message_id);
        }
        self.unread_messages.insert(key, list);
        assert(self.unread_messages@ =~= before.insert(sender@, list));
    }

    /// The state is `before`, but for a warning that the identity key of a
    /// peer has changed, which is shown in the open conversation with the peer
    /// or else as a notice.
    pub open spec fn warned(
        self,
        before: App,
        peer: Seq<char>,
        warning: Option<String>,
        millis: u64,
    ) -> bool {
        match warning {
            None => self == before,
            Some(warning) => {
                &&& self.identity_warnings@ == before.identity_warnings@.insert(
                    peer,
                    self.identity_warnings@[peer],
                )
                &&& self.identity_warnings@[peer]@ == warning@
                &&& if before.is_active(peer) {
                    &&& self == (App {
                        identity_warnings: self.identity_warnings,
                        chat_history: self.chat_history,
                        ..before
                    })
                    &&& self.chat_history@ == before.chat_history@.push(ChatEntry::Warning(warning))
                } else {
                    self.told(
                        App { identity_warnings: self.identity_warnings, ..before },
                        "security alert for "@ + peer,
                        millis,
                    )
                }
            },
        }
    }

    /// Warns that the identity key of a peer has changed, if it has.
    pub fn track_peer_identity(&mut self, peer_id: &str, warning: Option<String>, clock: Clock)
        ensures
            final(self).warned(*old(self), peer_id@, warning, clock.millis),
    {
        match warning {
            None => {},
            Some(warning) => {
                let ghost before = self.identity_warnings@;
                let copy = warning.clone();
                self.identity_warnings.insert(peer_id.to_owned(), copy);
                assert(self.identity_warnings@ == before.insert(peer_id@, copy));
                if self.is_active_peer(peer_id) {
                    self.chat_history.push(ChatEntry::Warning(warning));
                } else {
                    let mut text = "security alert for ".to_owned();
                    text.append(peer_id);
                    self.status(text.as_str(), clock);
                }
            },
        }
    }

    /// The state is `before` with the conversation with `peer` opened, and
    /// before anything is said about it.
    pub open spec fn switched(self, before: App, peer: UserId, newest_first: Seq<StoredMessage>) -> bool {
        let warned = before.identity_warnings@.contains_key(peer@);
        let count = newest_first.len();
        &&& self == (App {
            chat_history: self.chat_history,
            target_user: Some(peer),
            selected_conversation: self.selected_conversation,
            focus: Focus::Composer,
            window: Window::Closed,
            status_bar: StatusBar { typing: None, ..before.status_bar },
            last_typing_sent: None,
            scroll: Scroll { back: 0, last_max: None },
            ..before
        })
        &&& self.selected_conversation matches Some(name) && name@ == peer@
        &&& self.chat_history@.len() == count + (if warned {
            1int
        } else {
            0
        })
        &&& forall|i: int|
            0 <= i < count ==> #[trigger] self.chat_history@[i] == shown_as(
                newest_first[count - 1 - i],
            )
        &&& warned ==> (self.chat_history@[count as int] matches ChatEntry::Warning(text) && text@
            == before.identity_warnings@[peer@]@)
    }

    /// Opens the conversation with a peer.
    pub fn switch_to(&mut self, peer: &UserId, newest_first: Vec<StoredMessage>)
        ensures
            final(self).switched(*old(self), *peer, newest_first@),
    {
        self.chat_history = history_from(newest_first);
        self.scroll = Scroll::new();
        let key = peer.as_str().to_owned();
        match self.identity_warnings.get(&key) {
            Some(warning) => {
                let text = warning.clone();
                self.chat_history.push(ChatEntry::Warning(text));
            },
            None => {},
        }
        self.target_user = Some(peer.clone());
        self.selected_conversation = Some(key);
        self.focus = Focus::Composer;
        self.window = Window::Closed;
        self.status_bar.clear_typing();
        self.last_typing_sent = None;
        assert(self.status_bar == (StatusBar { typing: None, ..old(self).status_bar }));
    }

    /// Why a contact cannot be verified, if it cannot.
    pub open spec fn verification_refusal(self) -> Option<Seq<char>> {
        match self.target_user {
            None => Some("choose a conversation before verifying"@),
            Some(target) => if target@ == self.user_id@ {
                Some("note to self does not have a peer safety number"@)
            } else {
                None
            },
        }
    }

    /// The contact who is to be verified. If there is none, a notice says why.
    pub fn verification_peer(&mut self, clock: Clock) -> (out: Option<UserId>)
        ensures
            match old(self).verification_refusal() {
                Some(text) => out is None && final(self).told(*old(self), text, clock.millis),
                None => out == old(self).target_user && *final(self) == *old(self),
            },
    {
        let target = match &self.target_user {
            Some(target) => target.clone(),
            None => {
                self.status("choose a conversation before verifying", clock);
                return None;
            },
        };
        if target.same(&self.user_id) {
            self.status("note to self does not have a peer safety number", clock);
            return None;
        }
        Some(target)
    }

    /// Shows the outcome of a verification. A confirmed contact is not warned
    /// about any longer.
    pub fn show_verification(
        &mut self,
        peer: &UserId,
        action: VerifyAction,
        confirmed: bool,
        entries: Vec<ChatEntry>,
    )
        ensures
            *final(self) == (App {
                window: Window::Verification,
                verification: entries,
                identity_warnings: final(self).identity_warnings,
                ..*old(self)
            }),
            if action is Confirm && confirmed {
                final(self).identity_warnings@ == old(self).identity_warnings@.remove(peer@)
            } else {
                final(self).identity_warnings == old(self).identity_warnings
            },
    {
        let confirms = match action {
            VerifyAction::Confirm => true,
            _ => false,
        };
        if confirms && confirmed {
            let _removed = self.identity_warnings.remove(&peer.as_str().to_owned());
        }
        self.verification = entries;
        self.window = Window::Verification;
    }

    /// What is known of the conversation with a peer.
    pub open spec fn spec_standing(self, peer: Seq<char>) -> Standing {
        if peer == self.user_id@ {
            Standing::Notes
        } else if self.identity_warnings@.contains_key(peer) {
            Standing::Alert
        } else if self.crypto.sessions@.contains_key(peer) {
            Standing::Encrypted
        } else {
            Standing::Establishing
        }
    }

    /// What is known of the open conversation.
    pub fn standing(&self) -> (out: Option<Standing>)
        ensures
            out == (match self.target_user {
                Some(target) => Some(self.spec_standing(target@)),
                None => None,
            }),
    {
        let target = match &self.target_user {
            Some(target) => target,
            None => return None,
        };
        let peer = target.as_str().to_owned();
        Some(
            if target.same(&self.user_id) {
                Standing::Notes
            } else if self.identity_warnings.contains(&peer) {
                Standing::Alert
            } else if self.crypto.has_session(target.as_str()) {
                Standing::Encrypted
            } else {
                Standing::Establishing
            },
        )
    }
}

/// The list of conversations leaves nobody out: it names whoever is in the
/// history, has a session, was asked for keys or has sent an unread message,
/// and the user, and nobody else.
pub proof fn law_conversations_are_complete(
    app: App,
    stored: Seq<Seq<char>>,
    sessions: Seq<String>,
    pending: Seq<String>,
    unread: Seq<String>,
    name: Seq<char>,
)
    requires
        lists(sessions, app.crypto.sessions@),
        lists(pending, app.crypto.pending_inits@),
        lists(unread, app.unread_messages@),
    ensures
        with_new(
            with_new(
                with_new(with_new(stored, texts(sessions)), texts(pending)),
                texts(unread),
            ),
            seq![app.user_id@],
        ).contains(name) <==> {
            ||| stored.contains(name)
            ||| app.crypto.sessions@.contains_key(name)
            ||| app.crypto.pending_inits@.contains_key(name)
            ||| app.unread_messages@.contains_key(name)
            ||| app.user_id@ == name
        },
{
    let with_sessions = with_new(stored, texts(sessions));
    let with_pending = with_new(with_sessions, texts(pending));
    let with_unread = with_new(with_pending, texts(unread));
    lemma_with_new(stored, texts(sessions));
    lemma_with_new(with_sessions, texts(pending));
    lemma_with_new(with_pending, texts(unread));
    lemma_with_new(with_unread, seq![app.user_id@]);
    lemma_has_name(sessions, name);
    lemma_has_name(pending, name);
    lemma_has_name(unread, name);
    assert(seq![app.user_id@][0] == app.user_id@);
}

proof fn lemma_has_name(names: Seq<String>, name: Seq<char>)
    ensures
        texts(names).contains(name) <==> has_name(names, name),
{
    if has_name(names, name) {
        let i = choose|i: int| 0 <= i < names.len() && (#[trigger] names[i])@ == name;
        assert(texts(names)[i] == name);
    }
    if texts(names).contains(name) {
        let i = choose|i: int| 0 <= i < texts(names).len() && texts(names)[i] == name;
        assert(names[i]@ == name);
    }
}

} // verus!
