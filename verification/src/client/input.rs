//! What keys and pasted text do.

use super::verification::VerifyAction;
use crate::text::{chars_of, is_white_space};
use vstd::prelude::*;
use vstd::string::*;

verus! {

use crate::encoding::texts;
use crate::text::white_space;

/// Where keys go.
#[derive(Debug, Clone, Copy, PartialEq, Eq, Structural)]
pub enum Focus {
    Conversations,
    Composer,
}

impl Default for Focus {
    fn default() -> (out: Self)
        ensures
            out is Composer,
    {
        Focus::Composer
    }
}

/// The window that is open over the chat.
#[derive(Debug, Clone, Copy, PartialEq, Eq, Structural)]
pub enum Window {
    Closed,
    NewChat,
    Help,
    Verification,
}

/// A key.
#[derive(Debug, Clone, Copy, PartialEq, Eq, Structural)]
pub enum KeyCode {
    Char(char),
    Enter,
    Tab,
    Esc,
    Up,
    Down,
    PageUp,
    PageDown,
    End,
    Function(u8),
    Other,
}

/// Which keys are held with it, as far as that matters.
#[derive(Debug, Clone, Copy, PartialEq, Eq, Structural)]
pub enum Modifiers {
    Plain,
    /// Control and no other.
    Control,
    Other,
}

/// What a key does.
#[derive(Debug, Clone, Copy, PartialEq, Eq, Structural)]
pub enum KeyAction {
    Nothing,
    Quit,
    OpenNewChat,
    OpenHelp,
    CloseWindow,
    Verify(VerifyAction),
    PageUp,
    PageDown,
    ScrollToEnd,
    FocusComposer,
    FocusConversations,
    SelectPrevious,
    SelectNext,
    OpenSelected,
    /// The name in the window is that of the new chat.
    SubmitNewChat,
    /// The key edits the name in the window.
    EditNewChat,
    /// The draft is to be sent.
    Send,
    Newline,
    /// The key edits the draft.
    Edit,
}

/// What a key does in a window.
pub open spec fn window_action(window: Window, code: KeyCode, modifiers: Modifiers) -> KeyAction {
    if code == KeyCode::Esc {
        KeyAction::CloseWindow
    } else {
        match window {
            Window::NewChat => if code == KeyCode::Enter && modifiers == Modifiers::Plain {
                KeyAction::SubmitNewChat
            } else {
                KeyAction::EditNewChat
            },
            Window::Help => if code == KeyCode::Function(1) || code == KeyCode::Char('?') {
                KeyAction::CloseWindow
            } else {
                KeyAction::Nothing
            },
            Window::Verification => match code {
                KeyCode::Char('y') => KeyAction::Verify(VerifyAction::Confirm),
                KeyCode::Char('x') => KeyAction::Verify(VerifyAction::Clear),
                _ => KeyAction::Nothing,
            },
            Window::Closed => KeyAction::Nothing,
        }
    }
}

/// What a key does in the list of conversations.
pub open spec fn conversations_action(code: KeyCode) -> KeyAction {
    match code {
        KeyCode::Up => KeyAction::SelectPrevious,
        KeyCode::Down => KeyAction::SelectNext,
        KeyCode::Enter => KeyAction::OpenSelected,
        KeyCode::Tab => KeyAction::FocusComposer,
        KeyCode::Esc => KeyAction::FocusComposer,
        KeyCode::Char('n') => KeyAction::OpenNewChat,
        KeyCode::Char('?') => KeyAction::OpenHelp,
        KeyCode::Char('v') => KeyAction::Verify(VerifyAction::View),
        KeyCode::Char('q') => KeyAction::Quit,
        _ => KeyAction::Nothing,
    }
}

/// What a key does in the composer.
pub open spec fn composer_action(code: KeyCode, modifiers: Modifiers) -> KeyAction {
    if code == KeyCode::Tab || code == KeyCode::Esc {
        KeyAction::FocusConversations
    } else if code == KeyCode::Enter {
        if modifiers == Modifiers::Plain {
            KeyAction::Send
        } else {
            KeyAction::Newline
        }
    } else if code == KeyCode::Char('j') && modifiers == Modifiers::Control {
        KeyAction::Newline
    } else {
        KeyAction::Edit
    }
}

/// What a key does: it quits from anywhere, goes to the window if one is open,
/// and otherwise opens one, scrolls, or goes where the focus is.
pub open spec fn spec_key_action(
    focus: Focus,
    window: Window,
    code: KeyCode,
    modifiers: Modifiers,
) -> KeyAction {
    if (code == KeyCode::Char('c') || code == KeyCode::Char('d')) && modifiers
        == Modifiers::Control {
        KeyAction::Quit
    } else if window != Window::Closed {
        window_action(window, code, modifiers)
    } else if code == KeyCode::Char('n') && modifiers == Modifiers::Control {
        KeyAction::OpenNewChat
    } else if code == KeyCode::Function(2) {
        KeyAction::Verify(VerifyAction::View)
    } else if code == KeyCode::Function(1) {
        KeyAction::OpenHelp
    } else if code == KeyCode::PageUp {
        KeyAction::PageUp
    } else if code == KeyCode::PageDown {
        KeyAction::PageDown
    } else if code == KeyCode::End && modifiers == Modifiers::Plain {
        KeyAction::ScrollToEnd
    } else {
        match focus {
            Focus::Conversations => conversations_action(code),
            Focus::Composer => composer_action(code, modifiers),
        }
    }
}

fn in_window(window: Window, code: KeyCode, modifiers: Modifiers) -> (out: KeyAction)
    ensures
        out == window_action(window, code, modifiers),
{
    if code == KeyCode::Esc {
        return KeyAction::CloseWindow;
    }
    match window {
        Window::NewChat => if code == KeyCode::Enter && modifiers == Modifiers::Plain {
            KeyAction::SubmitNewChat
        } else {
            KeyAction::EditNewChat
        },
        Window::Help => if code == KeyCode::Function(1) || code == KeyCode::Char('?') {
            KeyAction::CloseWindow
        } else {
            KeyAction::Nothing
        },
        Window::Verification => match code {
            KeyCode::Char('y') => KeyAction::Verify(VerifyAction::Confirm),
            KeyCode::Char('x') => KeyAction::Verify(VerifyAction::Clear),
            _ => KeyAction::Nothing,
        },
        Window::Closed => KeyAction::Nothing,
    }
}

fn in_conversations(code: KeyCode) -> (out: KeyAction)
    ensures
        out == conversations_action(code),
{
    match code {
        KeyCode::Up => KeyAction::SelectPrevious,
        KeyCode::Down => KeyAction::SelectNext,
        KeyCode::Enter => KeyAction::OpenSelected,
        KeyCode::Tab => KeyAction::FocusComposer,
        KeyCode::Esc => KeyAction::FocusComposer,
        KeyCode::Char('n') => KeyAction::OpenNewChat,
        KeyCode::Char('?') => KeyAction::OpenHelp,
        KeyCode::Char('v') => KeyAction::Verify(VerifyAction::View),
        KeyCode::Char('q') => KeyAction::Quit,
        _ => KeyAction::Nothing,
    }
}

fn in_composer(code: KeyCode, modifiers: Modifiers) -> (out: KeyAction)
    ensures
        out == composer_action(code, modifiers),
{
    if code == KeyCode::Tab || code == KeyCode::Esc {
        KeyAction::FocusConversations
    } else if code == KeyCode::Enter {
        if modifiers == Modifiers::Plain {
            KeyAction::Send
        } else {
            KeyAction::Newline
        }
    } else if code == KeyCode::Char('j') && modifiers == Modifiers::Control {
        KeyAction::Newline
    } else {
        KeyAction::Edit
    }
}

/// What a key does.
pub fn key_action(focus: Focus, window: Window, code: KeyCode, modifiers: Modifiers) -> (out:
    KeyAction)
    ensures
        out == spec_key_action(focus, window, code, modifiers),
{
    if (code == KeyCode::Char('c') || code == KeyCode::Char('d')) && modifiers
        == Modifiers::Control {
        return KeyAction::Quit;
    }
    if window != Window::Closed {
        return in_window(window, code, modifiers);
    }
    if code == KeyCode::Char('n') && modifiers == Modifiers::Control {
        return KeyAction::OpenNewChat;
    }
    if code == KeyCode::Function(2) {
        return KeyAction::Verify(VerifyAction::View);
    }
    if code == KeyCode::Function(1) {
        return KeyAction::OpenHelp;
    }
    if code == KeyCode::PageUp {
        return KeyAction::PageUp;
    }
    if code == KeyCode::PageDown {
        return KeyAction::PageDown;
    }
    if code == KeyCode::End && modifiers == Modifiers::Plain {
        return KeyAction::ScrollToEnd;
    }
    match focus {
        Focus::Conversations => in_conversations(code),
        Focus::Composer => in_composer(code, modifiers),
    }
}

/// Where a pasted text goes.
#[derive(Debug, Clone, Copy, PartialEq, Eq, Structural)]
pub enum PasteAction {
    Nothing,
    /// Into the name in the window for a new chat, on one line.
    NewChat,
    /// Into the draft.
    Composer,
}

/// Where a pasted text goes: into the window for a new chat, or, where no window
/// is open, into the draft if that has the focus.
pub fn paste_action(focus: Focus, window: Window) -> (out: PasteAction)
    ensures
        out == (if window == Window::NewChat {
            PasteAction::NewChat
        } else if window == Window::Closed && focus == Focus::Composer {
            PasteAction::Composer
        } else {
            PasteAction::Nothing
        }),
{
    if window == Window::NewChat {
        PasteAction::NewChat
    } else if window == Window::Closed && focus == Focus::Composer {
        PasteAction::Composer
    } else {
        PasteAction::Nothing
    }
}

/// A text on one line.
pub open spec fn flat(text: Seq<char>) -> Seq<char> {
    text.filter(|c: char| c != '\r' && c != '\n')
}

/// A pasted text as it goes into the name of a new chat: on one line.
pub fn flatten(text: &str) -> (out: String)
    ensures
        out@ == flat(text@),
{
    let chars = chars_of(text);
    let ghost keep = |c: char| c != '\r' && c != '\n';
    let mut out = String::new();
    let mut i: usize = 0;
    assert(out@ =~= chars@.take(0).filter(keep)) by {
        reveal(Seq::filter);
    }
    while i < chars.len()
        invariant
            i <= chars@.len(),
            keep == (|c: char| c != '\r' && c != '\n'),
            out@ == chars@.take(i as int).filter(keep),
        decreases chars@.len() - i,
    {
        let c = chars[i];
        let ghost more = chars@.take(i + 1);
        assert(more.drop_last() =~= chars@.take(i as int));
        assert(more.filter(keep) == if keep(c) {
            chars@.take(i as int).filter(keep).push(c)
        } else {
            chars@.take(i as int).filter(keep)
        }) by {
            reveal(Seq::filter);
            assert(more.last() == c);
        }
        if c != '\r' && c != '\n' {
            out.push(c);
        }
        i += 1;
    }
    assert(chars@.take(i as int) =~= chars@);
    out
}

/// `inner` is `text` without the white space at its ends.
pub open spec fn is_trimmed(inner: Seq<char>, text: Seq<char>) -> bool {
    exists|from: int, until: int|
        {
            &&& 0 <= from <= until <= text.len()
            &&& inner == #[trigger] text.subrange(from, until)
            &&& forall|i: int| 0 <= i < from ==> white_space(#[trigger] text[i])
            &&& forall|i: int| until <= i < text.len() ==> white_space(#[trigger] text[i])
            &&& from < until ==> !white_space(text[from]) && !white_space(text[until - 1])
        }
}

/// A text without the white space at its ends.
pub fn trimmed(text: &str) -> (out: String)
    ensures
        is_trimmed(out@, text@),
{
    let chars = chars_of(text);
    let mut from: usize = 0;
    while from < chars.len() && is_white_space(chars[from])
        invariant
            from <= chars@.len(),
            forall|i: int| 0 <= i < from ==> white_space(#[trigger] chars@[i]),
        decreases chars@.len() - from,
    {
        from += 1;
    }
    let mut until: usize = chars.len();
    while until > from && is_white_space(chars[until - 1])
        invariant
            from <= until <= chars@.len(),
            from < chars@.len() ==> !white_space(chars@[from as int]),
            forall|i: int| until <= i < chars@.len() ==> white_space(#[trigger] chars@[i]),
        decreases until,
    {
        until -= 1;
    }
    let mut out = String::new();
    let mut i: usize = from;
    assert(out@ =~= chars@.subrange(from as int, from as int));
    while i < until
        invariant
            from <= i <= until <= chars@.len(),
            out@ == chars@.subrange(from as int, i as int),
        decreases until - i,
    {
        out.push(chars[i]);
        assert(out@ =~= chars@.subrange(from as int, i + 1));
        i += 1;
    }
    assert(out@ == text@.subrange(from as int, until as int));
    out
}

/// Texts one after the other, with `between` between every two.
pub open spec fn joined_with(parts: Seq<Seq<char>>, between: Seq<char>) -> Seq<char>
    decreases parts.len(),
{
    if parts.len() == 0 {
        Seq::empty()
    } else if parts.len() == 1 {
        parts[0]
    } else {
        joined_with(parts.drop_last(), between) + between + parts.last()
    }
}

/// Texts one after the other, with `between` between every two.
pub fn join(parts: &Vec<String>, between: &str) -> (out: String)
    ensures
        out@ == joined_with(texts(parts@), between@),
{
    let ghost views = texts(parts@);
    let mut out = String::new();
    let mut i: usize = 0;
    assert(out@ =~= joined_with(views.take(0), between@));
    while i < parts.len()
        invariant
            i <= parts@.len(),
            views == texts(parts@),
            out@ == joined_with(views.take(i as int), between@),
        decreases parts@.len() - i,
    {
        let ghost more = views.take(i + 1);
        assert(more.drop_last() =~= views.take(i as int));
        assert(more.last() == parts@[i as int]@);
        if i > 0 {
            out.append(between);
        }
        out.append(parts[i].as_str());
        assert(out@ =~= joined_with(more, between@));
        i += 1;
    }
    assert(views.take(i as int) =~= views);
    out
}

/// The name in the window for a new chat: its lines joined, without white
/// space at its ends.
pub fn new_chat_name(lines: &Vec<String>) -> (out: String)
    ensures
        is_trimmed(out@, joined_with(texts(lines@), Seq::empty())),
{
    let joined = join(lines, "");
    assert(""@ =~= Seq::<char>::empty()) by {
        reveal_strlit("");
    }
    trimmed(joined.as_str())
}

/// The position of a name in a list, or the first.
pub open spec fn position_or_first(peers: Seq<String>, name: Option<String>, at: int) -> bool {
    match name {
        Some(name) => {
            ||| 0 <= at < peers.len() && peers[at]@ == name@ && forall|j: int|
                0 <= j < at ==> (#[trigger] peers[j])@ != name@
            ||| at == 0 && forall|j: int| 0 <= j < peers.len() ==> (#[trigger] peers[j])@ != name@
        },
        None => at == 0,
    }
}

/// The position of a name in a list, or the first.
pub fn selected_position(peers: &Vec<String>, name: &Option<String>) -> (out: usize)
    ensures
        position_or_first(peers@, *name, out as int),
{
    match name {
        Some(wanted) => {
            let mut i: usize = 0;
            while i < peers.len()
                invariant
                    *name == Some(*wanted),
                    i <= peers@.len(),
                    forall|j: int| 0 <= j < i ==> (#[trigger] peers@[j])@ != wanted@,
                decreases peers@.len() - i,
            {
                if peers[i] == *wanted {
                    return i;
                }
                i += 1;
            }
            0
        },
        None => 0,
    }
}

/// `out` is one up or down from the selected name in a list, which has ends; in
/// an empty list there is none.
pub open spec fn moves_selection(
    peers: Seq<String>,
    selected: Option<String>,
    down: bool,
    out: Option<String>,
) -> bool {
    if peers.len() == 0 {
        out is None
    } else {
        exists|at: int|
            {
                &&& #[trigger] position_or_first(peers, selected, at)
                &&& out matches Some(name) && name@ == peers[if down {
                    if at + 1 < peers.len() {
                        at + 1
                    } else {
                        peers.len() - 1
                    }
                } else if at > 0 {
                    at - 1
                } else {
                    0
                }]@
            }
    }
}

/// The conversation that is selected after moving up or down in a list.
pub fn move_conversation_selection(peers: &Vec<String>, selected: &Option<String>, down: bool) -> (
    out: Option<String>)
    ensures
        moves_selection(peers@, *selected, down, out),
{
    if peers.len() == 0 {
        return None;
    }
    let at: usize = selected_position(peers, selected);
    assert(position_or_first(peers@, *selected, at as int));
    let next: usize = if down {
        if at + 1 < peers.len() {
            at + 1
        } else {
            peers.len() - 1
        }
    } else if at > 0 {
        at - 1
    } else {
        0
    };
    Some(peers[next].clone())
}

} // verus!
