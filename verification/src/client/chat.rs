//! The chat history: what is stored of it and what is shown.

use crate::text::chars_of;
use vstd::prelude::*;
use vstd::string::*;

verus! {

/// How many stored messages of a conversation are shown at first.
pub const HISTORY_LOAD_LIMIT: u32 = 100;

/// An entry of the chat history.
#[derive(Debug)]
#[non_exhaustive]
pub enum ChatEntry {
    Sent(String),
    Received { sender: String, text: String },
    Status(String),
    Warning(String),
}

impl Clone for ChatEntry {
    fn clone(&self) -> (out: Self)
        ensures
            out == *self,
    {
        match self {
            ChatEntry::Sent(text) => ChatEntry::Sent(text.clone()),
            ChatEntry::Received { sender, text } => ChatEntry::Received {
                sender: sender.clone(),
                text: text.clone(),
            },
            ChatEntry::Status(text) => ChatEntry::Status(text.clone()),
            ChatEntry::Warning(text) => ChatEntry::Warning(text.clone()),
        }
    }
}

/// Which way a message went.
#[derive(Debug, Clone, Copy, PartialEq, Eq, Structural)]
pub enum MessageDirection {
    Sent,
    Received,
}

impl MessageDirection {
    /// The number under which the direction is stored.
    pub open spec fn spec_code(self) -> u8 {
        match self {
            MessageDirection::Sent => 0,
            MessageDirection::Received => 1,
        }
    }

    /// The number under which the direction is stored.
    pub fn code(self) -> (out: u8)
        ensures
            out == self.spec_code(),
    {
        match self {
            MessageDirection::Sent => 0,
            MessageDirection::Received => 1,
        }
    }

    /// The direction that is stored under a number.
    pub fn from_code(code: u8) -> (out: Option<Self>)
        ensures
            match out {
                Some(direction) => direction.spec_code() == code,
                None => code > 1,
            },
    {
        if code == 0 {
            Some(MessageDirection::Sent)
        } else if code == 1 {
            Some(MessageDirection::Received)
        } else {
            None
        }
    }
}

/// A message as it is stored.
pub struct StoredMessage {
    pub peer_id: String,
    pub direction: MessageDirection,
    pub body: String,
}

impl From<StoredMessage> for ChatEntry {
    fn from(msg: StoredMessage) -> (out: Self) {
        match msg.direction {
            MessageDirection::Sent => ChatEntry::Sent(msg.body),
            MessageDirection::Received => ChatEntry::Received {
                sender: msg.peer_id,
                text: msg.body,
            },
        }
    }
}

impl vstd::std_specs::convert::FromSpecImpl<StoredMessage> for ChatEntry {
    open spec fn obeys_from_spec() -> bool {
        true
    }

    open spec fn from_spec(msg: StoredMessage) -> ChatEntry {
        match msg.direction {
            MessageDirection::Sent => ChatEntry::Sent(msg.body),
            MessageDirection::Received => ChatEntry::Received {
                sender: msg.peer_id,
                text: msg.body,
            },
        }
    }
}

/// How a stored message is shown.
pub open spec fn shown_as(msg: StoredMessage) -> ChatEntry {
    match msg.direction {
        MessageDirection::Sent => ChatEntry::Sent(msg.body),
        MessageDirection::Received => ChatEntry::Received { sender: msg.peer_id, text: msg.body },
    }
}

/// The history of a conversation, out of its stored messages with the newest
/// first.
pub fn history_from(newest_first: Vec<StoredMessage>) -> (out: Vec<ChatEntry>)
    ensures
        out@.len() == newest_first@.len(),
        forall|i: int|
            0 <= i < out@.len() ==> #[trigger] out@[i] == shown_as(
                newest_first@[newest_first@.len() - 1 - i],
            ),
{
    let mut rest = newest_first;
    let ghost all = rest@;
    let mut out: Vec<ChatEntry> = Vec::new();
    while rest.len() > 0
        invariant
            rest@.len() + out@.len() == all.len(),
            rest@ == all.take(rest@.len() as int),
            forall|i: int|
                0 <= i < out@.len() ==> #[trigger] out@[i] == shown_as(all[all.len() - 1 - i]),
        decreases rest@.len(),
    {
        let ghost before = rest@;
        match rest.pop() {
            Some(message) => {
                assert(message == all[before.len() - 1]);
                assert(rest@ =~= all.take(rest@.len() as int));
                out.push(ChatEntry::from(message));
            },
            None => {},
        }
    }
    out
}

/// How the identity key of a peer relates to the one that was stored.
#[derive(Debug)]
pub enum IdentityKeyStatus {
    /// The first key that is seen of the peer.
    New,
    Unchanged,
    /// The peer has another key now: a verification of the old one is void.
    Changed { old_key: String },
}

/// Compares the identity key of a peer with the one that was stored.
pub fn compare_identity_key(stored: Option<String>, identity_key: &String) -> (out:
    IdentityKeyStatus)
    ensures
        match stored {
            None => out is New,
            Some(old) => if old@ == identity_key@ {
                out is Unchanged
            } else {
                out == (IdentityKeyStatus::Changed { old_key: old })
            },
        },
{
    match stored {
        None => IdentityKeyStatus::New,
        Some(old_key) => if old_key == *identity_key {
            IdentityKeyStatus::Unchanged
        } else {
            IdentityKeyStatus::Changed { old_key }
        },
    }
}

/// The lines of a text: its parts between line feeds.
pub open spec fn lines_of(text: Seq<char>) -> Seq<Seq<char>>
    decreases text.len(),
{
    if text.len() == 0 {
        seq![Seq::empty()]
    } else {
        let before = lines_of(text.drop_last());
        if text.last() == '\n' {
            before.push(Seq::empty())
        } else {
            before.drop_last().push(before.last().push(text.last()))
        }
    }
}

/// The lines of a text, each as text.
pub fn split_lines(text: &str) -> (out: Vec<String>)
    ensures
        crate::encoding::texts(out@) == lines_of(text@),
{
    let chars = chars_of(text);
    let mut out: Vec<String> = Vec::new();
    let mut current = String::new();
    let mut i: usize = 0;
    assert(current@ =~= Seq::<char>::empty());
    assert(crate::encoding::texts(out@).push(current@) =~= lines_of(chars@.take(0)));
    while i < chars.len()
        invariant
            i <= chars@.len(),
            crate::encoding::texts(out@).push(current@) == lines_of(chars@.take(i as int)),
        decreases chars@.len() - i,
    {
        let ghost more = chars@.take(i + 1);
        let ghost before = crate::encoding::texts(out@).push(current@);
        assert(more.drop_last() =~= chars@.take(i as int));
        assert(before.drop_last() =~= crate::encoding::texts(out@));
        assert(before.last() == current@);
        let c = chars[i];
        if c == '\n' {
            let ghost finished = out@;
            let ghost line = current@;
            out.push(current);
            current = String::new();
            assert(current@ =~= Seq::<char>::empty());
            assert(crate::encoding::texts(out@) =~= crate::encoding::texts(finished).push(line));
        } else {
            current.push(c);
        }
        assert(crate::encoding::texts(out@).push(current@) =~= lines_of(more));
        i += 1;
    }
    assert(chars@.take(i as int) =~= chars@);
    let ghost finished = out@;
    let ghost line = current@;
    out.push(current);
    assert(crate::encoding::texts(out@) =~= crate::encoding::texts(finished).push(line));
    out
}

/// How a line of the history is set.
#[derive(Debug, Clone, Copy, PartialEq, Eq, Structural)]
pub enum LineStyle {
    /// Between two entries.
    Blank,
    SentName,
    SentText,
    ReceivedName,
    ReceivedText,
    Status,
    Warning,
}

/// A line of the history.
pub struct ShownLine {
    pub style: LineStyle,
    pub text: String,
}

/// A line of the history, as a mathematical value.
pub open spec fn line(style: LineStyle, text: Seq<char>) -> (LineStyle, Seq<char>) {
    (style, text)
}

/// The lines of a text in one style.
pub open spec fn styled(style: LineStyle, lines: Seq<Seq<char>>) -> Seq<(LineStyle, Seq<char>)> {
    lines.map_values(|text: Seq<char>| line(style, text))
}

/// The lines of an entry: the name of who wrote it and the lines of the text,
/// or a single line.
pub open spec fn entry_lines(entry: ChatEntry) -> Seq<(LineStyle, Seq<char>)> {
    match entry {
        ChatEntry::Sent(text) => seq![line(LineStyle::SentName, "You"@)] + styled(
            LineStyle::SentText,
            lines_of(text@),
        ),
        ChatEntry::Received { sender, text } => seq![line(LineStyle::ReceivedName, sender@)]
            + styled(LineStyle::ReceivedText, lines_of(text@)),
        ChatEntry::Status(text) => seq![line(LineStyle::Status, text@)],
        ChatEntry::Warning(text) => seq![line(LineStyle::Warning, "\u{26a0} "@ + text@)],
    }
}

/// The lines of a history, with a blank line between two entries.
pub open spec fn history_lines(history: Seq<ChatEntry>) -> Seq<(LineStyle, Seq<char>)>
    decreases history.len(),
{
    if history.len() == 0 {
        Seq::empty()
    } else {
        let before = history_lines(history.drop_last());
        let gap = if history.len() == 1 {
            Seq::empty()
        } else {
            seq![line(LineStyle::Blank, Seq::empty())]
        };
        before + gap + entry_lines(history.last())
    }
}

/// The shown lines, as mathematical values.
pub open spec fn line_views(lines: Seq<ShownLine>) -> Seq<(LineStyle, Seq<char>)> {
    lines.map_values(|shown: ShownLine| line(shown.style, shown.text@))
}

fn push_line(out: &mut Vec<ShownLine>, style: LineStyle, text: String)
    ensures
        line_views(final(out)@) == line_views(old(out)@).push(line(style, text@)),
{
    let ghost before = out@;
    out.push(ShownLine { style, text });
    assert(line_views(out@) =~= line_views(before).push(line(style, text@)));
}

fn push_lines(out: &mut Vec<ShownLine>, style: LineStyle, text: &str)
    ensures
        line_views(final(out)@) == line_views(old(out)@) + styled(style, lines_of(text@)),
{
    let ghost before = line_views(out@);
    let parts = split_lines(text);
    let ghost all = styled(style, lines_of(text@));
    let mut i: usize = 0;
    assert(line_views(out@) =~= before + all.take(0));
    while i < parts.len()
        invariant
            i <= parts@.len(),
            all == styled(style, crate::encoding::texts(parts@)),
            all.len() == parts@.len(),
            line_views(out@) == before + all.take(i as int),
        decreases parts@.len() - i,
    {
        push_line(out, style, parts[i].clone());
        assert(before + all.take(i + 1) =~= (before + all.take(i as int)).push(all[i as int]));
        i += 1;
    }
    assert(all.take(i as int) =~= all);
}

/// The lines under which a history is shown.
pub fn message_text(history: &Vec<ChatEntry>) -> (out: Vec<ShownLine>)
    ensures
        line_views(out@) == history_lines(history@),
{
    let mut out: Vec<ShownLine> = Vec::new();
    let mut i: usize = 0;
    assert(line_views(out@) =~= history_lines(history@.take(0)));
    while i < history.len()
        invariant
            i <= history@.len(),
            line_views(out@) == history_lines(history@.take(i as int)),
        decreases history@.len() - i,
    {
        let ghost more = history@.take(i + 1);
        assert(more.drop_last() =~= history@.take(i as int));
        assert(more.last() == history@[i as int]);
        let ghost before = line_views(out@);
        if i > 0 {
            push_line(&mut out, LineStyle::Blank, String::new());
            assert(""@ =~= Seq::<char>::empty()) by {
                reveal_strlit("");
            }
        }
        let ghost spaced = line_views(out@);
        match &history[i] {
            ChatEntry::Sent(text) => {
                push_line(&mut out, LineStyle::SentName, "You".to_owned());
                push_lines(&mut out, LineStyle::SentText, text.as_str());
            },
            ChatEntry::Received { sender, text } => {
                push_line(&mut out, LineStyle::ReceivedName, sender.clone());
                push_lines(&mut out, LineStyle::ReceivedText, text.as_str());
            },
            ChatEntry::Status(text) => {
                push_line(&mut out, LineStyle::Status, text.clone());
            },
            ChatEntry::Warning(text) => {
                let mut warning = "\u{26a0} ".to_owned();
                warning.append(text.as_str());
                push_line(&mut out, LineStyle::Warning, warning);
            },
        }
        assert(line_views(out@) =~= spaced + entry_lines(history@[i as int]));
        assert(line_views(out@) =~= history_lines(more));
        i += 1;
    }
    assert(history@.take(i as int) =~= history@);
    out
}

/// Lines as one text, with a line feed between two of them.
pub open spec fn text_of_lines(lines: Seq<Seq<char>>) -> Seq<char>
    decreases lines.len(),
{
    if lines.len() == 0 {
        Seq::empty()
    } else if lines.len() == 1 {
        lines[0]
    } else {
        text_of_lines(lines.drop_last()).push('\n') + lines.last()
    }
}

/// The texts of shown lines.
pub open spec fn shown_texts(lines: Seq<(LineStyle, Seq<char>)>) -> Seq<Seq<char>> {
    lines.map_values(|shown: (LineStyle, Seq<char>)| shown.1)
}

/// The lines of a text are its parts between line feeds: none of them holds
/// one, and with line feeds between them they are the text again.
pub proof fn law_lines_are_the_text(text: Seq<char>)
    ensures
        lines_of(text).len() > 0,
        text_of_lines(lines_of(text)) == text,
        forall|i: int|
            0 <= i < lines_of(text).len() ==> !(#[trigger] lines_of(text)[i]).contains('\n'),
    decreases text.len(),
{
    let lines = lines_of(text);
    if text.len() == 0 {
        assert(text_of_lines(lines) =~= text);
    } else {
        let rest = text.drop_last();
        let before = lines_of(rest);
        law_lines_are_the_text(rest);
        if text.last() == '\n' {
            assert(lines.drop_last() =~= before);
            assert(text_of_lines(lines) =~= text);
            assert forall|i: int| 0 <= i < lines.len() implies !(#[trigger] lines[i]).contains(
                '\n',
            ) by {
                if i < before.len() {
                    assert(lines[i] == before[i]);
                }
            }
        } else {
            let longer = before.last().push(text.last());
            assert(lines == before.drop_last().push(longer));
            assert(lines.drop_last() =~= before.drop_last());
            if before.len() == 1 {
                assert(text_of_lines(before) == before[0]);
                assert(text_of_lines(lines) == longer);
            } else {
                let start = text_of_lines(before.drop_last()).push('\n');
                assert(text_of_lines(before) == start + before.last());
                assert(text_of_lines(lines) == start + longer);
            }
            assert(rest.push(text.last()) =~= text);
            assert(text_of_lines(lines) =~= text);
            assert forall|i: int| 0 <= i < lines.len() implies !(#[trigger] lines[i]).contains(
                '\n',
            ) by {
                if i < before.len() - 1 {
                    assert(lines[i] == before[i]);
                } else {
                    assert(lines[i] == longer);
                    assert(!before[before.len() - 1].contains('\n'));
                    assert forall|k: int| 0 <= k < longer.len() implies longer[k] != '\n' by {
                        if k < before.last().len() {
                            assert(before.last()[k] == longer[k]);
                            assert(before.last().contains(longer[k]));
                        }
                    }
                }
            }
        }
    }
}

/// A message is shown as it was written: first a line with the name of who
/// wrote it, then its text line by line. No line holds a line feed, and the
/// lines of the text joined by line feeds are the text.
pub proof fn law_message_is_shown_line_by_line(entry: ChatEntry)
    requires
        entry is Sent || entry is Received,
    ensures
        ({
            let lines = entry_lines(entry);
            let (name, text) = match entry {
                ChatEntry::Received { sender, text } => (sender@, text@),
                ChatEntry::Sent(text) => ("You"@, text@),
                _ => arbitrary(),
            };
            &&& lines.len() >= 2
            &&& lines[0].1 == name
            &&& lines[0].0 == (if entry is Sent {
                LineStyle::SentName
            } else {
                LineStyle::ReceivedName
            })
            &&& text_of_lines(shown_texts(lines.skip(1))) == text
            &&& forall|i: int|
                1 <= i < lines.len() ==> {
                    &&& !(#[trigger] lines[i]).1.contains('\n')
                    &&& lines[i].0 == (if entry is Sent {
                        LineStyle::SentText
                    } else {
                        LineStyle::ReceivedText
                    })
                }
        }),
{
    let text = match entry {
        ChatEntry::Received { text, .. } => text@,
        ChatEntry::Sent(text) => text@,
        _ => arbitrary(),
    };
    law_lines_are_the_text(text);
    let lines = entry_lines(entry);
    assert(shown_texts(lines.skip(1)) =~= lines_of(text));
    assert forall|i: int| 1 <= i < lines.len() implies !(#[trigger] lines[i]).1.contains('\n') by {
        assert(lines[i].1 == lines_of(text)[i - 1]);
    }
}

/// A notice in the history is one line, a warning one with a sign in front.
pub proof fn law_notice_is_one_line(entry: ChatEntry)
    ensures
        entry matches ChatEntry::Status(text) ==> entry_lines(entry) == seq![
            (LineStyle::Status, text@),
        ],
        entry matches ChatEntry::Warning(text) ==> entry_lines(entry) == seq![
            (LineStyle::Warning, "\u{26a0} "@ + text@),
        ],
{
}

/// A history is shown entry by entry in its order: that of two histories in a
/// row is that of the first, a blank line, and that of the second; that of one
/// entry is the entry; and that of none is empty.
pub proof fn law_history_in_order(first: Seq<ChatEntry>, second: Seq<ChatEntry>)
    ensures
        first.len() == 0 ==> history_lines(first) == Seq::<(LineStyle, Seq<char>)>::empty(),
        first.len() == 1 ==> history_lines(first) == entry_lines(first[0]),
        first.len() > 0 && second.len() > 0 ==> history_lines(first + second) == history_lines(
            first,
        ).push((LineStyle::Blank, Seq::empty())) + history_lines(second),
    decreases second.len(),
{
    if first.len() == 1 {
        assert(history_lines(first.drop_last()) =~= Seq::empty());
        assert(history_lines(first) =~= entry_lines(first[0]));
    }
    if first.len() > 0 && second.len() > 0 {
        let all = first + second;
        let rest = second.drop_last();
        assert(all.drop_last() =~= first + rest);
        assert(all.last() == second.last());
        if rest.len() == 0 {
            assert(first + rest =~= first);
            assert(history_lines(rest) =~= Seq::empty());
            assert(history_lines(all) =~= history_lines(first).push(
                (LineStyle::Blank, Seq::empty()),
            ) + history_lines(second));
        } else {
            law_history_in_order(first, rest);
            assert(history_lines(all) =~= history_lines(first).push(
                (LineStyle::Blank, Seq::empty()),
            ) + history_lines(second));
        }
    }
}

/// A stored message is shown on the side of whoever wrote it, with its whole
/// text.
pub proof fn law_stored_message_is_shown(msg: StoredMessage)
    ensures
        msg.direction == MessageDirection::Sent ==> shown_as(msg) == ChatEntry::Sent(msg.body),
        msg.direction == MessageDirection::Received ==> (shown_as(msg) matches
            ChatEntry::Received { sender, text } && sender == msg.peer_id && text == msg.body),
{
}

/// The two directions are stored apart, under 0 and 1.
pub proof fn law_directions_are_stored_apart(a: MessageDirection, b: MessageDirection)
    ensures
        a.spec_code() == b.spec_code() ==> a == b,
        a.spec_code() == 0 <==> a == MessageDirection::Sent,
        a.spec_code() == 1 <==> a == MessageDirection::Received,
{
}

} // verus!
