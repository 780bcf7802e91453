//! The popup that completes slash commands.

use crate::text::{chars_of, is_white_space};
use vstd::prelude::*;
use vstd::string::*;

verus! {

use crate::text::white_space;

/// The column at which descriptions start.
pub const DESC_COL: usize = 20;

/// A slash command.
#[derive(Debug, Clone, Copy, PartialEq, Eq, Structural)]
pub enum Command {
    Chat,
    Notes,
    Contacts,
    Verify,
    Keys,
    Quit,
}

/// The slash commands, in the order in which they are shown.
pub const COMMANDS: [Command; 6] = [
    Command::Chat,
    Command::Notes,
    Command::Contacts,
    Command::Verify,
    Command::Keys,
    Command::Quit,
];

impl Command {
    pub open spec fn spec_name(self) -> Seq<char> {
        match self {
            Command::Chat => "chat"@,
            Command::Notes => "notes"@,
            Command::Contacts => "contacts"@,
            Command::Verify => "verify"@,
            Command::Keys => "keys"@,
            Command::Quit => "quit"@,
        }
    }

    /// The name, without the slash.
    pub fn name(self) -> (out: &'static str)
        ensures
            out@ == self.spec_name(),
    {
        match self {
            Command::Chat => "chat",
            Command::Notes => "notes",
            Command::Contacts => "contacts",
            Command::Verify => "verify",
            Command::Keys => "keys",
            Command::Quit => "quit",
        }
    }

    pub open spec fn spec_usage(self) -> Seq<char> {
        match self {
            Command::Chat => "/chat <user>"@,
            Command::Notes => "/notes"@,
            Command::Contacts => "/contacts"@,
            Command::Verify => "/verify [confirm|clear]"@,
            Command::Keys => "/keys"@,
            Command::Quit => "/quit"@,
        }
    }

    /// How the command is written.
    pub fn usage(self) -> (out: &'static str)
        ensures
            out@ == self.spec_usage(),
    {
        match self {
            Command::Chat => "/chat <user>",
            Command::Notes => "/notes",
            Command::Contacts => "/contacts",
            Command::Verify => "/verify [confirm|clear]",
            Command::Keys => "/keys",
            Command::Quit => "/quit",
        }
    }

    pub open spec fn spec_description(self) -> Seq<char> {
        match self {
            Command::Chat => "Start or switch conversation"@,
            Command::Notes => "Note to self"@,
            Command::Contacts => "List all contacts"@,
            Command::Verify => "Show safety number"@,
            Command::Keys => "Show keyboard shortcuts"@,
            Command::Quit => "Exit"@,
        }
    }

    /// What the command does.
    pub fn description(self) -> (out: &'static str)
        ensures
            out@ == self.spec_description(),
    {
        match self {
            Command::Chat => "Start or switch conversation",
            Command::Notes => "Note to self",
            Command::Contacts => "List all contacts",
            Command::Verify => "Show safety number",
            Command::Keys => "Show keyboard shortcuts",
            Command::Quit => "Exit",
        }
    }

    pub open spec fn spec_has_args(self) -> bool {
        self == Command::Chat || self == Command::Verify
    }

    /// Whether arguments can follow.
    pub fn has_args(self) -> (out: bool)
        ensures
            out == self.spec_has_args(),
    {
        self == Command::Chat || self == Command::Verify
    }
}

/// What a key does in the popup.
pub enum PopupAction {
    /// The key was for the popup, and no more is to be done.
    Consumed,
    /// The text is to be put in, and the popup closed.
    Complete(String),
    /// The text is to be put in and sent off.
    Submit(String),
    /// The popup is to be closed.
    Dismiss,
    /// The key is not for the popup.
    PassThrough,
}

/// A key, as far as the popup tells keys apart.
#[derive(Debug, Clone, Copy, PartialEq, Eq, Structural)]
pub enum PopupKey {
    Up,
    Down,
    Tab,
    Enter,
    Esc,
    Other,
}

/// The popup: the commands that begin with what has been typed, and which of
/// them is selected.
pub struct CommandPopup {
    pub filter: String,
    pub selected: usize,
    pub filtered_indices: Vec<usize>,
}

/// `start` is how `text` begins.
pub open spec fn begins(text: Seq<char>, start: Seq<char>) -> bool {
    start.len() <= text.len() && text.take(start.len() as int) == start
}

/// The first `n` commands that begin with the filter, by their positions.
pub open spec fn matching(filter: Seq<char>, n: int) -> Seq<usize>
    decreases n,
{
    if n <= 0 {
        Seq::empty()
    } else {
        let before = matching(filter, n - 1);
        if begins(COMMANDS@[n - 1].spec_name(), filter) {
            before.push((n - 1) as usize)
        } else {
            before
        }
    }
}

/// The text without white space at its start.
pub open spec fn without_indent(text: Seq<char>) -> Seq<char>
    decreases text.len(),
{
    if text.len() > 0 && white_space(text[0]) {
        without_indent(text.drop_first())
    } else {
        text
    }
}

/// The text up to the first white space.
pub open spec fn up_to_space(text: Seq<char>) -> Seq<char>
    decreases text.len(),
{
    if text.len() == 0 || white_space(text[0]) {
        Seq::empty()
    } else {
        seq![text[0]] + up_to_space(text.drop_first())
    }
}

/// The first word of a text.
pub open spec fn first_word(text: Seq<char>) -> Seq<char> {
    up_to_space(without_indent(text))
}

/// The word is the name of a command that takes arguments.
pub open spec fn takes_args(word: Seq<char>) -> bool {
    exists|i: int|
        0 <= i < COMMANDS@.len() && (#[trigger] COMMANDS@[i]).spec_name() == word
            && COMMANDS@[i].spec_has_args()
}

/// The popup stays open while this is typed: a slash and something that is not
/// a command followed by its arguments.
pub open spec fn stays_open(input: Seq<char>) -> bool {
    &&& input.len() > 0
    &&& input[0] == '/'
    &&& !(input.skip(1).len() > first_word(input.skip(1)).len() && takes_args(
        first_word(input.skip(1)),
    ))
}

/// A position in a list of so many, or the last if it is past it.
pub open spec fn clamped(selected: int, len: int) -> int {
    if len == 0 {
        0
    } else if selected >= len {
        len - 1
    } else {
        selected
    }
}

/// The text that a command completes to.
pub open spec fn completion(command: Command) -> Seq<char> {
    "/"@ + command.spec_name() + (if command.spec_has_args() {
        " "@
    } else {
        Seq::empty()
    })
}

fn begins_with(text: &Vec<char>, start: &Vec<char>) -> (out: bool)
    ensures
        out == begins(text@, start@),
{
    if start.len() > text.len() {
        return false;
    }
    let mut i: usize = 0;
    while i < start.len()
        invariant
            i <= start@.len() <= text@.len(),
            forall|j: int| 0 <= j < i ==> text@[j] == start@[j],
        decreases start@.len() - i,
    {
        if text[i] != start[i] {
            assert(text@.take(start@.len() as int)[i as int] != start@[i as int]);
            return false;
        }
        i += 1;
    }
    assert(text@.take(start@.len() as int) =~= start@);
    true
}

fn word_at_start(chars: &Vec<char>, from: usize) -> (out: Vec<char>)
    requires
        from <= chars@.len(),
    ensures
        out@ == first_word(chars@.skip(from as int)),
{
    let ghost text = chars@.skip(from as int);
    let mut start: usize = from;
    while start < chars.len() && is_white_space(chars[start])
        invariant
            from <= start <= chars@.len(),
            text == chars@.skip(from as int),
            without_indent(text) == without_indent(chars@.skip(start as int)),
        decreases chars@.len() - start,
    {
        assert(chars@.skip(start as int).drop_first() =~= chars@.skip(start + 1));
        start += 1;
    }
    let ghost word = chars@.skip(start as int);
    assert(without_indent(text) == word);
    let mut out: Vec<char> = Vec::new();
    let mut end: usize = start;
    assert(out@ + up_to_space(word) =~= up_to_space(word));
    while end < chars.len() && !is_white_space(chars[end])
        invariant
            start <= end <= chars@.len(),
            out@ + up_to_space(chars@.skip(end as int)) == up_to_space(word),
        decreases chars@.len() - end,
    {
        let ghost rest = chars@.skip(end as int);
        assert(rest.drop_first() =~= chars@.skip(end + 1));
        let ghost before = out@;
        out.push(chars[end]);
        assert(out@ + up_to_space(rest.drop_first()) =~= before + up_to_space(rest));
        end += 1;
    }
    assert(out@ + Seq::<char>::empty() =~= out@);
    out
}

fn text_of(chars: &Vec<char>) -> (out: String)
    ensures
        out@ == chars@,
{
    let mut out = String::new();
    let mut i: usize = 0;
    assert(out@ =~= chars@.take(0));
    while i < chars.len()
        invariant
            i <= chars@.len(),
            out@ == chars@.take(i as int),
        decreases chars@.len() - i,
    {
        out.push(chars[i]);
        assert(out@ =~= chars@.take(i + 1));
        i += 1;
    }
    assert(chars@.take(i as int) =~= chars@);
    out
}

/// A row of the popup.
pub struct PopupRow {
    pub usage: String,
    pub padding: String,
    pub description: String,
    pub selected: bool,
}

/// So many spaces.
pub open spec fn spaces(n: int) -> Seq<char> {
    Seq::new(n as nat, |i: int| ' ')
}

/// How a command is written in the popup.
pub open spec fn row_usage(command: Command) -> Seq<char> {
    "  "@ + command.spec_usage()
}

/// The space behind it: up to the column of the descriptions, at least one.
pub open spec fn row_padding(command: Command) -> Seq<char> {
    let used = row_usage(command).len();
    if used < DESC_COL {
        spaces(DESC_COL - used)
    } else {
        spaces(1)
    }
}

/// The description, as far as the width allows.
pub open spec fn row_description(command: Command, width: int) -> Seq<char> {
    let used = row_usage(command).len() + row_padding(command).len();
    let description = command.spec_description();
    if used + description.len() <= width {
        description
    } else if width - used > 3 {
        description.take(width - used - 3) + "..."@
    } else {
        Seq::empty()
    }
}

fn push_spaces(out: &mut String, n: usize)
    ensures
        final(out)@ == old(out)@ + spaces(n as int),
{
    let ghost before = out@;
    let mut i: usize = 0;
    assert(out@ =~= before + spaces(0));
    while i < n
        invariant
            i <= n,
            out@ == before + spaces(i as int),
        decreases n - i,
    {
        out.push(' ');
        assert(out@ =~= before + spaces(i + 1));
        i += 1;
    }
}

impl CommandPopup {
    /// The positions are those of the commands that begin with the filter, and
    /// the selection is among them.
    pub open spec fn wf(&self) -> bool {
        &&& self.filtered_indices@ == matching(self.filter@, 6)
        &&& self.filtered_indices@.len() > 0 ==> self.selected < self.filtered_indices@.len()
        &&& self.filtered_indices@.len() == 0 ==> self.selected == 0
    }

    /// The command that is selected, if any command begins with the filter.
    pub open spec fn spec_selected(&self) -> Option<Command> {
        if self.selected < self.filtered_indices@.len() {
            Some(COMMANDS@[self.filtered_indices@[self.selected as int] as int])
        } else {
            None
        }
    }

    /// All commands, with the first selected.
    pub fn new() -> (out: Self)
        ensures
            out.wf(),
            out.filter@ == Seq::<char>::empty(),
            out.selected == 0,
    {
        let mut popup = CommandPopup {
            filter: String::new(),
            selected: 0,
            filtered_indices: Vec::new(),
        };
        assert(popup.filter@ =~= Seq::<char>::empty());
        popup.refilter();
        popup
    }

    /// Takes over what has been typed. Returns whether the popup stays open.
    pub fn sync(&mut self, input: &str) -> (out: bool)
        ensures
            out == stays_open(input@),
            !out ==> *final(self) == *old(self),
            out ==> {
                &&& final(self).filter@ == first_word(input@.skip(1))
                &&& final(self).filtered_indices@ == matching(final(self).filter@, 6)
                &&& final(self).selected == clamped(
                    old(self).selected as int,
                    final(self).filtered_indices@.len() as int,
                )
                &&& final(self).wf()
            },
    {
        let chars = chars_of(input);
        if chars.len() == 0 || chars[0] != '/' {
            return false;
        }
        let word = word_at_start(&chars, 1);
        let token = text_of(&word);
        if chars.len() - 1 > word.len() {
            let mut i: usize = 0;
            while i < 6
                invariant
                    i <= 6,
                    token@ == word@,
                    chars@ == input@,
                    chars@.len() > 0,
                    chars@.len() - 1 > word@.len(),
                    word@ == first_word(chars@.skip(1)),
                    forall|j: int|
                        0 <= j < i ==> !((#[trigger] COMMANDS@[j]).spec_name() == word@
                            && COMMANDS@[j].spec_has_args()),
                decreases 6 - i,
            {
                let command = COMMANDS[i];
                if token == command.name().to_owned() && command.has_args() {
                    assert(COMMANDS@[i as int].spec_name() == word@);
                    return false;
                }
                i += 1;
            }
        }
        self.filter = token;
        self.refilter();
        true
    }

    /// Finds the commands that begin with the filter, and keeps the selection
    /// among them.
    fn refilter(&mut self)
        ensures
            final(self).filter == old(self).filter,
            final(self).filtered_indices@ == matching(old(self).filter@, 6),
            final(self).selected == clamped(
                old(self).selected as int,
                final(self).filtered_indices@.len() as int,
            ),
            final(self).wf(),
    {
        let filter = chars_of(self.filter.as_str());
        let mut found: Vec<usize> = Vec::new();
        let mut i: usize = 0;
        while i < 6
            invariant
                i <= 6,
                found@ == matching(filter@, i as int),
                found@.len() <= i,
            decreases 6 - i,
        {
            let name = chars_of(COMMANDS[i].name());
            if begins_with(&name, &filter) {
                found.push(i);
            }
            i += 1;
        }
        self.filtered_indices = found;
        if self.filtered_indices.len() == 0 {
            self.selected = 0;
        } else if self.selected >= self.filtered_indices.len() {
            self.selected = self.filtered_indices.len() - 1;
        }
    }

    /// Selects the command above, or the last if the first was selected.
    pub fn move_up(&mut self)
        requires
            old(self).wf(),
        ensures
            final(self).wf(),
            final(self).filter == old(self).filter,
            final(self).filtered_indices == old(self).filtered_indices,
            old(self).filtered_indices@.len() > 0 ==> final(self).selected == (if old(
                self,
            ).selected == 0 {
                old(self).filtered_indices@.len() - 1
            } else {
                old(self).selected - 1
            }),
    {
        if self.filtered_indices.len() > 0 {
            if self.selected == 0 {
                self.selected = self.filtered_indices.len() - 1;
            } else {
                self.selected = self.selected - 1;
            }
        }
    }

    /// Selects the command below, or the first if the last was selected.
    pub fn move_down(&mut self)
        requires
            old(self).wf(),
        ensures
            final(self).wf(),
            final(self).filter == old(self).filter,
            final(self).filtered_indices == old(self).filtered_indices,
            old(self).filtered_indices@.len() > 0 ==> final(self).selected == (if old(
                self,
            ).selected + 1 == old(self).filtered_indices@.len() {
                0
            } else {
                old(self).selected + 1
            }),
    {
        if self.filtered_indices.len() > 0 {
            if self.selected + 1 == self.filtered_indices.len() {
                self.selected = 0;
            } else {
                self.selected = self.selected + 1;
            }
        }
    }

    proof fn lemma_positions(filter: Seq<char>, n: int)
        requires
            0 <= n <= 6,
        ensures
            matching(filter, n).len() <= n,
            forall|i: int| 0 <= i < matching(filter, n).len() ==> #[trigger] matching(filter, n)[i] < n,
        decreases n,
    {
        if n > 0 {
            Self::lemma_positions(filter, n - 1);
        }
    }

    /// The command that is selected.
    pub fn selected_command(&self) -> (out: Option<Command>)
        requires
            self.wf(),
        ensures
            out == self.spec_selected(),
    {
        proof {
            Self::lemma_positions(self.filter@, 6);
        }
        if self.selected < self.filtered_indices.len() {
            let at: usize = self.filtered_indices[self.selected];
            Some(COMMANDS[at])
        } else {
            None
        }
    }

    /// The text that the selected command completes to.
    pub fn completion_text(&self) -> (out: Option<String>)
        requires
            self.wf(),
        ensures
            match self.spec_selected() {
                Some(command) => out matches Some(text) && text@ == completion(command),
                None => out is None,
            },
    {
        match self.selected_command() {
            Some(command) => {
                let mut text = "/".to_owned();
                text.append(command.name());
                if command.has_args() {
                    text.append(" ");
                }
                assert(text@ =~= completion(command));
                Some(text)
            },
            None => None,
        }
    }

    /// Handles a key.
    pub fn handle_key(&mut self, code: PopupKey) -> (out: PopupAction)
        requires
            old(self).wf(),
        ensures
            final(self).wf(),
            final(self).filter == old(self).filter,
            final(self).filtered_indices == old(self).filtered_indices,
            !(code is Up) && !(code is Down) ==> final(self).selected == old(self).selected,
            match code {
                PopupKey::Up => out is Consumed && (old(self).filtered_indices@.len() > 0
                    ==> final(self).selected == (if old(self).selected == 0 {
                    old(self).filtered_indices@.len() - 1
                } else {
                    old(self).selected - 1
                })),
                PopupKey::Down => out is Consumed && (old(self).filtered_indices@.len() > 0
                    ==> final(self).selected == (if old(self).selected + 1 == old(
                    self,
                ).filtered_indices@.len() {
                    0
                } else {
                    old(self).selected + 1
                })),
                PopupKey::Tab => match old(self).spec_selected() {
                    Some(command) => out matches PopupAction::Complete(text) && text@ == completion(
                        command,
                    ),
                    None => out is Consumed,
                },
                PopupKey::Enter => match old(self).spec_selected() {
                    Some(command) => if command.spec_has_args() {
                        out matches PopupAction::Complete(text) && text@ == completion(command)
                    } else {
                        out matches PopupAction::Submit(text) && text@ == completion(command)
                    },
                    None => out is PassThrough,
                },
                PopupKey::Esc => out is Dismiss,
                PopupKey::Other => out is PassThrough,
            },
    {
        match code {
            PopupKey::Up => {
                self.move_up();
                PopupAction::Consumed
            },
            PopupKey::Down => {
                self.move_down();
                PopupAction::Consumed
            },
            PopupKey::Tab => match self.completion_text() {
                Some(text) => PopupAction::Complete(text),
                None => PopupAction::Consumed,
            },
            PopupKey::Enter => match (self.selected_command(), self.completion_text()) {
                (Some(command), Some(text)) => if command.has_args() {
                    PopupAction::Complete(text)
                } else {
                    PopupAction::Submit(text)
                },
                _ => PopupAction::PassThrough,
            },
            PopupKey::Esc => PopupAction::Dismiss,
            PopupKey::Other => PopupAction::PassThrough,
        }
    }

    /// How many rows the popup needs: one for each command, and one to say that
    /// there is none.
    pub fn row_count(&self) -> (out: u16)
        requires
            self.wf(),
        ensures
            out == (if self.filtered_indices@.len() == 0 {
                1
            } else {
                self.filtered_indices@.len()
            }),
    {
        proof {
            Self::lemma_positions(self.filter@, 6);
        }
        if self.filtered_indices.len() == 0 {
            1
        } else {
            self.filtered_indices.len() as u16
        }
    }

    /// What is shown when no command begins with the filter.
    pub fn empty_text() -> (out: &'static str)
        ensures
            out@ == "  no matches"@,
    {
        "  no matches"
    }

    /// The rows of the popup, as many as fit in the height, cut to the width.
    /// There are none exactly if no command begins with the filter or nothing
    /// fits.
    pub fn rows(&self, width: u16, height: u16) -> (out: Vec<PopupRow>)
        requires
            self.wf(),
        ensures
            out@.len() == (if self.filtered_indices@.len() <= height {
                self.filtered_indices@.len() as int
            } else {
                height as int
            }),
            forall|i: int|
                0 <= i < out@.len() ==> {
                    let command = COMMANDS@[self.filtered_indices@[i] as int];
                    &&& (#[trigger] out@[i]).usage@ == row_usage(command)
                    &&& out@[i].padding@ == row_padding(command)
                    &&& out@[i].description@ == row_description(command, width as int)
                    &&& out@[i].selected == (i == self.selected)
                },
    {
        proof {
            Self::lemma_positions(self.filter@, 6);
        }
        let mut out: Vec<PopupRow> = Vec::new();
        let mut i: usize = 0;
        while i < self.filtered_indices.len() && i < height as usize
            invariant
                i <= self.filtered_indices@.len(),
                i <= height,
                out@.len() == i,
                self.filtered_indices@ == matching(self.filter@, 6),
                forall|j: int|
                    0 <= j < self.filtered_indices@.len() ==> #[trigger] self.filtered_indices@[j]
                        < 6,
                forall|j: int|
                    0 <= j < i ==> {
                        let command = COMMANDS@[self.filtered_indices@[j] as int];
                        &&& (#[trigger] out@[j]).usage@ == row_usage(command)
                        &&& out@[j].padding@ == row_padding(command)
                        &&& out@[j].description@ == row_description(command, width as int)
                        &&& out@[j].selected == (j == self.selected)
                    },
            decreases self.filtered_indices@.len() - i,
        {
            let command = COMMANDS[self.filtered_indices[i]];
            out.push(row_of(command, width, i == self.selected));
            i += 1;
        }
        out
    }
}

fn row_of(command: Command, width: u16, selected: bool) -> (out: PopupRow)
    ensures
        out.usage@ == row_usage(command),
        out.padding@ == row_padding(command),
        out.description@ == row_description(command, width as int),
        out.selected == selected,
{
    let mut usage = "  ".to_owned();
    usage.append(command.usage());
    let usage_len: usize = chars_of(usage.as_str()).len();
    let mut padding = String::new();
    let padding_len: usize = if usage_len < DESC_COL {
        DESC_COL - usage_len
    } else {
        1
    };
    push_spaces(&mut padding, padding_len);
    assert(padding@ =~= row_padding(command));
    let description = chars_of(command.description());
    let available: usize = if usage_len >= width as usize || padding_len >= width as usize
        - usage_len {
        0
    } else {
        width as usize - usage_len - padding_len
    };
    let mut text = String::new();
    assert(text@ =~= Seq::<char>::empty());
    if usage_len <= width as usize && padding_len <= width as usize - usage_len
        && description.len() <= width as usize - usage_len - padding_len {
        text = command.description().to_owned();
    } else if available > 3 {
        let mut i: usize = 0;
        assert(text@ =~= description@.take(0));
        while i < available - 3
            invariant
                3 < available,
                i <= available - 3 < description@.len(),
                text@ == description@.take(i as int),
            decreases available - 3 - i,
        {
            text.push(description[i]);
            assert(text@ =~= description@.take(i + 1));
            i += 1;
        }
        text.append("...");
    }
    assert(text@ =~= row_description(command, width as int));
    PopupRow { usage, padding, description: text, selected }
}

} // verus!
