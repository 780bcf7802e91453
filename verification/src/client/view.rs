//! What is shown where: the layout of the screen, and the texts around the
//! chat history.

use crate::text::push_decimal;
use vstd::prelude::*;
use vstd::string::*;

verus! {

use crate::text::decimal;

/// The least width of the screen.
pub const MIN_WIDTH: u16 = 50;

/// The least height of the screen.
pub const MIN_HEIGHT: u16 = 14;

/// From which width on the list of conversations is shown beside the chat.
pub const SIDEBAR_BREAKPOINT: u16 = 80;

/// From which width on the longer footer is shown.
pub const WIDE_FOOTER: u16 = 60;

/// How the screen is laid out.
#[derive(Debug, Clone, Copy, PartialEq, Eq, Structural)]
pub enum Screen {
    TooSmall,
    /// The chat alone.
    Narrow,
    /// The chat beside the list of conversations.
    Wide,
}

/// How a screen of this size is laid out.
pub open spec fn spec_screen(width: u16, height: u16) -> Screen {
    if width < MIN_WIDTH || height < MIN_HEIGHT {
        Screen::TooSmall
    } else if width >= SIDEBAR_BREAKPOINT {
        Screen::Wide
    } else {
        Screen::Narrow
    }
}

/// How a screen of this size is laid out.
pub fn screen(width: u16, height: u16) -> (out: Screen)
    ensures
        out == spec_screen(width, height),
{
    if width < MIN_WIDTH || height < MIN_HEIGHT {
        Screen::TooSmall
    } else if width >= SIDEBAR_BREAKPOINT {
        Screen::Wide
    } else {
        Screen::Narrow
    }
}

/// The text on a screen that is too small.
pub fn minimum_text() -> (out: String)
    ensures
        out@ == "minimum: "@ + decimal(MIN_WIDTH as nat) + "x"@ + decimal(MIN_HEIGHT as nat),
{
    let mut out = "minimum: ".to_owned();
    push_decimal(&mut out, MIN_WIDTH as u64);
    out.append("x");
    push_decimal(&mut out, MIN_HEIGHT as u64);
    out
}

/// The keys that the footer names.
pub fn footer_text(width: u16, show_sidebar: bool) -> (out: &'static str)
    ensures
        out@ == (if width < WIDE_FOOTER {
            " Ctrl+N new  Enter send  F1 help"@
        } else if show_sidebar {
            " Enter send  Shift+Enter newline  PgUp/PgDn scroll  F1 help"@
        } else {
            " Ctrl+N new  Enter send  Shift+Enter newline  F1 help"@
        }),
{
    if width < WIDE_FOOTER {
        " Ctrl+N new  Enter send  F1 help"
    } else if show_sidebar {
        " Enter send  Shift+Enter newline  PgUp/PgDn scroll  F1 help"
    } else {
        " Ctrl+N new  Enter send  Shift+Enter newline  F1 help"
    }
}

/// A part of the screen.
#[derive(Debug, Clone, Copy, PartialEq, Eq, Structural)]
pub struct Area {
    pub x: u16,
    pub y: u16,
    pub width: u16,
    pub height: u16,
}

impl Area {
    /// The area lies on a screen.
    pub open spec fn on_screen(self) -> bool {
        self.x + self.width <= u16::MAX && self.y + self.height <= u16::MAX
    }

    /// The area lies within another.
    pub open spec fn within(self, outer: Area) -> bool {
        &&& outer.x <= self.x
        &&& outer.y <= self.y
        &&& self.x + self.width <= outer.x + outer.width
        &&& self.y + self.height <= outer.y + outer.height
    }
}

/// The smaller of two numbers.
pub open spec fn smaller(a: int, b: int) -> int {
    if a < b {
        a
    } else {
        b
    }
}

/// A window in the middle of an area, with a margin around it.
pub fn centered_rect(area: Area, width: u16, height: u16) -> (out: Area)
    requires
        area.on_screen(),
    ensures
        out.width == smaller(
            width as int,
            if area.width >= 4 {
                area.width - 4
            } else {
                0
            },
        ),
        out.height == smaller(
            height as int,
            if area.height >= 2 {
                area.height - 2
            } else {
                0
            },
        ),
        out.x == area.x + (area.width - out.width) / 2,
        out.y == area.y + (area.height - out.height) / 2,
        out.within(area),
{
    let most_width: u16 = area.width.saturating_sub(4);
    let most_height: u16 = area.height.saturating_sub(2);
    let width: u16 = if width < most_width {
        width
    } else {
        most_width
    };
    let height: u16 = if height < most_height {
        height
    } else {
        most_height
    };
    Area {
        x: area.x + (area.width - width) / 2,
        y: area.y + (area.height - height) / 2,
        width,
        height,
    }
}

/// How far the chat history is scrolled back.
#[derive(Debug, Clone, Copy, PartialEq, Eq, Structural)]
pub struct Scroll {
    /// How many rows are below the screen.
    pub back: usize,
    /// How far back it was possible to scroll when the history was last shown.
    pub last_max: Option<usize>,
}

/// A number of rows, within what is possible.
pub open spec fn capped_sum(a: usize, b: int) -> int {
    if b <= 0 {
        a as int
    } else if a + b > usize::MAX {
        usize::MAX as int
    } else {
        a + b
    }
}

impl Scroll {
    /// The newest message is in view.
    pub fn new() -> (out: Self)
        ensures
            out.back == 0,
            out.last_max is None,
    {
        Scroll { back: 0, last_max: None }
    }

    /// Scrolls back by a page.
    pub fn page_up(&mut self)
        ensures
            final(self).back == capped_sum(old(self).back, 10),
            final(self).last_max == old(self).last_max,
    {
        self.back = self.back.saturating_add(10);
    }

    /// Scrolls forward by a page.
    pub fn page_down(&mut self)
        ensures
            final(self).back == (if old(self).back >= 10 {
                old(self).back - 10
            } else {
                0
            }),
            final(self).last_max == old(self).last_max,
    {
        self.back = self.back.saturating_sub(10);
    }

    /// Scrolls to the newest message.
    pub fn end(&mut self)
        ensures
            final(self).back == 0,
            final(self).last_max == old(self).last_max,
    {
        self.back = 0;
    }

    /// How far back it is possible to scroll.
    pub open spec fn max_for(content_rows: usize, visible_rows: usize) -> int {
        if content_rows >= visible_rows {
            content_rows - visible_rows
        } else {
            0
        }
    }

    /// The history is shown. Whoever has scrolled back keeps what is in view
    /// when new messages come in. Returns the first row that is shown.
    pub fn show(&mut self, content_rows: usize, visible_rows: usize) -> (out: usize)
        ensures
            ({
                let max = Scroll::max_for(content_rows, visible_rows);
                let wanted = if old(self).back > 0 && old(self).last_max is Some {
                    capped_sum(old(self).back, max - old(self).last_max->0)
                } else {
                    old(self).back as int
                };
                &&& final(self).back == smaller(wanted, max)
                &&& final(self).last_max == Some(max as usize)
                &&& out == max - final(self).back
            }),
    {
        let max: usize = content_rows.saturating_sub(visible_rows);
        if self.back > 0 {
            match self.last_max {
                Some(previous) => {
                    self.back = self.back.saturating_add(max.saturating_sub(previous));
                },
                None => {},
            }
        }
        if self.back > max {
            self.back = max;
        }
        self.last_max = Some(max);
        max - self.back
    }
}

/// A first row as far as 16 bits hold it.
pub fn row_offset(top: usize) -> (out: u16)
    ensures
        out == smaller(top as int, u16::MAX as int),
{
    if top > u16::MAX as usize {
        u16::MAX
    } else {
        top as u16
    }
}

/// Whoever has scrolled back sees the same rows after new messages have come
/// in.
pub proof fn law_scrolled_view_stays(
    back: usize,
    last_max: usize,
    content_rows: usize,
    visible_rows: usize,
)
    requires
        0 < back <= last_max,
        Scroll::max_for(content_rows, visible_rows) >= last_max,
    ensures
        ({
            let max = Scroll::max_for(content_rows, visible_rows);
            let shown = smaller(capped_sum(back, max - last_max), max);
            max - shown == last_max - back
        }),
{
}

/// The name under which a conversation is listed.
pub fn conversation_label(peer: &String, user_id: &str) -> (out: String)
    ensures
        out@ == (if peer@ == user_id@ {
            "Note to self"@
        } else {
            peer@
        }),
{
    if *peer == user_id.to_owned() {
        "Note to self".to_owned()
    } else {
        peer.clone()
    }
}

/// The marks behind a listed conversation: a warning or a verified contact,
/// and how many messages are unread.
pub open spec fn spec_suffix(warning: bool, verified: bool, unread: nat) -> Seq<char> {
    let mark = if warning {
        "  !"@
    } else if verified {
        "  \u{2713}"@
    } else {
        Seq::empty()
    };
    if unread == 0 {
        mark
    } else if warning || verified {
        mark + " "@ + decimal(unread)
    } else {
        "  "@ + decimal(unread)
    }
}

/// The marks behind a listed conversation.
pub fn conversation_suffix(warning: bool, verified: bool, unread: usize) -> (out: String)
    ensures
        out@ == spec_suffix(warning, verified, unread as nat),
{
    let mut out = String::new();
    assert(out@ =~= Seq::<char>::empty());
    if warning {
        out = "  !".to_owned();
    } else if verified {
        out = "  \u{2713}".to_owned();
    }
    if unread > 0 {
        if warning || verified {
            out.append(" ");
        } else {
            out.append("  ");
            assert(out@ =~= "  "@);
        }
        push_decimal(&mut out, unread as u64);
    }
    out
}

/// What is known of the open conversation.
#[derive(Debug, Clone, Copy, PartialEq, Eq, Structural)]
pub enum Standing {
    /// Notes to oneself.
    Notes,
    /// The identity key of the peer has changed.
    Alert,
    /// There is a session.
    Encrypted,
    /// There is none yet.
    Establishing,
}

/// What the header says of the open conversation.
pub fn header_subtitle(standing: Standing) -> (out: &'static str)
    ensures
        out@ == (match standing {
            Standing::Notes => "private notes on this device"@,
            Standing::Alert => "security alert: identity key changed"@,
            Standing::Encrypted => "end-to-end encrypted"@,
            Standing::Establishing => "establishing encrypted session"@,
        }),
{
    match standing {
        Standing::Notes => "private notes on this device",
        Standing::Alert => "security alert: identity key changed",
        Standing::Encrypted => "end-to-end encrypted",
        Standing::Establishing => "establishing encrypted session",
    }
}

} // verus!
