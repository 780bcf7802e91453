//! The status line: the state of the connection, and who is typing. Times are
//! in milliseconds on a clock that does not run backwards.

use vstd::prelude::*;
use vstd::string::*;

verus! {

/// How long a typing notice is shown.
pub const TYPING_TIMEOUT_MS: u64 = 5_000;

/// How long a successful login is shown.
pub const AUTHENTICATED_TIMEOUT_MS: u64 = 5_000;

/// The state of the connection.
#[derive(Debug)]
#[non_exhaustive]
pub enum ConnectionStatus {
    Connecting,
    Authenticating,
    /// Since when.
    Authenticated(u64),
    AuthFailed(String),
    Disconnected,
}

/// How a part of the status line is set.
#[derive(Debug, Clone, Copy, PartialEq, Eq, Structural)]
pub enum StatusStyle {
    Plain,
    Muted,
    MutedItalic,
    Alert,
}

/// A part of the status line.
pub struct StatusPart {
    pub style: StatusStyle,
    pub text: String,
}

/// The status line: the state of the connection, and who is typing since when.
pub struct StatusBar {
    pub connection: Option<ConnectionStatus>,
    pub typing: Option<(String, u64)>,
}

/// How much time has passed.
pub open spec fn elapsed(since: u64, now: u64) -> int {
    if now >= since {
        now - since
    } else {
        0
    }
}

impl ConnectionStatus {
    /// How the state is shown.
    pub open spec fn shown(self) -> (StatusStyle, Seq<char>) {
        match self {
            ConnectionStatus::Connecting => (StatusStyle::Muted, "connecting..."@),
            ConnectionStatus::Authenticating => (
                StatusStyle::Muted,
                "connected, authenticating..."@,
            ),
            ConnectionStatus::Authenticated(_) => (StatusStyle::Muted, "authenticated \u{2713}"@),
            ConnectionStatus::AuthFailed(reason) => (
                StatusStyle::Alert,
                "auth failed: "@ + reason@,
            ),
            ConnectionStatus::Disconnected => (
                StatusStyle::MutedItalic,
                "disconnected, reconnecting..."@,
            ),
        }
    }

    /// How the state is shown.
    pub fn part(&self) -> (out: StatusPart)
        ensures
            (out.style, out.text@) == self.shown(),
    {
        match self {
            ConnectionStatus::Connecting => StatusPart {
                style: StatusStyle::Muted,
                text: "connecting...".to_owned(),
            },
            ConnectionStatus::Authenticating => StatusPart {
                style: StatusStyle::Muted,
                text: "connected, authenticating...".to_owned(),
            },
            ConnectionStatus::Authenticated(_) => StatusPart {
                style: StatusStyle::Muted,
                text: "authenticated \u{2713}".to_owned(),
            },
            ConnectionStatus::AuthFailed(reason) => {
                let mut text = "auth failed: ".to_owned();
                text.append(reason.as_str());
                StatusPart { style: StatusStyle::Alert, text }
            },
            ConnectionStatus::Disconnected => StatusPart {
                style: StatusStyle::MutedItalic,
                text: "disconnected, reconnecting...".to_owned(),
            },
        }
    }
}

impl StatusBar {
    /// Nothing to show.
    pub fn new() -> (out: Self)
        ensures
            out.connection is None,
            out.typing is None,
    {
        StatusBar { connection: None, typing: None }
    }

    /// The connection has changed.
    pub fn set_connection(&mut self, status: ConnectionStatus)
        ensures
            final(self).connection == Some(status),
            final(self).typing == old(self).typing,
    {
        self.connection = Some(status);
    }

    /// Somebody is typing.
    pub fn set_typing(&mut self, who: String, now: u64)
        ensures
            final(self).typing == Some((who, now)),
            final(self).connection == old(self).connection,
    {
        self.typing = Some((who, now));
    }

    /// Nobody is typing.
    pub fn clear_typing(&mut self)
        ensures
            final(self).typing is None,
            final(self).connection == old(self).connection,
    {
        self.typing = None;
    }

    /// Whether something is shown that will disappear by itself.
    pub fn needs_tick(&self) -> (out: bool)
        ensures
            out == (self.typing is Some || (self.connection matches Some(status) && status
                is Authenticated)),
    {
        if self.typing.is_some() {
            return true;
        }
        match &self.connection {
            Some(ConnectionStatus::Authenticated(_)) => true,
            _ => false,
        }
    }

    /// Drops what has been shown for long enough.
    pub fn tick(&mut self, now: u64)
        ensures
            final(self).typing == (match old(self).typing {
                Some((who, since)) => if elapsed(since, now) > TYPING_TIMEOUT_MS {
                    None
                } else {
                    Some((who, since))
                },
                None => None,
            }),
            final(self).connection == (match old(self).connection {
                Some(ConnectionStatus::Authenticated(since)) => if elapsed(since, now)
                    > AUTHENTICATED_TIMEOUT_MS {
                    None
                } else {
                    old(self).connection
                },
                _ => old(self).connection,
            }),
    {
        let typing_over = match &self.typing {
            Some((_, since)) => now.saturating_sub(*since) > TYPING_TIMEOUT_MS,
            None => false,
        };
        if typing_over {
            self.typing = None;
        }
        let login_over = match &self.connection {
            Some(ConnectionStatus::Authenticated(since)) => now.saturating_sub(*since)
                > AUTHENTICATED_TIMEOUT_MS,
            _ => false,
        };
        if login_over {
            self.connection = None;
        }
    }

    /// Who is shown as typing.
    pub open spec fn shown_typing(&self, now: u64) -> Option<Seq<char>> {
        match self.typing {
            Some((who, since)) => if elapsed(since, now) >= TYPING_TIMEOUT_MS {
                None
            } else {
                Some(who@ + " is typing..."@)
            },
            None => None,
        }
    }

    /// The parts of the status line: the connection and then who is typing,
    /// each behind two spaces.
    pub open spec fn shown(&self, now: u64) -> Seq<(StatusStyle, Seq<char>)> {
        let gap = (StatusStyle::Plain, "  "@);
        let connection = match self.connection {
            Some(status) => seq![gap, status.shown()],
            None => Seq::empty(),
        };
        let typing = match self.shown_typing(now) {
            Some(text) => seq![gap, (StatusStyle::MutedItalic, text)],
            None => Seq::empty(),
        };
        connection + typing
    }

    /// The parts of the status line.
    pub fn parts(&self, now: u64) -> (out: Vec<StatusPart>)
        ensures
            out@.map_values(|part: StatusPart| (part.style, part.text@)) == self.shown(now),
    {
        let mut out: Vec<StatusPart> = Vec::new();
        match &self.connection {
            Some(status) => {
                out.push(StatusPart { style: StatusStyle::Plain, text: "  ".to_owned() });
                out.push(status.part());
            },
            None => {},
        }
        match &self.typing {
            Some((who, since)) => {
                if now.saturating_sub(*since) < TYPING_TIMEOUT_MS {
                    let mut text = who.clone();
                    text.append(" is typing...");
                    out.push(StatusPart { style: StatusStyle::Plain, text: "  ".to_owned() });
                    out.push(StatusPart { style: StatusStyle::MutedItalic, text });
                }
            },
            None => {},
        }
        assert(out@.map_values(|part: StatusPart| (part.style, part.text@)) =~= self.shown(now));
        out
    }
}

} // verus!
