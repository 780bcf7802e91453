//! What key actions do to the client.

use super::app::App;
use super::input::{move_conversation_selection, new_chat_name, Focus, KeyAction, Window};
use super::steps::{Clock, Step, Work};
use vstd::prelude::*;
use vstd::string::*;

verus! {

use super::composing::lemma_empty;
use super::input::{is_trimmed, joined_with, moves_selection};
use super::view::capped_sum;
use crate::encoding::texts;
use crate::protocol::types::user_id_fault;

impl App {
    /// What an action does at once: it ends the client, opens or closes a
    /// window, moves the focus or scrolls. Nothing else changes, and the other
    /// actions change nothing by themselves.
    pub open spec fn acted(self, before: App, action: KeyAction) -> bool {
        match action {
            KeyAction::Quit => self == (App { running: false, ..before }),
            KeyAction::OpenNewChat => self == (App { window: Window::NewChat, ..before }),
            KeyAction::OpenHelp => self == (App { window: Window::Help, ..before }),
            KeyAction::CloseWindow => self == (App { window: Window::Closed, ..before }),
            KeyAction::FocusComposer => self == (App { focus: Focus::Composer, ..before }),
            KeyAction::FocusConversations => self == (App {
                focus: Focus::Conversations,
                ..before
            }),
            KeyAction::PageUp => self.scrolled(before, capped_sum(before.scroll.back, 10)),
            KeyAction::PageDown => self.scrolled(
                before,
                if before.scroll.back >= 10 {
                    before.scroll.back - 10
                } else {
                    0
                },
            ),
            KeyAction::ScrollToEnd => self.scrolled(before, 0),
            _ => self == before,
        }
    }

    /// The history is scrolled so far back, and nothing else changes.
    pub open spec fn scrolled(self, before: App, back: int) -> bool {
        &&& self == (App { scroll: self.scroll, ..before })
        &&& self.scroll.back == back
        &&& self.scroll.last_max == before.scroll.last_max
    }

    /// Does what an action does at once.
    pub fn act(&mut self, action: KeyAction)
        ensures
            final(self).acted(*old(self), action),
    {
        match action {
            KeyAction::Quit => {
                self.running = false;
            },
            KeyAction::OpenNewChat => {
                self.window = Window::NewChat;
            },
            KeyAction::OpenHelp => {
                self.window = Window::Help;
            },
            KeyAction::CloseWindow => {
                self.window = Window::Closed;
            },
            KeyAction::FocusComposer => {
                self.focus = Focus::Composer;
            },
            KeyAction::FocusConversations => {
                self.focus = Focus::Conversations;
            },
            KeyAction::PageUp => {
                self.scroll.page_up();
            },
            KeyAction::PageDown => {
                self.scroll.page_down();
            },
            KeyAction::ScrollToEnd => {
                self.scroll.end();
            },
            _ => {},
        }
    }

    /// Moves the selection up or down in the list of conversations.
    pub fn select_conversation(&mut self, conversations: &Vec<String>, down: bool)
        ensures
            *final(self) == (App {
                selected_conversation: final(self).selected_conversation,
                ..*old(self)
            }),
            moves_selection(
                conversations@,
                old(self).selected_conversation,
                down,
                final(self).selected_conversation,
            ),
    {
        self.selected_conversation = move_conversation_selection(
            conversations,
            &self.selected_conversation,
            down,
        );
    }

    /// What becomes of a name in the window for a new chat: an empty one stays
    /// there; otherwise the window closes, and the conversation is opened or a
    /// notice says why there is none.
    pub open spec fn starts_chat(
        self,
        before: App,
        name: Seq<char>,
        clock: Clock,
        out: Step,
    ) -> bool {
        if name.len() == 0 {
            self == before && out.is_done()
        } else {
            match user_id_fault(name) {
                None => {
                    &&& self == (App { window: Window::Closed, ..before })
                    &&& out.quiet()
                    &&& out.work matches Work::Load { peer, fresh } && peer@ == name && fresh
                        is None
                },
                Some(fault) => out.is_done() && self.told(
                    App { window: Window::Closed, ..before },
                    "invalid username: "@ + ("invalid user id: "@ + fault),
                    clock.millis,
                ),
            }
        }
    }

    /// The name in the window for a new chat, given by its lines, is final.
    pub fn submit_new_chat(&mut self, lines: &Vec<String>, clock: Clock) -> (out: Step)
        ensures
            exists|name: String| #[trigger]
                is_trimmed(name@, joined_with(texts(lines@), Seq::empty()))
                    && final(self).starts_chat(*old(self), name@, clock, out),
    {
        let name = new_chat_name(lines);
        assert(is_trimmed(name@, joined_with(texts(lines@), Seq::empty())));
        proof {
            lemma_empty(name@);
        }
        if name.as_str().as_bytes().len() == 0 {
            return Step::done();
        }
        self.window = Window::Closed;
        match self.open_conversation(name.as_str()) {
            Ok(step) => step,
            Err(fault) => {
                let mut text = "invalid username: ".to_owned();
                text.append(fault.message().as_str());
                self.status(text.as_str(), clock);
                Step::done()
            },
        }
    }
}

} // verus!
