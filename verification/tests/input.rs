use messenger::client::input::{
    flatten, join, key_action, move_conversation_selection, new_chat_name, selected_position,
    trimmed, Focus, KeyAction, KeyCode, Modifiers, Window,
};
use messenger::client::verification::VerifyAction;

fn plain(focus: Focus, code: KeyCode) -> KeyAction {
    key_action(focus, Window::Closed, code, Modifiers::Plain)
}

fn names(list: &[&str]) -> Vec<String> {
    list.iter().map(|name| (*name).to_owned()).collect()
}

#[test]
fn new_chat_submission_flattens_unexpected_newlines() {
    let lines = names(&["alice", "bob"]);
    let submitted = join(&lines, "");
    assert_eq!(submitted, "alicebob");
    assert_eq!(new_chat_name(&lines), "alicebob");
}

#[test]
fn shift_enter_inserts_newline_in_composer() {
    assert_eq!(
        key_action(Focus::Composer, Window::Closed, KeyCode::Enter, Modifiers::Other),
        KeyAction::Newline
    );
}

#[test]
fn control_n_opens_new_conversation_from_composer() {
    assert_eq!(
        key_action(
            Focus::Composer,
            Window::Closed,
            KeyCode::Char('n'),
            Modifiers::Control
        ),
        KeyAction::OpenNewChat
    );
}

#[test]
fn control_c_quits_from_any_window() {
    for window in [Window::Closed, Window::NewChat, Window::Help, Window::Verification] {
        for letter in ['c', 'd'] {
            assert_eq!(
                key_action(Focus::Composer, window, KeyCode::Char(letter), Modifiers::Control),
                KeyAction::Quit
            );
        }
    }
    assert_eq!(plain(Focus::Composer, KeyCode::Char('c')), KeyAction::Edit);
}

#[test]
fn windows_take_their_keys() {
    let key = |window, code| key_action(Focus::Composer, window, code, Modifiers::Plain);
    assert_eq!(key(Window::NewChat, KeyCode::Esc), KeyAction::CloseWindow);
    assert_eq!(key(Window::NewChat, KeyCode::Enter), KeyAction::SubmitNewChat);
    assert_eq!(key(Window::NewChat, KeyCode::Char('x')), KeyAction::EditNewChat);
    assert_eq!(key(Window::Help, KeyCode::Function(1)), KeyAction::CloseWindow);
    assert_eq!(key(Window::Help, KeyCode::Char('x')), KeyAction::Nothing);
    assert_eq!(
        key(Window::Verification, KeyCode::Char('y')),
        KeyAction::Verify(VerifyAction::Confirm)
    );
    assert_eq!(
        key(Window::Verification, KeyCode::Char('x')),
        KeyAction::Verify(VerifyAction::Clear)
    );
}

#[test]
fn the_focus_decides_where_keys_go() {
    assert_eq!(plain(Focus::Conversations, KeyCode::Up), KeyAction::SelectPrevious);
    assert_eq!(plain(Focus::Conversations, KeyCode::Enter), KeyAction::OpenSelected);
    assert_eq!(plain(Focus::Conversations, KeyCode::Tab), KeyAction::FocusComposer);
    assert_eq!(plain(Focus::Conversations, KeyCode::Char('q')), KeyAction::Quit);
    assert_eq!(plain(Focus::Composer, KeyCode::Enter), KeyAction::Send);
    assert_eq!(plain(Focus::Composer, KeyCode::Esc), KeyAction::FocusConversations);
    assert_eq!(plain(Focus::Composer, KeyCode::Char('q')), KeyAction::Edit);
    assert_eq!(
        key_action(Focus::Composer, Window::Closed, KeyCode::Char('j'), Modifiers::Control),
        KeyAction::Newline
    );
    for focus in [Focus::Composer, Focus::Conversations] {
        assert_eq!(plain(focus, KeyCode::PageUp), KeyAction::PageUp);
        assert_eq!(plain(focus, KeyCode::End), KeyAction::ScrollToEnd);
        assert_eq!(plain(focus, KeyCode::Function(1)), KeyAction::OpenHelp);
        assert_eq!(
            plain(focus, KeyCode::Function(2)),
            KeyAction::Verify(VerifyAction::View)
        );
    }
    assert!(matches!(Focus::default(), Focus::Composer));
}

#[test]
fn pasted_names_lose_their_newlines() {
    assert_eq!(flatten("al\r\nice\n"), "alice");
    assert_eq!(flatten(""), "");
}

#[test]
fn white_space_is_trimmed_at_the_ends_only() {
    assert_eq!(trimmed(" \t a b \n"), "a b");
    assert_eq!(trimmed("\u{3000}x\u{a0}"), "x");
    assert_eq!(trimmed("   "), "");
    assert_eq!(new_chat_name(&names(&[" bob ", ""])), "bob");
}

#[test]
fn lines_are_joined() {
    assert_eq!(join(&names(&["a", "b", "c"]), "\n"), "a\nb\nc");
    assert_eq!(join(&names(&["a"]), "\n"), "a");
    assert_eq!(join(&Vec::new(), "\n"), "");
}

#[test]
fn the_selection_moves_within_the_list() {
    let peers = names(&["alice", "bob", "carol"]);
    let bob = Some("bob".to_owned());
    assert_eq!(
        move_conversation_selection(&peers, &bob, true),
        Some("carol".to_owned())
    );
    assert_eq!(
        move_conversation_selection(&peers, &bob, false),
        Some("alice".to_owned())
    );
    let carol = Some("carol".to_owned());
    assert_eq!(move_conversation_selection(&peers, &carol, true), carol);
    let alice = Some("alice".to_owned());
    assert_eq!(move_conversation_selection(&peers, &alice, false), alice);
    assert_eq!(
        move_conversation_selection(&peers, &None, true),
        Some("bob".to_owned())
    );
    assert_eq!(move_conversation_selection(&Vec::new(), &bob, true), None);
    assert_eq!(selected_position(&peers, &Some("nobody".to_owned())), 0);
    assert_eq!(selected_position(&peers, &carol), 2);
}
