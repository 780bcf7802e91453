use messenger::client::command_popup::{
    Command, CommandPopup, PopupAction, PopupKey, COMMANDS,
};

#[test]
fn filter_empty_shows_all() {
    let mut popup = CommandPopup::new();
    assert!(popup.sync("/"));
    assert_eq!(popup.filtered_indices.len(), COMMANDS.len());
}

#[test]
fn filter_prefix_narrows() {
    let mut popup = CommandPopup::new();
    assert!(popup.sync("/c"));
    assert_eq!(popup.filtered_indices.len(), 2); // chat, contacts
}

#[test]
fn filter_exact_match() {
    let mut popup = CommandPopup::new();
    assert!(popup.sync("/quit"));
    assert_eq!(popup.filtered_indices.len(), 1);
    assert_eq!(popup.selected_command().unwrap().name(), "quit");
}

#[test]
fn filter_no_match() {
    let mut popup = CommandPopup::new();
    assert!(popup.sync("/xyz"));
    assert!(popup.filtered_indices.is_empty());
    assert!(popup.selected_command().is_none());
}

#[test]
fn dismiss_when_typing_args() {
    let mut popup = CommandPopup::new();
    // "/chat alice" should dismiss because chat has_args and there's a space
    assert!(!popup.sync("/chat alice"));
}

#[test]
fn no_dismiss_for_argless_with_space() {
    let mut popup = CommandPopup::new();
    // "/quit " should NOT dismiss because quit doesn't have has_args
    assert!(popup.sync("/quit "));
}

#[test]
fn move_down_wraps() {
    let mut popup = CommandPopup::new();
    popup.sync("/");
    let count = popup.filtered_indices.len();
    for _ in 0..count {
        popup.move_down();
    }
    assert_eq!(popup.selected, 0); // wrapped back to first
}

#[test]
fn move_up_wraps() {
    let mut popup = CommandPopup::new();
    popup.sync("/");
    popup.move_up(); // from 0 wraps to last
    assert_eq!(popup.selected, popup.filtered_indices.len() - 1);
}

#[test]
fn completion_with_args_has_trailing_space() {
    let mut popup = CommandPopup::new();
    popup.sync("/chat");
    let text = popup.completion_text().unwrap();
    assert_eq!(text, "/chat ");
}

#[test]
fn completion_without_args_no_trailing_space() {
    let mut popup = CommandPopup::new();
    popup.sync("/quit");
    let text = popup.completion_text().unwrap();
    assert_eq!(text, "/quit");
}

#[test]
fn handle_key_escape_dismisses() {
    let mut popup = CommandPopup::new();
    popup.sync("/");
    assert!(matches!(
        popup.handle_key(PopupKey::Esc),
        PopupAction::Dismiss
    ));
}

#[test]
fn handle_key_tab_completes() {
    let mut popup = CommandPopup::new();
    popup.sync("/");
    match popup.handle_key(PopupKey::Tab) {
        PopupAction::Complete(text) => assert_eq!(text, "/chat "),
        _ => panic!("expected Complete"),
    }
}

#[test]
fn handle_key_enter_submits_argless() {
    let mut popup = CommandPopup::new();
    popup.sync("/quit");
    match popup.handle_key(PopupKey::Enter) {
        PopupAction::Submit(text) => assert_eq!(text, "/quit"),
        _ => panic!("expected Submit"),
    }
}

#[test]
fn handle_key_enter_completes_with_args() {
    let mut popup = CommandPopup::new();
    popup.sync("/chat");
    match popup.handle_key(PopupKey::Enter) {
        PopupAction::Complete(text) => assert_eq!(text, "/chat "),
        _ => panic!("expected Complete"),
    }
}

#[test]
fn row_count_all() {
    let popup = CommandPopup::new();
    assert_eq!(popup.row_count(), u16::try_from(COMMANDS.len()).unwrap());
}

#[test]
fn row_count_no_matches() {
    let mut popup = CommandPopup::new();
    popup.sync("/xyz");
    assert_eq!(popup.row_count(), 1); // "no matches" row
}

#[test]
fn selection_clamps_on_filter() {
    let mut popup = CommandPopup::new();
    popup.sync("/");
    // Select the last item
    popup.selected = COMMANDS.len() - 1;
    // Filter to fewer items
    popup.sync("/q");
    assert_eq!(popup.selected, 0); // clamped to new list size - 1 = 0
}

#[test]
fn text_without_a_slash_dismisses_the_popup() {
    let mut popup = CommandPopup::new();
    assert!(!popup.sync("hello"));
}

#[test]
fn a_row_has_the_usage_and_the_description() {
    let mut popup = CommandPopup::new();
    popup.sync("/quit");
    let rows = popup.rows(80, 6);
    assert_eq!(rows.len(), 1);
    assert_eq!(Command::Quit.usage(), "/quit");
    assert_eq!(Command::Quit.description(), "Exit");
}
