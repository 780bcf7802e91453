use messenger::client::chat::{message_text, ChatEntry};
use messenger::client::status_bar::{ConnectionStatus, StatusBar, StatusStyle};
use messenger::client::view::{
    centered_rect, conversation_label, conversation_suffix, footer_text, header_subtitle,
    minimum_text, row_offset, screen, Area, Screen, Scroll, Standing,
};

#[test]
fn wide_layout_renders_conversations_and_composer() {
    assert_eq!(screen(100, 28), Screen::Wide);
    assert_eq!(conversation_label(&"alice".to_owned(), "alice"), "Note to self");
    assert_eq!(conversation_label(&"bob".to_owned(), "alice"), "bob");
}

#[test]
fn narrow_layout_keeps_chat_usable_without_sidebar() {
    assert_eq!(screen(70, 22), Screen::Narrow);
}

#[test]
fn too_small_terminal_shows_clear_requirement() {
    assert_eq!(screen(40, 10), Screen::TooSmall);
    assert_eq!(minimum_text(), "minimum: 50x14");
}

#[test]
fn incoming_content_preserves_scrolled_viewport_anchor() {
    let mut history = Vec::new();
    for index in 0..20 {
        history.push(ChatEntry::Received {
            sender: "bob".to_owned(),
            text: format!("message {index}"),
        });
    }
    let visible_rows = 12;
    let mut scroll = Scroll::new();
    scroll.show(message_text(&history).len(), visible_rows);
    scroll.back = 5;
    let previous_max = scroll.last_max.unwrap();

    history.push(ChatEntry::Received {
        sender: "bob".to_owned(),
        text: "new message".to_owned(),
    });
    scroll.show(message_text(&history).len(), visible_rows);

    let growth = scroll.last_max.unwrap() - previous_max;
    assert_eq!(growth, 3);
    assert_eq!(scroll.back, 5 + growth);
}

#[test]
fn scrolling_stays_within_the_history() {
    let mut scroll = Scroll::new();
    scroll.page_up();
    assert_eq!(scroll.back, 10);
    assert_eq!(scroll.show(8, 5), 0);
    assert_eq!(scroll.back, 3);
    scroll.page_down();
    assert_eq!(scroll.back, 0);
    assert_eq!(scroll.show(8, 5), 3);
    scroll.page_up();
    scroll.end();
    assert_eq!(scroll.back, 0);
    assert_eq!(row_offset(70_000), u16::MAX);
    assert_eq!(row_offset(7), 7);
}

#[test]
fn screen_limits_are_exact() {
    assert_eq!(screen(50, 14), Screen::Narrow);
    assert_eq!(screen(49, 14), Screen::TooSmall);
    assert_eq!(screen(50, 13), Screen::TooSmall);
    assert_eq!(screen(79, 14), Screen::Narrow);
    assert_eq!(screen(80, 14), Screen::Wide);
}

#[test]
fn a_window_is_centred_with_a_margin() {
    let area = Area { x: 0, y: 0, width: 100, height: 30 };
    assert_eq!(
        centered_rect(area, 62, 16),
        Area { x: 19, y: 7, width: 62, height: 16 }
    );
    assert_eq!(
        centered_rect(area, 200, 200),
        Area { x: 2, y: 1, width: 96, height: 28 }
    );
}

#[test]
fn suffixes_show_marks_and_counts() {
    assert_eq!(conversation_suffix(true, true, 0), "  !");
    assert_eq!(conversation_suffix(true, false, 3), "  ! 3");
    assert_eq!(conversation_suffix(false, true, 0), "  \u{2713}");
    assert_eq!(conversation_suffix(false, true, 2), "  \u{2713} 2");
    assert_eq!(conversation_suffix(false, false, 0), "");
    assert_eq!(conversation_suffix(false, false, 12), "  12");
}

#[test]
fn footer_and_header_texts() {
    assert_eq!(footer_text(59, true), " Ctrl+N new  Enter send  F1 help");
    assert_eq!(
        footer_text(60, false),
        " Ctrl+N new  Enter send  Shift+Enter newline  F1 help"
    );
    assert_eq!(header_subtitle(Standing::Encrypted), "end-to-end encrypted");
}

#[test]
fn the_status_bar_shows_connection_and_typing() {
    let mut bar = StatusBar::new();
    assert!(bar.parts(0).is_empty());
    bar.set_connection(ConnectionStatus::AuthFailed("why".to_owned()));
    bar.set_typing("bob".to_owned(), 1_000);
    let parts = bar.parts(2_000);
    let texts: Vec<&str> = parts.iter().map(|part| part.text.as_str()).collect();
    assert_eq!(texts, ["  ", "auth failed: why", "  ", "bob is typing..."]);
    assert_eq!(parts[1].style, StatusStyle::Alert);
    assert!(bar.needs_tick());
    bar.tick(6_001);
    assert!(bar.typing.is_none());
    assert!(bar.connection.is_some());
}

#[test]
fn a_login_is_shown_for_five_seconds() {
    let mut bar = StatusBar::new();
    bar.set_connection(ConnectionStatus::Authenticated(100));
    bar.tick(5_100);
    assert!(bar.connection.is_some());
    bar.tick(5_101);
    assert!(bar.connection.is_none());
    assert!(!bar.needs_tick());
}
