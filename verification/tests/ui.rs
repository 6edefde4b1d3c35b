use vk_rust_tui::client::{Dialog, Message};
use vk_rust_tui::config::Config;
use vk_rust_tui::json::Json;
use vk_rust_tui::navigation::{Key, Mode};
use vk_rust_tui::ui::{
    get_cursor_line_info, input_lines, message_label, render_cursor_line, split_input_lines,
    update_input_scroll, App, AppEvent, Command, InputLine, Screen,
};

fn dialogs(n: i64) -> Vec<Dialog> {
    (1..=n).map(|i| Dialog { title: format!("chat {}", i), peer_id: i * 10 }).collect()
}

fn msg(text: &str, me: bool) -> Message {
    Message { is_me: me, owner: Json::Null, sender_name: "Bob".to_string(), text: text.to_string() }
}

fn selected(app: &App) -> Option<usize> {
    match &app.screen {
        Screen::ChatList { selected, .. } => *selected,
        _ => panic!("not on the chat list"),
    }
}

#[test]
fn new_app_selects_first_chat() {
    let app = App::new(dialogs(3), (80, 23), Config::default());
    assert_eq!(selected(&app), Some(0));
    assert!(app.running);
    assert_eq!(app.mode, Mode::Normal);
    let empty = App::new(vec![], (80, 23), Config::default());
    assert_eq!(selected(&empty), None);
}

#[test]
fn chat_list_wraps_around() {
    let mut app = App::new(dialogs(3), (80, 23), Config::default());
    assert!(app.handle_input(Key::Char('k')).is_none());
    assert_eq!(selected(&app), Some(2));
    app.handle_input(Key::Char('j'));
    assert_eq!(selected(&app), Some(0));
    app.handle_input(Key::Char('j'));
    app.handle_input(Key::Char('j'));
    assert_eq!(selected(&app), Some(2));
    app.handle_input(Key::Char('k'));
    assert_eq!(selected(&app), Some(1));
}

#[test]
fn down_then_up_returns() {
    let mut app = App::new(dialogs(4), (80, 23), Config::default());
    app.handle_input(Key::Char('j'));
    app.handle_input(Key::Char('j'));
    let before = selected(&app);
    app.handle_input(Key::Char('j'));
    app.handle_input(Key::Char('k'));
    assert_eq!(selected(&app), before);
}

#[test]
fn entering_a_chat_loads_it() {
    let mut app = App::new(dialogs(3), (80, 23), Config::default());
    app.handle_input(Key::Char('j'));
    match app.handle_input(Key::Enter) {
        Some(Command::LoadMessages(p)) => assert_eq!(p, 20),
        other => panic!("unexpected {:?}", other),
    }
    assert_eq!(app.active_peer(), Some(20));
    match &app.screen {
        Screen::ChatView { input, messages, cursor_char_idx, .. } => {
            assert!(input.is_empty());
            assert!(messages.is_empty());
            assert_eq!(*cursor_char_idx, 0);
        }
        _ => panic!("chat not open"),
    }
    assert!(matches!(app.handle_event(AppEvent::Tick), Some(Command::LoadMessages(20))));
}

#[test]
fn empty_list_enters_nothing() {
    let mut app = App::new(vec![], (80, 23), Config::default());
    assert!(app.handle_input(Key::Char('l')).is_none());
    assert!(matches!(app.handle_event(AppEvent::Tick), None));
}

#[test]
fn typing_and_sending() {
    let mut app = App::new(dialogs(1), (80, 23), Config::default());
    app.handle_input(Key::Char('l'));
    app.handle_input(Key::Char('i'));
    assert_eq!(app.mode, Mode::Insert);
    for c in "hi".chars() {
        assert!(app.accepts_key(Key::Char(c)));
        app.handle_input(Key::Char(c));
    }
    app.handle_input(Key::Esc);
    assert_eq!(app.mode, Mode::Normal);
    match app.handle_input(Key::Enter) {
        Some(Command::SendMessage(p, t)) => {
            assert_eq!(p, 10);
            assert_eq!(t, "hi");
        }
        other => panic!("unexpected {:?}", other),
    }
    match &app.screen {
        Screen::ChatView { input, .. } => assert!(input.is_empty()),
        _ => panic!("chat closed"),
    }
    // An empty input sends nothing.
    assert!(app.handle_input(Key::Enter).is_none());
}

#[test]
fn backspace_after_send_is_refused() {
    let mut app = App::new(dialogs(1), (80, 23), Config::default());
    app.handle_input(Key::Char('l'));
    app.handle_input(Key::Char('i'));
    app.handle_input(Key::Char('a'));
    app.handle_input(Key::Esc);
    app.handle_input(Key::Enter);
    app.handle_input(Key::Char('i'));
    // The input is empty but the cursor stayed at 1.
    assert!(!app.accepts_key(Key::Backspace));
    assert!(app.accepts_key(Key::Char('b')));
}

#[test]
fn enter_in_insert_mode_needs_a_byte_boundary() {
    let mut app = App::new(dialogs(1), (80, 23), Config::default());
    app.handle_input(Key::Char('l'));
    app.handle_input(Key::Char('i'));
    app.handle_input(Key::Char('я'));
    app.handle_input(Key::Char('б'));
    // The cursor (2 characters) is byte 2, the boundary after "я".
    assert!(app.accepts_key(Key::Enter));
    app.handle_input(Key::Left);
    // Cursor 1 is inside the two bytes of "я".
    assert!(!app.accepts_key(Key::Enter));
}

#[test]
fn quit_and_back_to_list() {
    let mut app = App::new(dialogs(2), (80, 23), Config::default());
    app.handle_input(Key::Enter);
    app.handle_input(Key::Char('h'));
    assert_eq!(selected(&app), None);
    app.handle_input(Key::Char('q'));
    assert!(!app.running);
}

#[test]
fn message_selection_stays_in_range() {
    let mut app = App::new(dialogs(1), (80, 23), Config::default());
    app.handle_input(Key::Enter);
    app.set_messages(vec![msg("a", false), msg("b", true)]);
    app.handle_input(Key::Char('j'));
    app.handle_input(Key::Char('j'));
    match &app.screen {
        Screen::ChatView { selected, scroll, messages, .. } => {
            assert_eq!(*selected, 1);
            assert_eq!(*scroll, 1);
            assert_eq!(messages.len(), 2);
        }
        _ => panic!(),
    }
    app.handle_event(AppEvent::NewMessage(msg("c", false)));
    app.handle_input(Key::Char('k'));
    match &app.screen {
        Screen::ChatView { selected, messages, .. } => {
            assert_eq!(*selected, 0);
            assert_eq!(messages.len(), 3);
            assert_eq!(messages[2].text, "c");
        }
        _ => panic!(),
    }
}

#[test]
fn new_message_ignored_on_list() {
    let mut app = App::new(dialogs(1), (80, 23), Config::default());
    app.handle_event(AppEvent::NewMessage(msg("c", false)));
    app.set_messages(vec![msg("a", false)]);
    assert_eq!(selected(&app), Some(0));
    app.sync_list_state(Some(0), 5);
    assert!(matches!(app.screen, Screen::ChatList { selected: Some(0), offset: 5 }));
}

#[test]
fn cursor_line_info() {
    assert_eq!(get_cursor_line_info("ab\ncd", 2), (0, 2));
    assert_eq!(get_cursor_line_info("ab\ncd", 3), (1, 0));
    assert_eq!(get_cursor_line_info("ab\ncd", 5), (1, 2));
    assert_eq!(get_cursor_line_info("ab\ncd", 99), (1, 2));
    assert_eq!(get_cursor_line_info("яб\nв", 2), (0, 4));
    assert_eq!(get_cursor_line_info("", 0), (0, 0));
}

#[test]
fn input_scroll_follows_cursor() {
    let text = "a\nb\nc\nd";
    let mut scroll = 0;
    update_input_scroll(text, 6, 1, &mut scroll);
    assert_eq!(scroll, 3);
    update_input_scroll(text, 0, 1, &mut scroll);
    assert_eq!(scroll, 0);
    let mut scroll = 1;
    update_input_scroll(text, 4, 2, &mut scroll);
    assert_eq!(scroll, 1);
    update_input_scroll(text, 6, 2, &mut scroll);
    assert_eq!(scroll, 2);
}

#[test]
fn lines_and_cursor_parts() {
    assert_eq!(split_input_lines("a\n\nb"), vec!["a", "", "b"]);
    assert_eq!(split_input_lines(""), vec![""]);
    assert_eq!(render_cursor_line("abc", 1), ("a".to_string(), "b".to_string(), "c".to_string()));
    assert_eq!(render_cursor_line("abc", 3), ("abc".to_string(), " ".to_string(), String::new()));
    assert_eq!(render_cursor_line("яб", 2), ("я".to_string(), "б".to_string(), String::new()));
}

#[test]
fn input_box_lines() {
    let shown = input_lines("one\ntwo\nthree", 5, 1, 4);
    assert_eq!(shown.len(), 2);
    match &shown[0] {
        InputLine::WithCursor(a, b, c) => {
            assert_eq!((a.as_str(), b.as_str(), c.as_str()), ("t", "w", "o"));
        }
        _ => panic!("cursor line expected"),
    }
    match &shown[1] {
        InputLine::Plain(s) => assert_eq!(s, "three"),
        _ => panic!("plain line expected"),
    }
    assert!(input_lines("x", 0, 0, 2).is_empty());
    assert!(input_lines("x", 0, 0, 1).is_empty());
}

#[test]
fn labels_and_sizes() {
    let app = App::new(dialogs(1), (80, 23), Config::default());
    assert!(app.check_min_size(80, 23));
    assert!(!app.check_min_size(79, 30));
    assert_eq!(app.min_size_message(10, 5), "Minimum size: 80x23; Current: 10x5");
    assert_eq!(app.mode_label(), "   NORMAL   ");
    assert_eq!(message_label(&msg("x", true)), "You: ");
    assert_eq!(message_label(&msg("x", false)), "Bob: ");
}

#[test]
fn messages_and_screens_clone() {
    let m = Message {
        is_me: true,
        owner: Json::Object(vec![("id".to_string(), Json::PosInt(3))]),
        sender_name: "A".to_string(),
        text: "t".to_string(),
    };
    let c = m.clone();
    assert_eq!(c.text, "t");
    assert!(matches!(c.owner, Json::Object(ref e) if e.len() == 1));
    let app = App::new(dialogs(1), (80, 23), Config::default());
    let screen = app.screen.clone();
    assert!(matches!(screen, Screen::ChatList { selected: Some(0), offset: 0 }));
}
