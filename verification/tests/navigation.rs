use vk_rust_tui::navigation::{typing, Key};

fn press(text: &str, cursor: usize, key: Key) -> (String, usize) {
    let mut s = text.to_string();
    let mut c = cursor;
    typing(&mut s, &mut c, key);
    (s, c)
}

#[test]
fn characters_go_in_at_the_cursor() {
    assert_eq!(press("ac", 1, Key::Char('b')), ("abc".to_string(), 2));
    assert_eq!(press("", 0, Key::Char('я')), ("я".to_string(), 1));
    assert_eq!(press("пр", 1, Key::Char('и')), ("пир".to_string(), 2));
    assert_eq!(press("ab", 5, Key::Char('c')), ("abc".to_string(), 6));
}

#[test]
fn backspace_and_delete() {
    assert_eq!(press("abc", 2, Key::Backspace), ("ac".to_string(), 1));
    assert_eq!(press("abc", 0, Key::Backspace), ("abc".to_string(), 0));
    assert_eq!(press("abc", 7, Key::Backspace), ("ab".to_string(), 6));
    assert_eq!(press("привет", 6, Key::Backspace), ("приве".to_string(), 5));
    assert_eq!(press("abc", 1, Key::Delete), ("ac".to_string(), 1));
    assert_eq!(press("abc", 3, Key::Delete), ("abc".to_string(), 3));
}

#[test]
fn moving_keys() {
    assert_eq!(press("abc", 1, Key::Left), ("abc".to_string(), 0));
    assert_eq!(press("abc", 0, Key::Left), ("abc".to_string(), 0));
    assert_eq!(press("abc", 1, Key::Right), ("abc".to_string(), 2));
    assert_eq!(press("abc", 3, Key::Right), ("abc".to_string(), 3));
    assert_eq!(press("abc", 1, Key::End), ("abc".to_string(), 3));
    assert_eq!(press("abc", 2, Key::Home), ("abc".to_string(), 0));
    assert_eq!(press("abc", 2, Key::Tab), ("abc".to_string(), 2));
    assert_eq!(press("abc", 2, Key::F(3)), ("abc".to_string(), 2));
}

#[test]
fn enter_inserts_at_the_byte_offset() {
    assert_eq!(press("ab", 1, Key::Enter), ("a\nb".to_string(), 2));
    // The cursor is taken as a byte offset: two bytes into "яб" is after "я".
    assert_eq!(press("яб", 2, Key::Enter), ("я\nб".to_string(), 3));
}

#[test]
fn char_then_backspace_restores() {
    let (s, c) = press("hello", 2, Key::Char('x'));
    let mut s2 = s;
    let mut c2 = c;
    typing(&mut s2, &mut c2, Key::Backspace);
    assert_eq!((s2, c2), ("hello".to_string(), 2));
}

#[test]
fn left_then_right_restores() {
    let (s, c) = press("hello", 3, Key::Left);
    let (s, c) = press(&s, c, Key::Right);
    assert_eq!((s, c), ("hello".to_string(), 3));
}
