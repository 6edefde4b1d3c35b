use vk_rust_tui::config::{generate_token, resolve_config, Config, KeyBindings};
use vk_rust_tui::navigation::Key;

#[test]
fn default_settings() {
    let c = Config::default();
    assert_eq!(c.token, "");
    assert_eq!(c.min_width, 300);
    assert_eq!(c.min_height, 300);
    let k = KeyBindings::default();
    assert_eq!(c.keys, k);
    assert_eq!(k.quit, Key::Char('q'));
    assert_eq!(k.to_normal_mode, Key::Esc);
    assert_eq!(k.to_insert_mode, Key::Char('i'));
    assert_eq!(k.enter_chat, Key::Char('l'));
    assert_eq!(k.enter_chat_secondary, Key::Enter);
    assert_eq!(k.move_up_list, Key::Char('k'));
    assert_eq!(k.move_down_list, Key::Char('j'));
    assert_eq!(k.view_chat_list, Key::Char('h'));
    assert_eq!(generate_token(), "");
}

#[test]
fn loading_keeps_parsed_settings() {
    let mut parsed = Config::default();
    parsed.token = "abc".to_string();
    parsed.min_width = 80;
    parsed.keys.quit = Key::Char('x');
    let c = resolve_config(Some(parsed));
    assert_eq!(c.token, "abc");
    assert_eq!(c.min_width, 80);
    assert_eq!(c.min_height, 300);
    assert_eq!(c.keys.quit, Key::Char('x'));
    let d = resolve_config(None);
    assert_eq!(d.token, "");
    assert_eq!(d.min_width, 300);
}
