//! Settings: the access token, the smallest usable window, and key bindings.
use vstd::prelude::*;
use crate::navigation::Key;

verus! {

/// The keys that drive the interface.
#[derive(Debug, Clone, Copy, PartialEq, Eq, Structural)]
pub struct KeyBindings {
    // Global
    pub command: Key,
    pub quit: Key,
    // Normal mode
    pub to_normal_mode: Key,
    // Insert mode
    pub go_back_word: Key,
    pub go_forward_word: Key,
    pub to_insert_mode: Key,
    // Chat list
    pub enter_chat: Key,
    pub enter_chat_secondary: Key,
    pub move_up_list: Key,
    pub move_down_list: Key,
    // Chat view
    pub scroll_up_chat: Key,
    pub scroll_down_chat: Key,
    pub view_chat_list: Key,
}

/// The bindings used when none are configured.
pub open spec fn default_key_bindings() -> KeyBindings {
    KeyBindings {
        command: Key::Char(':'),
        quit: Key::Char('q'),
        to_normal_mode: Key::Esc,
        go_back_word: Key::Char('b'),
        go_forward_word: Key::Char('w'),
        to_insert_mode: Key::Char('i'),
        enter_chat: Key::Char('l'),
        enter_chat_secondary: Key::Enter,
        move_up_list: Key::Char('k'),
        move_down_list: Key::Char('j'),
        scroll_up_chat: Key::Char('k'),
        scroll_down_chat: Key::Char('j'),
        view_chat_list: Key::Char('h'),
    }
}

impl Default for KeyBindings {
    fn default() -> (r: Self)
        ensures
            r == default_key_bindings(),
    {
        KeyBindings {
            command: Key::Char(':'),
            quit: Key::Char('q'),
            to_normal_mode: Key::Esc,
            go_back_word: Key::Char('b'),
            go_forward_word: Key::Char('w'),
            to_insert_mode: Key::Char('i'),
            enter_chat: Key::Char('l'),
            enter_chat_secondary: Key::Enter,
            move_up_list: Key::Char('k'),
            move_down_list: Key::Char('j'),
            scroll_up_chat: Key::Char('k'),
            scroll_down_chat: Key::Char('j'),
            view_chat_list: Key::Char('h'),
        }
    }
}

/// The application's settings.
#[derive(Debug, Clone)]
pub struct Config {
    pub token: String,
    pub min_width: u16,
    pub min_height: u16,
    pub keys: KeyBindings,
}

/// A fresh token for a configuration that has none: authorisation happens
/// elsewhere, so it is empty.
pub fn generate_token() -> (r: String)
    ensures
        r@ == Seq::<char>::empty(),
{
    String::new()
}

/// The settings used when no configuration file can be read.
pub open spec fn is_default_config(c: Config) -> bool {
    &&& c.token@ == Seq::<char>::empty()
    &&& c.min_width == 300
    &&& c.min_height == 300
    &&& c.keys == default_key_bindings()
}

impl Default for Config {
    fn default() -> (r: Self)
        ensures
            is_default_config(r),
    {
        Config {
            token: generate_token(),
            min_width: 300,
            min_height: 300,
            keys: KeyBindings::default(),
        }
    }
}

/// The settings that loading yields from what the file held: the parsed
/// settings, or the defaults where there was no file or it did not parse;
/// an empty token is then replaced by a freshly generated one.
pub fn resolve_config(parsed: Option<Config>) -> (r: Config)
    ensures
        match parsed {
            Some(c) => r.token@ == c.token@ && r.min_width == c.min_width && r.min_height
                == c.min_height && r.keys == c.keys,
            None => is_default_config(r),
        },
{
    let mut config = match parsed {
        Some(c) => c,
        None => Config::default(),
    };
    if config.token.as_str().unicode_len() == 0 {
        config.token = generate_token();
    }
    config
}

} // verus!
