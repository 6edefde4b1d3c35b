use vk_rust_tui::text::{has_char, has_substring, int_to_string, replace_char_str, str_eq, trim_str};

#[test]
fn trims_unicode_white_space() {
    assert_eq!(trim_str("  a b \n"), "a b");
    assert_eq!(trim_str("\u{3000}x\u{a0}"), "x");
    assert_eq!(trim_str("   "), "");
    assert_eq!(trim_str(""), "");
    assert_eq!(trim_str("Иван Петров "), "Иван Петров");
}

#[test]
fn decimal_text() {
    assert_eq!(int_to_string(0), "0");
    assert_eq!(int_to_string(2000000001), "2000000001");
    assert_eq!(int_to_string(-42), "-42");
    assert_eq!(int_to_string(i64::MIN), "-9223372036854775808");
    assert_eq!(int_to_string(i64::MAX), "9223372036854775807");
}

#[test]
fn searching() {
    assert!(has_char("a#b", '#'));
    assert!(!has_char("ab", '#'));
    assert!(has_substring("xxaccess_token=1", "access_token="));
    assert!(!has_substring("access_token", "access_token="));
    assert!(has_substring("abc", ""));
    assert!(str_eq("abc", "abc"));
    assert!(!str_eq("abc", "abd"));
    assert_eq!(replace_char_str("a#b#", '#', '?'), "a?b?");
}
