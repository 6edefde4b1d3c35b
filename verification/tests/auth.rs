use vk_rust_tui::auth::{parse_auth_url, token_accepted, token_check_url, token_from_input, token_from_query, AuthError};

#[test]
fn test_parse_auth_url_with_fragment() {
    let input = "#access_token=test123&expires_in=0";
    assert_eq!(parse_auth_url(input), "?access_token=test123&expires_in=0");
}

#[test]
fn test_parse_auth_url_with_query() {
    let input = "access_token=test123&expires_in=0";
    assert_eq!(
        parse_auth_url(input),
        "http://localhost/?access_token=test123&expires_in=0"
    );
}

#[test]
fn test_parse_auth_url_with_full_url() {
    let input = "http://example.com/?access_token=test123";
    assert_eq!(parse_auth_url(input), "http://example.com/?access_token=test123");
}

#[test]
fn parse_auth_url_replaces_every_hash() {
    assert_eq!(
        parse_auth_url("https://oauth.vk.com/blank.html#access_token=a#b"),
        "https://oauth.vk.com/blank.html?access_token=a?b"
    );
}

#[test]
fn parse_auth_url_keeps_other_text() {
    assert_eq!(parse_auth_url("nothing here"), "nothing here");
    assert_eq!(parse_auth_url(""), "");
}

#[test]
fn token_from_browser_redirect() {
    let r = token_from_input(
        "  https://oauth.vk.com/blank.html#access_token=abc123&expires_in=0&user_id=7\n",
    );
    assert_eq!(r, Ok("abc123".to_string()));
}

#[test]
fn token_from_bare_query() {
    assert_eq!(token_from_input("access_token=xyz&expires_in=0"), Ok("xyz".to_string()));
}

#[test]
fn token_first_of_repeated_parameter() {
    assert_eq!(
        token_from_input("http://h/?access_token=one&access_token=two"),
        Ok("one".to_string())
    );
}

#[test]
fn token_is_percent_decoded() {
    assert_eq!(token_from_input("http://h/?access_token=a%20b"), Ok("a b".to_string()));
}

#[test]
fn token_errors() {
    assert_eq!(token_from_input("   \t "), Err(AuthError::NoInput));
    assert_eq!(token_from_input("not a url"), Err(AuthError::InvalidUrl));
    assert_eq!(token_from_input("http://example.com/?user_id=5"), Err(AuthError::TokenNotFound));
    assert_eq!(AuthError::NoInput.message(), "No input provided");
    assert_eq!(AuthError::InvalidUrl.message(), "Failed to parse URL");
    assert_eq!(AuthError::TokenNotFound.message(), "Token not found in the provided URL");
}

#[test]
fn token_from_query_pairs() {
    assert_eq!(token_from_query(None), Err(AuthError::InvalidUrl));
    assert_eq!(token_from_query(Some(vec![])), Err(AuthError::TokenNotFound));
    let pairs = vec![
        ("a".to_string(), "1".to_string()),
        ("access_token".to_string(), "t".to_string()),
        ("access_token".to_string(), "u".to_string()),
    ];
    assert_eq!(token_from_query(Some(pairs)), Ok("t".to_string()));
}

#[test]
fn token_check_request() {
    assert_eq!(
        token_check_url("tok"),
        "https://api.vk.com/method/users.get?access_token=tok&v=5.199"
    );
    assert!(token_accepted("{\"response\":[{\"id\":1}]}"));
    assert!(!token_accepted("{\"error\":{\"error_code\":5}}"));
}

#[test]
fn parse_auth_url_prefixes_query_with_token_later() {
    assert_eq!(
        parse_auth_url("expires_in=0&access_token=x"),
        "http://localhost/?expires_in=0&access_token=x"
    );
    assert_eq!(token_from_input("expires_in=0&access_token=x"), Ok("x".to_string()));
}
