//! Turning what the user pastes after authorising in the browser into an
//! access token, and judging the API's answer to a token check.
use vstd::prelude::*;
use crate::text::{
    concat, contains_seq, has_char, has_substring, replace_char, replace_char_str, str_eq, trim,
    trim_str,
};

verus! {

/// Why no token could be taken from the user's input.
#[derive(Debug, Clone, Copy, PartialEq, Eq, Structural)]
pub enum AuthError {
    /// The input was empty once trimmed.
    NoInput,
    /// The normalised input is not a URL.
    InvalidUrl,
    /// The URL has no `access_token` query parameter.
    TokenNotFound,
}

/// The text of each error, as shown to the user.
pub open spec fn auth_error_text(e: AuthError) -> Seq<char> {
    match e {
        AuthError::NoInput => "No input provided"@,
        AuthError::InvalidUrl => "Failed to parse URL"@,
        AuthError::TokenNotFound => "Token not found in the provided URL"@,
    }
}

impl AuthError {
    /// The error's text.
    pub fn message(&self) -> (r: String)
        ensures
            r@ == auth_error_text(*self),
    {
        match self {
            AuthError::NoInput => String::from_str("No input provided"),
            AuthError::InvalidUrl => String::from_str("Failed to parse URL"),
            AuthError::TokenNotFound => String::from_str("Token not found in the provided URL"),
        }
    }
}

/// The form into which pasted input is brought before it is read as a URL:
/// VK hands the token back in the fragment, so `#` becomes `?`; a bare
/// query holding `access_token=` that is not a complete URL (has no `://`)
/// gets a placeholder address in front; anything else is taken to be a
/// complete URL.
pub open spec fn normalized_auth_url(input: Seq<char>) -> Seq<char> {
    if input.contains('#') {
        replace_char(input, '#', '?')
    } else if contains_seq(input, "access_token="@) && !contains_seq(input, "://"@) {
        "http://localhost/?"@ + input
    } else {
        input
    }
}

/// Normalises the URL formats that the browser may show.
pub fn parse_auth_url(input: &str) -> (r: String)
    ensures
        r@ == normalized_auth_url(input@),
{
    if has_char(input, '#') {
        replace_char_str(input, '#', '?')
    } else if has_substring(input, "access_token=") && !has_substring(input, "://") {
        concat("http://localhost/?", input)
    } else {
        String::from_str(input)
    }
}

/// The decoded query pairs of a URL, or `None` where the text is no URL.
pub uninterp spec fn url_query_pairs(url: Seq<char>) -> Option<Seq<(Seq<char>, Seq<char>)>>;

/// The character sequences of a list of string pairs.
pub open spec fn pairs_view(v: Seq<(String, String)>) -> Seq<(Seq<char>, Seq<char>)> {
    v.map_values(|p: (String, String)| (p.0@, p.1@))
}

/// `url::Url::parse`, then `Url::query_pairs` with each decoded pair made owned.
/// The contract says only that the result is a function of the text, named
/// `url_query_pairs`; the WHATWG parsing and percent-decoding are left unsaid.
#[verifier::external_body]
fn query_pairs_of_url(url: &str) -> (r: Option<Vec<(String, String)>>)
    ensures
        url_query_pairs(url@) == match r {
            Some(v) => Some(pairs_view(v@)),
            None => None,
        },
{
    match url::Url::parse(url) {
        Ok(u) => Some(u.query_pairs().map(|(k, v)| (k.into_owned(), v.into_owned())).collect()),
        Err(_) => None,
    }
}

/// The value of the first pair whose key is `key`.
pub open spec fn first_value(pairs: Seq<(Seq<char>, Seq<char>)>, key: Seq<char>) -> Option<Seq<char>>
    decreases pairs.len(),
{
    if pairs.len() == 0 {
        None
    } else if pairs[0].0 == key {
        Some(pairs[0].1)
    } else {
        first_value(pairs.drop_first(), key)
    }
}

/// What the token search answers for a parse result of the normalised URL.
pub open spec fn token_from_pairs(pairs: Option<Seq<(Seq<char>, Seq<char>)>>) -> Result<
    Seq<char>,
    AuthError,
> {
    match pairs {
        None => Err(AuthError::InvalidUrl),
        Some(p) => match first_value(p, "access_token"@) {
            Some(t) => Ok(t),
            None => Err(AuthError::TokenNotFound),
        },
    }
}

/// The view of a token result.
pub open spec fn token_result_view(r: Result<String, AuthError>) -> Result<Seq<char>, AuthError> {
    match r {
        Ok(t) => Ok(t@),
        Err(e) => Err(e),
    }
}

/// Picks the `access_token` parameter out of the parsed query of a URL.
pub fn token_from_query(pairs: Option<Vec<(String, String)>>) -> (r: Result<String, AuthError>)
    ensures
        token_result_view(r) == token_from_pairs(
            match pairs {
                Some(v) => Some(pairs_view(v@)),
                None => None,
            },
        ),
{
    match pairs {
        None => Err(AuthError::InvalidUrl),
        Some(v) => {
            let ghost pv = pairs_view(v@);
            let n = v.len();
            let mut i: usize = 0;
            assert(pv.subrange(0, n as int) =~= pv);
            while i < n
                invariant
                    n == v@.len(),
                    i <= n,
                    pairs == Some(v),
                    pv == pairs_view(v@),
                    first_value(pv, "access_token"@) == first_value(
                        pv.subrange(i as int, n as int),
                        "access_token"@,
                    ),
                decreases n - i,
            {
                assert(pv.subrange(i as int, n as int).drop_first() =~= pv.subrange(
                    i + 1,
                    n as int,
                ));
                assert(pv.subrange(i as int, n as int)[0] == (v@[i as int].0@, v@[i as int].1@));
                if str_eq(v[i].0.as_str(), "access_token") {
                    let t = v[i].1.clone();
                    return Ok(t);
                }
                i = i + 1;
            }
            Err(AuthError::TokenNotFound)
        },
    }
}

/// What the user's pasted text yields: it is trimmed, refused when empty,
/// normalised, read as a URL and searched for the `access_token` parameter.
pub open spec fn token_from_text(input: Seq<char>) -> Result<Seq<char>, AuthError> {
    if trim(input).len() == 0 {
        Err(AuthError::NoInput)
    } else {
        token_from_pairs(url_query_pairs(normalized_auth_url(trim(input))))
    }
}

/// The access token in the text that the user pasted from the browser.
pub fn token_from_input(input: &str) -> (r: Result<String, AuthError>)
    ensures
        token_result_view(r) == token_from_text(input@),
{
    let trimmed = trim_str(input);
    if trimmed.as_str().unicode_len() == 0 {
        return Err(AuthError::NoInput);
    }
    let target = parse_auth_url(trimmed.as_str());
    let pairs = query_pairs_of_url(target.as_str());
    token_from_query(pairs)
}

/// The request that checks a token against the API.
pub open spec fn token_check_url_text(token: Seq<char>) -> Seq<char> {
    "https://api.vk.com/method/users.get?access_token="@ + token + "&v=5.199"@
}

/// The address that `validate_token` requests.
pub fn token_check_url(token: &str) -> (r: String)
    ensures
        r@ == token_check_url_text(token@),
{
    let mut r = String::from_str("https://api.vk.com/method/users.get?access_token=");
    r.append(token);
    r.append("&v=5.199");
    r
}

/// A token is taken as valid when the answer to the check names no `"error"`.
pub fn token_accepted(response_text: &str) -> (b: bool)
    ensures
        b == !contains_seq(response_text@, "\"error\""@),
{
    !has_substring(response_text, "\"error\"")
}


/// Normalisation moves a fragment into the query: the result never holds a `#`.
pub proof fn lemma_normalized_has_no_fragment(input: Seq<char>)
    ensures
        !normalized_auth_url(input).contains('#'),
{
    let r = normalized_auth_url(input);
    if input.contains('#') {
        assert forall|i: int| 0 <= i < r.len() implies r[i] != '#' by {}
    } else if contains_seq(input, "access_token="@) && !contains_seq(input, "://"@) {
        reveal_strlit("http://localhost/?");
        assert forall|i: int| 0 <= i < r.len() implies r[i] != '#' by {
            if i >= "http://localhost/?"@.len() {
                assert(r[i] == input[i - "http://localhost/?"@.len()]);
            }
        }
    }
}


/// White space around the pasted text never changes the token read from it:
/// the answer for a text is the answer for its trimmed form.
pub proof fn lemma_token_ignores_surrounding_space(input: Seq<char>)
    ensures
        token_from_text(input) == token_from_text(trim(input)),
{
    crate::text::lemma_trim_idempotent(input);
}

/// A bare query holding the token, pasted with any surrounding white space,
/// is read as the query of the placeholder address: the token found is the
/// one that the URL parser finds there.
pub proof fn lemma_bare_query_token(input: Seq<char>)
    requires
        !trim(input).contains('#'),
        contains_seq(trim(input), "access_token="@),
        !contains_seq(trim(input), "://"@),
    ensures
        token_from_text(input) == token_from_pairs(
            url_query_pairs("http://localhost/?"@ + trim(input)),
        ),
{
    reveal_strlit("access_token=");
    assert(trim(input).len() > 0) by {
        let i = choose|i: int| crate::text::occurs_at(trim(input), "access_token="@, i);
        assert(trim(input).subrange(i, i + 13).len() == 13);
    }
}

} // verus!
