//! The VK API client: the requests it makes and how it reads the answers.
//!
//! Sending requests is left to the caller; this module builds each request's
//! address and turns each JSON answer into the interface's data.
use vstd::prelude::*;
use crate::client::{dialog_view, Dialog, Message, MessageV};
use crate::json::{
    as_array, as_i64, as_str, array_or_empty, field, item, json_seq_view, lemma_json_seq_view, str_or,
    Json, JsonV,
};
use crate::text::{int_digits, push_int, trim, trim_str};

verus! {

/// Why an API answer could not be used.
#[derive(Debug, Clone, Copy, PartialEq, Eq, Structural)]
pub enum VkError {
    /// The answer to the user request carried an error.
    UserData,
    /// The answer to a send request carried an error.
    SendFailed,
    /// The answer lacked `response.items`.
    MissingItems,
    /// A conversation lacked its peer's id.
    MissingPeerId,
}

/// The text of each error.
pub open spec fn vk_error_text(e: VkError) -> Seq<char> {
    match e {
        VkError::UserData => "VK API: unable to retrieve user data"@,
        VkError::SendFailed => "VK API: failed to send message"@,
        VkError::MissingItems => "VK API: missing 'response.items' in response"@,
        VkError::MissingPeerId => "VK API: missing 'peer.id' in response"@,
    }
}

impl VkError {
    /// The error's text.
    pub fn message(&self) -> (r: String)
        ensures
            r@ == vk_error_text(*self),
    {
        match self {
            VkError::UserData => String::from_str("VK API: unable to retrieve user data"),
            VkError::SendFailed => String::from_str("VK API: failed to send message"),
            VkError::MissingItems => String::from_str(
                "VK API: missing 'response.items' in response",
            ),
            VkError::MissingPeerId => String::from_str("VK API: missing 'peer.id' in response"),
        }
    }
}

/// The API version every request names.
pub open spec fn api_version() -> Seq<char> {
    "5.199"@
}

/// The address every method hangs off.
pub open spec fn api_base() -> Seq<char> {
    "https://api.vk.com/method"@
}

/// Bytes that percent-encoding leaves as they are.
pub open spec fn is_unreserved(b: u8) -> bool {
    ||| 48 <= b <= 57
    ||| 65 <= b <= 90
    ||| 97 <= b <= 122
    ||| b == 45
    ||| b == 46
    ||| b == 95
    ||| b == 126
}

/// Upper-case hexadecimal digit for `d < 16`.
pub open spec fn hex_digit(d: int) -> char {
    if d < 10 {
        (48 + d) as char
    } else {
        (55 + d) as char
    }
}

/// Percent-encoding of a byte sequence: every byte but ASCII letters,
/// digits and `-._~` becomes `%` and two upper-case hex digits.
pub open spec fn percent_encode(bytes: Seq<u8>) -> Seq<char>
    decreases bytes.len(),
{
    if bytes.len() == 0 {
        Seq::empty()
    } else {
        let b = bytes[0];
        (if is_unreserved(b) {
            seq![b as char]
        } else {
            seq!['%', hex_digit(b as int / 16), hex_digit(b as int % 16)]
        }) + percent_encode(bytes.drop_first())
    }
}

/// `urlencoding::encode`: the percent-encoding of the text's UTF-8 bytes,
/// made owned.
#[verifier::external_body]
fn url_encode(text: &str) -> (r: String)
    ensures
        r@ == percent_encode(vstd::utf8::encode_utf8(text@)),
{
    urlencoding::encode(text).into_owned()
}

/// `key=value` pairs joined by `&`.
pub open spec fn join_params(params: Seq<(Seq<char>, Seq<char>)>) -> Seq<char>
    decreases params.len(),
{
    if params.len() == 0 {
        Seq::empty()
    } else if params.len() == 1 {
        params[0].0 + "="@ + params[0].1
    } else {
        join_params(params.drop_last()) + "&"@ + params.last().0 + "="@ + params.last().1
    }
}

/// The address of an API method call with the given parameters.
pub open spec fn api_url(method: Seq<char>, params: Seq<(Seq<char>, Seq<char>)>) -> Seq<char> {
    api_base() + "/"@ + method + "?"@ + join_params(params) + "&v="@ + api_version()
}

/// The user request made when the client starts.
pub open spec fn users_get_url(token: Seq<char>) -> Seq<char> {
    api_base() + "/users.get?access_token="@ + token + "&v="@ + api_version()
}

/// The conversation list request.
pub open spec fn conversations_url(token: Seq<char>) -> Seq<char> {
    api_base() + "/messages.getConversations?access_token="@ + token + "&count="@ + int_digits(40)
        + "&extended=1&v="@ + api_version()
}

/// The history request for one conversation.
pub open spec fn history_url(token: Seq<char>, peer_id: i64, count: u32) -> Seq<char> {
    api_base() + "/messages.getHistory?access_token="@ + token + "&peer_id="@ + int_digits(
        peer_id as int,
    ) + "&count="@ + int_digits(count as int) + "&extended=1&v="@ + api_version()
}

/// The request that sends `text` to a conversation.
pub open spec fn send_url(token: Seq<char>, peer_id: i64, text: Seq<char>) -> Seq<char> {
    api_base() + "/messages.send?"@ + join_params(
        seq![
            ("access_token"@, token),
            ("peer_id"@, int_digits(peer_id as int)),
            ("message"@, percent_encode(vstd::utf8::encode_utf8(text))),
            ("random_id"@, "0"@),
        ],
    )
}

/// The display name of a profile: first and last name, trimmed.
pub open spec fn profile_name(profile: JsonV) -> Seq<char> {
    trim(str_or(field(profile, "first_name"@), ""@) + " "@ + str_or(field(profile, "last_name"@), ""@))
}

/// The first record whose `id` is `id`.
pub open spec fn find_by_id(records: Seq<JsonV>, id: i64) -> Option<JsonV>
    decreases records.len(),
{
    if records.len() == 0 {
        None
    } else if as_i64(field(records[0], "id"@)) == Some(id) {
        Some(records[0])
    } else {
        find_by_id(records.drop_first(), id)
    }
}

/// The title of a conversation: its chat title for group chats, the peer's
/// name for private chats and communities, a placeholder otherwise.
pub open spec fn dialog_title(
    item: JsonV,
    profiles: Seq<JsonV>,
    groups: Seq<JsonV>,
    peer_id: i64,
) -> Seq<char> {
    let settings = field(field(item, "conversation"@), "chat_settings"@);
    if settings is Object {
        str_or(field(settings, "title"@), "Untitled Chat"@)
    } else if 0 < peer_id < 2_000_000_000 {
        match find_by_id(profiles, peer_id) {
            Some(p) => profile_name(p),
            None => "User "@ + int_digits(peer_id as int),
        }
    } else if peer_id < 0 {
        match find_by_id(groups, -peer_id as i64) {
            Some(g) => str_or(field(g, "name"@), "Group "@ + int_digits(-peer_id)),
            None => "Group "@ + int_digits(-peer_id),
        }
    } else {
        "Unknown Chat"@
    }
}

/// The `response` part of an answer.
pub open spec fn response_of(resp: JsonV) -> JsonV {
    field(resp, "response"@)
}

/// The profiles that come with an answer.
pub open spec fn profiles_of(resp: JsonV) -> Seq<JsonV> {
    array_or_empty(field(response_of(resp), "profiles"@))
}

/// The communities that come with an answer.
pub open spec fn groups_of(resp: JsonV) -> Seq<JsonV> {
    array_or_empty(field(response_of(resp), "groups"@))
}

/// The peer id of a conversation item.
pub open spec fn peer_id_of(it: JsonV) -> Option<i64> {
    as_i64(field(field(field(it, "conversation"@), "peer"@), "id"@))
}

/// The conversations an answer lists, in order, as (title, peer id).
pub open spec fn dialogs_of(resp: JsonV) -> Result<Seq<(Seq<char>, i64)>, VkError> {
    match as_array(field(response_of(resp), "items"@)) {
        None => Err(VkError::MissingItems),
        Some(items) => if exists|i: int| 0 <= i < items.len() && peer_id_of(#[trigger] items[i]) is None {
            Err(VkError::MissingPeerId)
        } else {
            Ok(
                items.map_values(
                    |it: JsonV|
                        (
                            dialog_title(
                                it,
                                profiles_of(resp),
                                groups_of(resp),
                                peer_id_of(it)->0,
                            ),
                            peer_id_of(it)->0,
                        ),
                ),
            )
        },
    }
}

/// The sender's id of a message item (`0` when absent).
pub open spec fn from_id_of(it: JsonV) -> i64 {
    match as_i64(field(it, "from_id"@)) {
        Some(i) => i,
        None => 0,
    }
}

/// The id of the signed-in user (`0` when absent).
pub open spec fn user_id_of(user: JsonV) -> i64 {
    match as_i64(field(user, "id"@)) {
        Some(i) => i,
        None => 0,
    }
}

/// One message of a history answer: its text, whether the user wrote it,
/// and the sender's name and record looked up among the profiles (for
/// positive ids) or communities (for negative ids).
pub open spec fn message_of(it: JsonV, profiles: Seq<JsonV>, groups: Seq<JsonV>, user_id: i64) -> MessageV {
    let from_id = from_id_of(it);
    let (name, owner) = if from_id > 0 {
        match find_by_id(profiles, from_id) {
            Some(p) => (profile_name(p), p),
            None => ("User "@ + int_digits(from_id as int), JsonV::Null),
        }
    } else if from_id < 0 {
        match find_by_id(groups, -from_id as i64) {
            Some(g) => (str_or(field(g, "name"@), "Group"@), g),
            None => ("Group "@ + int_digits(-from_id), JsonV::Null),
        }
    } else {
        ("id"@ + int_digits(from_id as int), JsonV::Null)
    };
    MessageV { is_me: from_id == user_id, owner, sender_name: name, text: str_or(field(it, "text"@), ""@) }
}

/// The messages of a history answer, oldest first (the answer lists newest first).
pub open spec fn messages_of(resp: JsonV, user: JsonV) -> Result<Seq<MessageV>, VkError> {
    match as_array(field(response_of(resp), "items"@)) {
        None => Err(VkError::MissingItems),
        Some(items) => Ok(
            items.map_values(
                |it: JsonV| message_of(it, profiles_of(resp), groups_of(resp), user_id_of(user)),
            ).reverse(),
        ),
    }
}

/// The client's state: the access token and the signed-in user's record.
pub struct VkClient {
    token: String,
    user: Json,
}

impl VkClient {
    /// The access token.
    pub closed spec fn token_view(&self) -> Seq<char> {
        self.token@
    }

    /// The signed-in user's record.
    pub closed spec fn user_view(&self) -> JsonV {
        self.user@
    }
}


impl VkClient {
    /// The address of the user request that starting a client makes.
    pub fn user_request_url(token: &str) -> (r: String)
        ensures
            r@ == users_get_url(token@),
    {
        let mut r = String::from_str("https://api.vk.com/method");
        r.append("/users.get?access_token=");
        r.append(token);
        r.append("&v=");
        r.append("5.199");
        r
    }

    /// The client that the answer to the user request yields: refused when
    /// the answer carries an `error` object, else holding the first user
    /// record of the answer (or `null`).
    pub fn from_user_response(token: String, resp: &Json) -> (r: Result<VkClient, VkError>)
        ensures
            match r {
                Ok(c) => !(field(resp@, "error"@) is Object) && c.token_view() == token@
                    && c.user_view() == item(field(resp@, "response"@), 0),
                Err(e) => field(resp@, "error"@) is Object && e == VkError::UserData,
            },
    {
        if resp.field_is_object("error") {
            return Err(VkError::UserData);
        }
        let user = match resp.get("response") {
            Some(Json::Array(v)) => {
                proof {
                    lemma_json_seq_view(v@);
                }
                if v.len() > 0 {
                    v[0].duplicate()
                } else {
                    Json::Null
                }
            },
            _ => Json::Null,
        };
        Ok(VkClient { token, user })
    }

    /// The access token.
    pub fn token(&self) -> (r: &str)
        ensures
            r@ == self.token_view(),
    {
        self.token.as_str()
    }

    /// The signed-in user's record.
    pub fn get_user(&self) -> (r: &Json)
        ensures
            r@ == self.user_view(),
    {
        &self.user
    }
}

/// The character sequences of a parameter list.
pub open spec fn params_view(params: Seq<(&str, String)>) -> Seq<(Seq<char>, Seq<char>)> {
    params.map_values(|p: (&str, String)| (p.0@, p.1@))
}

/// The address of a call of `method` with `params`, in the API version used throughout.
pub fn build_api_url(method: &str, params: &[(&str, String)]) -> (r: String)
    ensures
        r@ == api_url(method@, params_view(params@)),
{
    let mut r = String::from_str("https://api.vk.com/method");
    r.append("/");
    r.append(method);
    r.append("?");
    let ghost prefix = r@;
    let ghost pv = params_view(params@);
    let n = params.len();
    let mut i: usize = 0;
    while i < n
        invariant
            n == params@.len(),
            pv == params_view(params@),
            i <= n,
            r@ == prefix + join_params(pv.take(i as int)),
        decreases n - i,
    {
        let ghost before = r@;
        if i > 0 {
            r.append("&");
        }
        r.append(params[i].0);
        r.append("=");
        r.append(params[i].1.as_str());
        proof {
            assert(pv.take(i + 1).drop_last() =~= pv.take(i as int));
            assert(pv.take(i + 1).last() == pv[i as int]);
            if i == 0 {
                assert(pv.take(1).len() == 1);
                assert(join_params(pv.take(0)) =~= Seq::<char>::empty());
            }
            assert(r@ =~= prefix + join_params(pv.take(i + 1)));
        }
        i = i + 1;
    }
    assert(pv.take(n as int) =~= pv);
    r.append("&v=");
    r.append("5.199");
    r
}

/// The display name of a profile record.
pub fn extract_name_from_profile(profile: &Json) -> (r: String)
    ensures
        r@ == profile_name(profile@),
{
    let first = str_field_or(profile, "first_name", "");
    let last = str_field_or(profile, "last_name", "");
    let mut full = String::from_str(first);
    full.append(" ");
    full.append(last);
    trim_str(full.as_str())
}

/// The string under `key`, or `default`.
fn str_field_or<'a>(j: &'a Json, key: &str, default: &'a str) -> (r: &'a str)
    ensures
        r@ == str_or(field(j@, key@), default@),
{
    match j.get(key) {
        Some(v) => match v.to_str() {
            Some(s) => s,
            None => default,
        },
        None => default,
    }
}

/// The first record of `records` whose `id` is `id`.
pub fn find_record(records: &Vec<Json>, id: i64) -> (r: Option<&Json>)
    ensures
        match r {
            Some(x) => find_by_id(json_seq_view(records@), id) == Some(x@),
            None => find_by_id(json_seq_view(records@), id) is None,
        },
{
    let ghost rv = json_seq_view(records@);
    proof {
        lemma_json_seq_view(records@);
    }
    let n = records.len();
    let mut i: usize = 0;
    assert(rv.subrange(0, n as int) =~= rv);
    while i < n
        invariant
            n == records@.len(),
            rv == json_seq_view(records@),
            rv.len() == n,
            forall|k: int| 0 <= k < n ==> #[trigger] rv[k] == records@[k]@,
            i <= n,
            find_by_id(rv, id) == find_by_id(rv.subrange(i as int, n as int), id),
        decreases n - i,
    {
        assert(rv.subrange(i as int, n as int).drop_first() =~= rv.subrange(i + 1, n as int));
        assert(rv.subrange(i as int, n as int)[0] == rv[i as int]);
        let found = match records[i].get("id") {
            Some(v) => match v.to_i64() {
                Some(x) => x == id,
                None => false,
            },
            None => false,
        };
        if found {
            return Some(&records[i]);
        }
        i = i + 1;
    }
    None
}

/// The title of a conversation item. Without a `chat_settings` object the
/// peer id is not the smallest `i64`, whose negation overflows.
pub fn get_dialog_title(item: &Json, profiles: &Vec<Json>, groups: &Vec<Json>, peer_id: i64) -> (r:
    String)
    requires
        has_chat_settings(item@) || peer_id != i64::MIN,
    ensures
        r@ == dialog_title(item@, json_seq_view(profiles@), json_seq_view(groups@), peer_id),
{
    let settings = match item.get("conversation") {
        Some(c) => c.get("chat_settings"),
        None => None,
    };
    match settings {
        Some(Json::Object(_)) => {
            let s = settings.unwrap();
            let title = str_field_or(s, "title", "Untitled Chat");
            return String::from_str(title);
        },
        _ => {},
    }
    if 0 < peer_id && peer_id < 2_000_000_000 {
        match find_record(profiles, peer_id) {
            Some(p) => extract_name_from_profile(p),
            None => {
                let mut r = String::from_str("User ");
                push_int(&mut r, peer_id);
                r
            },
        }
    } else if peer_id < 0 {
        let abs_id = -peer_id;
        let fallback = || -> (r: String)
            ensures
                r@ == "Group "@ + int_digits(abs_id as int),
        {
            let mut r = String::from_str("Group ");
            push_int(&mut r, abs_id);
            r
        };
        match find_record(groups, abs_id) {
            Some(g) => match g.get("name") {
                Some(v) => match v.to_str() {
                    Some(name) => String::from_str(name),
                    None => fallback(),
                },
                None => fallback(),
            },
            None => fallback(),
        }
    } else {
        String::from_str("Unknown Chat")
    }
}


impl VkClient {
    /// The address that sends `text` to conversation `peer_id`.
    pub fn send_message_url(&self, peer_id: i64, text: &str) -> (r: String)
        ensures
            r@ == send_url(self.token_view(), peer_id, text@),
    {
        let encoded = url_encode(text);
        let mut r = String::from_str("https://api.vk.com/method");
        r.append("/messages.send?");
        r.append("access_token");
        r.append("=");
        r.append(self.token.as_str());
        r.append("&");
        r.append("peer_id");
        r.append("=");
        push_int(&mut r, peer_id);
        r.append("&");
        r.append("message");
        r.append("=");
        r.append(encoded.as_str());
        r.append("&");
        r.append("random_id");
        r.append("=");
        r.append("0");
        proof {
            let ps = seq![
                ("access_token"@, self.token@),
                ("peer_id"@, int_digits(peer_id as int)),
                ("message"@, percent_encode(vstd::utf8::encode_utf8(text@))),
                ("random_id"@, "0"@),
            ];
            assert(ps.drop_last().drop_last().drop_last() =~= seq![ps[0]]);
            assert(ps.drop_last().drop_last() =~= seq![ps[0], ps[1]]);
            assert(ps.drop_last() =~= seq![ps[0], ps[1], ps[2]]);
            assert(seq![ps[0], ps[1]].drop_last() =~= seq![ps[0]]);
            assert(seq![ps[0], ps[1], ps[2]].drop_last() =~= seq![ps[0], ps[1]]);
            let j1 = join_params(seq![ps[0]]);
            assert(j1 == ps[0].0 + "="@ + ps[0].1);
            let j2 = join_params(seq![ps[0], ps[1]]);
            assert(j2 == j1 + "&"@ + ps[1].0 + "="@ + ps[1].1);
            let j3 = join_params(seq![ps[0], ps[1], ps[2]]);
            assert(j3 == j2 + "&"@ + ps[2].0 + "="@ + ps[2].1);
            assert(join_params(ps) == j3 + "&"@ + ps[3].0 + "="@ + ps[3].1);
            assert(r@ =~= send_url(self.token@, peer_id, text@));
        }
        r
    }

    /// The address of the conversation list request.
    pub fn dialogs_url(&self) -> (r: String)
        ensures
            r@ == conversations_url(self.token_view()),
    {
        let mut r = String::from_str("https://api.vk.com/method");
        r.append("/messages.getConversations?access_token=");
        r.append(self.token.as_str());
        r.append("&count=");
        push_int(&mut r, 40);
        r.append("&extended=1&v=");
        r.append("5.199");
        r
    }

    /// The address of the history request for `count` messages of `peer_id`.
    pub fn messages_url(&self, peer_id: i64, count: u32) -> (r: String)
        ensures
            r@ == history_url(self.token_view(), peer_id, count),
    {
        let mut r = String::from_str("https://api.vk.com/method");
        r.append("/messages.getHistory?access_token=");
        r.append(self.token.as_str());
        r.append("&peer_id=");
        push_int(&mut r, peer_id);
        r.append("&count=");
        push_int(&mut r, count as i64);
        r.append("&extended=1&v=");
        r.append("5.199");
        r
    }
}

/// Whether the answer to a send request reports success: it does unless it
/// carries an `error` object.
pub fn check_send_response(resp: &Json) -> (r: Result<(), VkError>)
    ensures
        r is Err <==> field(resp@, "error"@) is Object,
        r matches Err(e) ==> e == VkError::SendFailed,
{
    if resp.field_is_object("error") {
        Err(VkError::SendFailed)
    } else {
        Ok(())
    }
}


/// The conversation item carries a `chat_settings` object (a group chat).
pub open spec fn has_chat_settings(it: JsonV) -> bool {
    field(field(it, "conversation"@), "chat_settings"@) is Object
}

/// The item's title can be made without negating the smallest `i64`: its
/// peer id is another one, or its title comes from its chat settings.
pub open spec fn item_title_negatable(it: JsonV) -> bool {
    peer_id_of(it) == Some(i64::MIN) ==> has_chat_settings(it)
}

/// Every conversation item that reading the answer reaches (those up to the
/// first one without a peer id) has a title that can be made without overflow.
pub open spec fn peer_ids_negatable(resp: JsonV) -> bool {
    forall|i: int|
        0 <= i < array_or_empty(field(response_of(resp), "items"@)).len() && (forall|k: int|
            0 <= k < i ==> peer_id_of(array_or_empty(field(response_of(resp), "items"@))[k]) is Some)
            ==> item_title_negatable(
            #[trigger] array_or_empty(field(response_of(resp), "items"@))[i],
        )
}

/// No message item of the answer has the smallest `i64` as sender id.
pub open spec fn from_ids_negatable(resp: JsonV) -> bool {
    forall|i: int|
        0 <= i < array_or_empty(field(response_of(resp), "items"@)).len() ==> from_id_of(
            #[trigger] array_or_empty(field(response_of(resp), "items"@))[i],
        ) != i64::MIN
}

/// The list under `response.<key>` of an answer, or an empty one.
fn response_list<'a>(resp: &'a Json, key: &str, empty: &'a Vec<Json>) -> (r: &'a Vec<Json>)
    requires
        empty@.len() == 0,
    ensures
        json_seq_view(r@) == array_or_empty(field(response_of(resp@), key@)),
{
    proof {
        lemma_json_seq_view(empty@);
        assert(json_seq_view(empty@) =~= Seq::<JsonV>::empty());
    }
    match resp.get("response") {
        Some(r) => match r.get(key) {
            Some(Json::Array(v)) => v,
            _ => empty,
        },
        None => empty,
    }
}

/// The conversation that a list item stands for, or `None` without a peer id.
fn dialog_from_item(it: &Json, profiles: &Vec<Json>, groups: &Vec<Json>) -> (r: Option<Dialog>)
    requires
        item_title_negatable(it@),
    ensures
        match r {
            Some(d) => peer_id_of(it@) == Some(d.peer_id) && d.title@ == dialog_title(
                it@,
                json_seq_view(profiles@),
                json_seq_view(groups@),
                d.peer_id,
            ),
            None => peer_id_of(it@) is None,
        },
{
    let peer = match it.get("conversation") {
        Some(c) => match c.get("peer") {
            Some(p) => match p.get("id") {
                Some(x) => x.to_i64(),
                None => None,
            },
            None => None,
        },
        None => None,
    };
    match peer {
        Some(peer_id) => {
            let title = get_dialog_title(it, profiles, groups, peer_id);
            Some(Dialog { title, peer_id })
        },
        None => None,
    }
}

/// The conversations that a conversation-list answer names, in order.
pub fn dialogs_from_response(resp: &Json) -> (r: Result<Vec<Dialog>, VkError>)
    requires
        peer_ids_negatable(resp@),
    ensures
        match r {
            Ok(v) => dialogs_of(resp@) == Ok::<Seq<(Seq<char>, i64)>, VkError>(
                v@.map_values(|d: Dialog| (d.title@, d.peer_id)),
            ),
            Err(e) => dialogs_of(resp@) == Err::<Seq<(Seq<char>, i64)>, VkError>(e),
        },
{
    let items = match resp.get("response") {
        Some(r) => match r.get("items") {
            Some(Json::Array(v)) => v,
            _ => return Err(VkError::MissingItems),
        },
        None => return Err(VkError::MissingItems),
    };
    let empty_profiles: Vec<Json> = Vec::new();
    let empty_groups: Vec<Json> = Vec::new();
    let profiles = response_list(resp, "profiles", &empty_profiles);
    let groups = response_list(resp, "groups", &empty_groups);
    let ghost iv = json_seq_view(items@);
    proof {
        lemma_json_seq_view(items@);
    }
    let ghost pv = profiles_of(resp@);
    let ghost gv = groups_of(resp@);
    let ghost f = |it: JsonV|
        (dialog_title(it, pv, gv, peer_id_of(it)->0), peer_id_of(it)->0);
    let mut dialogs: Vec<Dialog> = Vec::new();
    let n = items.len();
    let mut i: usize = 0;
    while i < n
        invariant
            n == items@.len(),
            iv == json_seq_view(items@),
            iv.len() == n,
            forall|k: int| 0 <= k < n ==> #[trigger] iv[k] == items@[k]@,
            as_array(field(response_of(resp@), "items"@)) == Some(iv),
            json_seq_view(profiles@) == pv,
            json_seq_view(groups@) == gv,
            pv == profiles_of(resp@),
            gv == groups_of(resp@),
            peer_ids_negatable(resp@),
            f == (|it: JsonV| (dialog_title(it, pv, gv, peer_id_of(it)->0), peer_id_of(it)->0)),
            i <= n,
            dialogs@.len() == i,
            forall|k: int| 0 <= k < i ==> peer_id_of(#[trigger] iv[k]) is Some,
            forall|k: int| 0 <= k < i ==> dialog_view(#[trigger] dialogs@[k]) == f(iv[k]),
        decreases n - i,
    {
        let it = &items[i];
        assert(array_or_empty(field(response_of(resp@), "items"@)) == iv);
        assert(item_title_negatable(array_or_empty(field(response_of(resp@), "items"@))[i as int]));
        let d = match dialog_from_item(it, profiles, groups) {
            Some(d) => d,
            None => {
                assert(peer_id_of(iv[i as int]) is None);
                return Err(VkError::MissingPeerId);
            },
        };
        let ghost before = dialogs@;
        dialogs.push(d);
        assert(dialog_view(dialogs@[i as int]) == f(iv[i as int]));
        assert(forall|k: int| 0 <= k < i ==> dialogs@[k] == before[k]);
        i = i + 1;
    }
    proof {
        assert(!(exists|k: int| 0 <= k < iv.len() && peer_id_of(#[trigger] iv[k]) is None));
        assert(dialogs@.map_values(|d: Dialog| (d.title@, d.peer_id)) =~= iv.map_values(f));
    }
    Ok(dialogs)
}


/// The message that a history item stands for.
fn message_from_item(it: &Json, profiles: &Vec<Json>, groups: &Vec<Json>, user_id: i64) -> (r:
    Message)
    requires
        from_id_of(it@) != i64::MIN,
    ensures
        r@ == message_of(it@, json_seq_view(profiles@), json_seq_view(groups@), user_id),
{
    let from_id = match it.get("from_id") {
        Some(x) => match x.to_i64() {
            Some(v) => v,
            None => 0,
        },
        None => 0,
    };
    let text = String::from_str(str_field_or(it, "text", ""));
    let is_me = from_id == user_id;
    let (sender_name, owner) = if from_id > 0 {
        match find_record(profiles, from_id) {
            Some(profile) => (extract_name_from_profile(profile), profile.duplicate()),
            None => {
                let mut r = String::from_str("User ");
                push_int(&mut r, from_id);
                (r, Json::Null)
            },
        }
    } else if from_id < 0 {
        let abs_id = -from_id;
        match find_record(groups, abs_id) {
            Some(group) => (String::from_str(str_field_or(group, "name", "Group")), group.duplicate()),
            None => {
                let mut r = String::from_str("Group ");
                push_int(&mut r, abs_id);
                (r, Json::Null)
            },
        }
    } else {
        let mut r = String::from_str("id");
        push_int(&mut r, from_id);
        (r, Json::Null)
    };
    Message { is_me, owner, sender_name, text }
}

impl VkClient {
    /// The messages of a history answer, oldest first.
    pub fn messages_from_response(&self, resp: &Json) -> (r: Result<Vec<Message>, VkError>)
        requires
            from_ids_negatable(resp@),
        ensures
            match r {
                Ok(v) => messages_of(resp@, self.user_view()) == Ok::<Seq<MessageV>, VkError>(
                    v@.map_values(|m: Message| m@),
                ),
                Err(e) => messages_of(resp@, self.user_view()) == Err::<Seq<MessageV>, VkError>(e),
            },
    {
        let items = match resp.get("response") {
            Some(r) => match r.get("items") {
                Some(Json::Array(v)) => v,
                _ => return Err(VkError::MissingItems),
            },
            None => return Err(VkError::MissingItems),
        };
        let empty_profiles: Vec<Json> = Vec::new();
        let empty_groups: Vec<Json> = Vec::new();
        let profiles = response_list(resp, "profiles", &empty_profiles);
        let groups = response_list(resp, "groups", &empty_groups);
        let user_id = match self.user.get("id") {
            Some(x) => match x.to_i64() {
                Some(v) => v,
                None => 0,
            },
            None => 0,
        };
        let ghost iv = json_seq_view(items@);
        proof {
            lemma_json_seq_view(items@);
        }
        let ghost pv = profiles_of(resp@);
        let ghost gv = groups_of(resp@);
        let ghost f = |it: JsonV| message_of(it, pv, gv, user_id);
        let mut messages: Vec<Message> = Vec::new();
        let n = items.len();
        let mut j: usize = n;
        while j > 0
            invariant
                n == items@.len(),
                iv == json_seq_view(items@),
                iv.len() == n,
                forall|k: int| 0 <= k < n ==> #[trigger] iv[k] == items@[k]@,
                as_array(field(response_of(resp@), "items"@)) == Some(iv),
                json_seq_view(profiles@) == pv,
                json_seq_view(groups@) == gv,
                from_ids_negatable(resp@),
                f == (|it: JsonV| message_of(it, pv, gv, user_id)),
                j <= n,
                messages@.len() == n - j,
                forall|k: int| 0 <= k < n - j ==> #[trigger] messages@[k]@ == f(iv[n - 1 - k]),
            decreases j,
        {
            let it = &items[j - 1];
            assert(array_or_empty(field(response_of(resp@), "items"@)) == iv);
            assert(from_id_of(array_or_empty(field(response_of(resp@), "items"@))[j - 1]) != i64::MIN);
            let m = message_from_item(it, profiles, groups, user_id);
            messages.push(m);
            j = j - 1;
        }
        proof {
            assert(messages@.map_values(|m: Message| m@) =~= iv.map_values(f).reverse());
        }
        Ok(messages)
    }
}


/// Whether an item carries a `chat_settings` object.
fn item_has_chat_settings(it: &Json) -> (b: bool)
    ensures
        b == has_chat_settings(it@),
{
    match it.get("conversation") {
        Some(c) => c.field_is_object("chat_settings"),
        None => false,
    }
}

/// Whether a conversation-list answer can be read without overflow (`peer_ids_negatable`).
pub fn check_peer_ids(resp: &Json) -> (b: bool)
    ensures
        b == peer_ids_negatable(resp@),
{
    let empty: Vec<Json> = Vec::new();
    let items = response_list(resp, "items", &empty);
    let ghost iv = json_seq_view(items@);
    proof {
        lemma_json_seq_view(items@);
    }
    let n = items.len();
    let mut i: usize = 0;
    while i < n
        invariant
            n == items@.len(),
            iv == json_seq_view(items@),
            iv == array_or_empty(field(response_of(resp@), "items"@)),
            iv.len() == n,
            forall|k: int| 0 <= k < n ==> #[trigger] iv[k] == items@[k]@,
            i <= n,
            forall|k: int| 0 <= k < i ==> peer_id_of(#[trigger] iv[k]) is Some,
            forall|k: int| 0 <= k < i ==> item_title_negatable(#[trigger] iv[k]),
        decreases n - i,
    {
        let peer = match items[i].get("conversation") {
            Some(c) => match c.get("peer") {
                Some(p) => match p.get("id") {
                    Some(x) => x.to_i64(),
                    None => None,
                },
                None => None,
            },
            None => None,
        };
        if peer.is_none() {
            assert(peer_id_of(iv[i as int]) is None);
            assert forall|j: int|
                0 <= j < iv.len() && (forall|k: int| 0 <= k < j ==> peer_id_of(iv[k]) is Some)
                    implies item_title_negatable(#[trigger] iv[j]) by {
                if j > i {
                    assert(peer_id_of(iv[i as int]) is Some);
                }
            }
            return true;
        }
        if peer == Some(i64::MIN) && !item_has_chat_settings(&items[i]) {
            assert(!item_title_negatable(iv[i as int]));
            return false;
        }
        i = i + 1;
    }
    true
}

/// Whether a history answer can be read without overflow (`from_ids_negatable`).
pub fn check_from_ids(resp: &Json) -> (b: bool)
    ensures
        b == from_ids_negatable(resp@),
{
    let empty: Vec<Json> = Vec::new();
    let items = response_list(resp, "items", &empty);
    let ghost iv = json_seq_view(items@);
    proof {
        lemma_json_seq_view(items@);
    }
    let n = items.len();
    let mut i: usize = 0;
    while i < n
        invariant
            n == items@.len(),
            iv == json_seq_view(items@),
            iv == array_or_empty(field(response_of(resp@), "items"@)),
            iv.len() == n,
            forall|k: int| 0 <= k < n ==> #[trigger] iv[k] == items@[k]@,
            i <= n,
            forall|k: int| 0 <= k < i ==> from_id_of(#[trigger] iv[k]) != i64::MIN,
        decreases n - i,
    {
        let from_id = match items[i].get("from_id") {
            Some(x) => match x.to_i64() {
                Some(v) => v,
                None => 0,
            },
            None => 0,
        };
        if from_id == i64::MIN {
            assert(from_id_of(iv[i as int]) == i64::MIN);
            return false;
        }
        i = i + 1;
    }
    true
}


/// A history answer yields one message per item, oldest first: the answer's
/// first (newest) item is shown last.
pub proof fn lemma_history_newest_last(resp: JsonV, user: JsonV)
    requires
        as_array(field(response_of(resp), "items"@)) matches Some(items) && items.len() > 0,
    ensures
        messages_of(resp, user) matches Ok(ms) && ms.len() == array_or_empty(
            field(response_of(resp), "items"@),
        ).len() && ms.last() == message_of(
            array_or_empty(field(response_of(resp), "items"@))[0],
            profiles_of(resp),
            groups_of(resp),
            user_id_of(user),
        ),
{
}

/// A conversation list answer yields one entry per item, in the answer's order.
pub proof fn lemma_dialogs_one_per_item(resp: JsonV)
    requires
        dialogs_of(resp) is Ok,
    ensures
        dialogs_of(resp)->Ok_0.len() == array_or_empty(field(response_of(resp), "items"@)).len(),
        forall|i: int|
            0 <= i < dialogs_of(resp)->Ok_0.len() ==> Some(
                (#[trigger] dialogs_of(resp)->Ok_0[i]).1,
            ) == peer_id_of(array_or_empty(field(response_of(resp), "items"@))[i]),
{
}

} // verus!
