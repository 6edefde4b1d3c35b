use vk_rust_tui::json::Json;
use vk_rust_tui::vk_api::{
    build_api_url, check_peer_ids, check_send_response, dialogs_from_response, extract_name_from_profile,
    find_record, get_dialog_title, VkClient, VkError,
};

fn s(x: &str) -> Json {
    Json::Str(x.to_string())
}

fn obj(entries: Vec<(&str, Json)>) -> Json {
    Json::Object(entries.into_iter().map(|(k, v)| (k.to_string(), v)).collect())
}

fn num(i: i64) -> Json {
    if i >= 0 {
        Json::PosInt(i as u64)
    } else {
        Json::NegInt(i)
    }
}

fn profile(id: i64, first: &str, last: &str) -> Json {
    obj(vec![("id", num(id)), ("first_name", s(first)), ("last_name", s(last))])
}

fn group(id: i64, name: &str) -> Json {
    obj(vec![("id", num(id)), ("name", s(name))])
}

fn client() -> VkClient {
    let resp = obj(vec![("response", Json::Array(vec![profile(7, "Me", "Self")]))]);
    VkClient::from_user_response("TOKEN".to_string(), &resp).unwrap()
}

#[test]
fn user_response() {
    let c = client();
    assert_eq!(c.token(), "TOKEN");
    match c.get_user().get("id") {
        Some(Json::PosInt(7)) => {}
        other => panic!("unexpected {:?}", other),
    }
    let err = obj(vec![("error", obj(vec![("error_code", num(5))]))]);
    assert_eq!(VkClient::from_user_response("t".to_string(), &err).err(), Some(VkError::UserData));
    let no_users = obj(vec![("response", Json::Array(vec![]))]);
    let c2 = VkClient::from_user_response("t".to_string(), &no_users).unwrap();
    assert!(matches!(c2.get_user(), Json::Null));
    assert_eq!(
        VkClient::user_request_url("abc"),
        "https://api.vk.com/method/users.get?access_token=abc&v=5.199"
    );
}

#[test]
fn request_addresses() {
    let c = client();
    assert_eq!(
        c.dialogs_url(),
        "https://api.vk.com/method/messages.getConversations?access_token=TOKEN&count=40&extended=1&v=5.199"
    );
    assert_eq!(
        c.messages_url(-15, 20),
        "https://api.vk.com/method/messages.getHistory?access_token=TOKEN&peer_id=-15&count=20&extended=1&v=5.199"
    );
    assert_eq!(
        c.send_message_url(2000000001, "hi there!"),
        "https://api.vk.com/method/messages.send?access_token=TOKEN&peer_id=2000000001&message=hi%20there%21&random_id=0"
    );
    assert_eq!(
        c.send_message_url(5, "я~"),
        "https://api.vk.com/method/messages.send?access_token=TOKEN&peer_id=5&message=%D1%8F~&random_id=0"
    );
    let params = [("a", "1".to_string()), ("b", "2".to_string())];
    assert_eq!(build_api_url("m.x", &params), "https://api.vk.com/method/m.x?a=1&b=2&v=5.199");
}

#[test]
fn send_answer() {
    assert_eq!(check_send_response(&obj(vec![("response", num(1))])), Ok(()));
    assert_eq!(
        check_send_response(&obj(vec![("error", obj(vec![]))])),
        Err(VkError::SendFailed)
    );
    assert_eq!(check_send_response(&obj(vec![("error", s("x"))])), Ok(()));
    assert_eq!(VkError::SendFailed.message(), "VK API: failed to send message");
}

#[test]
fn names_and_titles() {
    assert_eq!(extract_name_from_profile(&profile(1, "Ivan", "Petrov")), "Ivan Petrov");
    assert_eq!(extract_name_from_profile(&obj(vec![("first_name", s("Solo"))])), "Solo");
    assert_eq!(extract_name_from_profile(&Json::Null), "");
    let profiles = vec![profile(1, "A", "B"), profile(2, "C", "D")];
    let groups = vec![group(3, "Club")];
    assert!(find_record(&profiles, 2).is_some());
    assert!(find_record(&profiles, 9).is_none());
    let plain = obj(vec![("conversation", obj(vec![]))]);
    assert_eq!(get_dialog_title(&plain, &profiles, &groups, 2), "C D");
    assert_eq!(get_dialog_title(&plain, &profiles, &groups, 9), "User 9");
    assert_eq!(get_dialog_title(&plain, &profiles, &groups, -3), "Club");
    assert_eq!(get_dialog_title(&plain, &profiles, &groups, -4), "Group 4");
    assert_eq!(get_dialog_title(&plain, &profiles, &groups, 2000000005), "Unknown Chat");
    let chat = obj(vec![("conversation", obj(vec![("chat_settings", obj(vec![("title", s("Team"))]))]))]);
    assert_eq!(get_dialog_title(&chat, &profiles, &groups, 2000000005), "Team");
    let untitled = obj(vec![("conversation", obj(vec![("chat_settings", obj(vec![]))]))]);
    assert_eq!(get_dialog_title(&untitled, &profiles, &groups, 1), "Untitled Chat");
}

fn conv(peer: i64) -> Json {
    obj(vec![("conversation", obj(vec![("peer", obj(vec![("id", num(peer))]))]))])
}

#[test]
fn conversation_list() {
    let resp = obj(vec![(
        "response",
        obj(vec![
            ("items", Json::Array(vec![conv(1), conv(-3), conv(4)])),
            ("profiles", Json::Array(vec![profile(1, "A", "B")])),
            ("groups", Json::Array(vec![group(3, "Club")])),
        ]),
    )]);
    let d = dialogs_from_response(&resp).unwrap();
    let got: Vec<(String, i64)> = d.iter().map(|x| (x.title.clone(), x.peer_id)).collect();
    assert_eq!(
        got,
        vec![("A B".to_string(), 1), ("Club".to_string(), -3), ("User 4".to_string(), 4)]
    );
    let missing = obj(vec![("response", obj(vec![]))]);
    assert_eq!(dialogs_from_response(&missing).err(), Some(VkError::MissingItems));
    let bad = obj(vec![("response", obj(vec![("items", Json::Array(vec![conv(1), obj(vec![])]))]))]);
    assert_eq!(dialogs_from_response(&bad).err(), Some(VkError::MissingPeerId));
}

fn item(from: i64, text: &str) -> Json {
    obj(vec![("from_id", num(from)), ("text", s(text))])
}

#[test]
fn message_history_oldest_first() {
    let c = client();
    let resp = obj(vec![(
        "response",
        obj(vec![
            ("items", Json::Array(vec![item(7, "newest"), item(1, "middle"), item(-3, "g"), item(-4, "x"), item(0, "z"), item(9, "oldest")])),
            ("profiles", Json::Array(vec![profile(1, "A", "B"), profile(7, "Me", "Self")])),
            ("groups", Json::Array(vec![group(3, "Club")])),
        ]),
    )]);
    let m = c.messages_from_response(&resp).unwrap();
    let got: Vec<(bool, String, String)> =
        m.iter().map(|x| (x.is_me, x.sender_name.clone(), x.text.clone())).collect();
    assert_eq!(
        got,
        vec![
            (false, "User 9".to_string(), "oldest".to_string()),
            (false, "id0".to_string(), "z".to_string()),
            (false, "Group 4".to_string(), "x".to_string()),
            (false, "Club".to_string(), "g".to_string()),
            (false, "A B".to_string(), "middle".to_string()),
            (true, "Me Self".to_string(), "newest".to_string()),
        ]
    );
    assert!(matches!(m[0].owner, Json::Null));
    assert!(matches!(m[3].owner, Json::Object(_)));
    let missing = obj(vec![]);
    assert_eq!(c.messages_from_response(&missing).err(), Some(VkError::MissingItems));
}

#[test]
fn smallest_peer_id_with_chat_settings() {
    let chat = obj(vec![(
        "conversation",
        obj(vec![
            ("chat_settings", obj(vec![("title", s("Edge"))])),
            ("peer", obj(vec![("id", num(i64::MIN))])),
        ]),
    )]);
    assert_eq!(get_dialog_title(&chat, &vec![], &vec![], i64::MIN), "Edge");
    let resp = obj(vec![("response", obj(vec![("items", Json::Array(vec![chat]))]))]);
    assert!(check_peer_ids(&resp));
    let d = dialogs_from_response(&resp).unwrap();
    assert_eq!(d[0].title, "Edge");
    assert_eq!(d[0].peer_id, i64::MIN);
}

#[test]
fn missing_peer_before_smallest_peer_id() {
    let resp = obj(vec![(
        "response",
        obj(vec![("items", Json::Array(vec![conv(1), obj(vec![]), conv(i64::MIN)]))]),
    )]);
    assert!(check_peer_ids(&resp));
    assert_eq!(dialogs_from_response(&resp).err(), Some(VkError::MissingPeerId));
    let bad = obj(vec![("response", obj(vec![("items", Json::Array(vec![conv(1), conv(i64::MIN)]))]))]);
    assert!(!check_peer_ids(&bad));
}
