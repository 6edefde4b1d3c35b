use vk_rust_tui::test_client::{generate_messages, messages_from_choices, placeholder, TestClient};

#[test]
fn generated_chats() {
    let c = TestClient::new(String::new());
    let d = c.get_dialogs();
    assert_eq!(d.len(), 39);
    assert_eq!(d[0].title, "Test Chat 1");
    assert_eq!(d[38].title, "Test Chat 39");
    assert!(d.iter().all(|x| x.peer_id == 0));
    assert_eq!(c.get_messages().len(), 399);
}

#[test]
fn generated_messages() {
    assert_eq!(generate_messages(0).len(), 0);
    assert_eq!(generate_messages(1).len(), 0);
    let m = generate_messages(30);
    assert_eq!(m.len(), 29);
    let texts: Vec<String> = (0..10).map(placeholder).collect();
    assert!(m.iter().all(|x| !x.is_me && x.sender_name == "Kolyan" && texts.contains(&x.text)));
    let fixed = messages_from_choices(&vec![0, 9]);
    assert_eq!(fixed[0].text, "Ну не знаю");
    assert_eq!(fixed[1].text, "Привет");
}
