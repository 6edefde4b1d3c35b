//! A stand-in for the messaging service that serves generated chats and
//! messages, for trying the interface without an account.
use vstd::prelude::*;
use crate::client::{Dialog, Message, MessageV};
use crate::json::{Json, JsonV};
use crate::text::{int_digits, push_int};

verus! {

/// Number of placeholder texts.
pub const PLACEHOLDER_COUNT: usize = 10;

/// The placeholder texts that generated messages carry.
pub open spec fn placeholder_text(i: int) -> Seq<char> {
    if i == 0 {
        "Привет"@
    } else if i == 1 {
        "Пока"@
    } else if i == 2 {
        "Как дела"@
    } else if i == 3 {
        "Пошел посру"@
    } else if i == 4 {
        "Прикинь"@
    } else if i == 5 {
        "Есть темка"@
    } else if i == 6 {
        "Удачи"@
    } else if i == 7 {
        "Что это"@
    } else if i == 8 {
        "Давай вместе"@
    } else {
        "Ну не знаю"@
    }
}

/// Placeholder text number `i`.
pub fn placeholder(i: usize) -> (r: String)
    requires
        i < PLACEHOLDER_COUNT,
    ensures
        r@ == placeholder_text(i as int),
{
    if i == 0 {
        String::from_str("Привет")
    } else if i == 1 {
        String::from_str("Пока")
    } else if i == 2 {
        String::from_str("Как дела")
    } else if i == 3 {
        String::from_str("Пошел посру")
    } else if i == 4 {
        String::from_str("Прикинь")
    } else if i == 5 {
        String::from_str("Есть темка")
    } else if i == 6 {
        String::from_str("Удачи")
    } else if i == 7 {
        String::from_str("Что это")
    } else if i == 8 {
        String::from_str("Давай вместе")
    } else {
        String::from_str("Ну не знаю")
    }
}

/// `rand::thread_rng().gen_range(0..n)`: an index below `n`, drawn at random.
#[verifier::external_body]
fn random_index(n: usize) -> (r: usize)
    requires
        n > 0,
    ensures
        r < n,
{
    rand::Rng::gen_range(&mut rand::thread_rng(), 0..n)
}

/// A generated message with placeholder text number `i`.
pub open spec fn generated_message(i: int) -> MessageV {
    MessageV {
        is_me: false,
        owner: JsonV::Object(Seq::empty()),
        sender_name: "Kolyan"@,
        text: placeholder_text(i),
    }
}

/// A message as the stand-in generates them, with some placeholder text.
pub open spec fn is_generated(m: MessageV) -> bool {
    exists|i: int| 0 <= i < PLACEHOLDER_COUNT && m == generated_message(i)
}

/// The messages for a list of placeholder choices, in reverse order of the choices.
pub fn messages_from_choices(choices: &Vec<usize>) -> (r: Vec<Message>)
    requires
        forall|k: int| 0 <= k < choices@.len() ==> choices@[k] < PLACEHOLDER_COUNT,
    ensures
        r@.len() == choices@.len(),
        forall|k: int|
            0 <= k < r@.len() ==> #[trigger] r@[k]@ == generated_message(
                choices@[choices@.len() - 1 - k] as int,
            ),
{
    let n = choices.len();
    let mut out: Vec<Message> = Vec::new();
    let mut j: usize = n;
    while j > 0
        invariant
            n == choices@.len(),
            forall|k: int| 0 <= k < choices@.len() ==> choices@[k] < PLACEHOLDER_COUNT,
            j <= n,
            out@.len() == n - j,
            forall|k: int|
                0 <= k < n - j ==> #[trigger] out@[k]@ == generated_message(
                    choices@[n - 1 - k] as int,
                ),
        decreases j,
    {
        let owner = Json::Object(Vec::new());
        assert(owner@ == JsonV::Object(Seq::empty())) by {
            assert(crate::json::entries_view(Seq::<(String, Json)>::empty()) =~= Seq::empty());
        }
        let m = Message {
            is_me: false,
            owner,
            sender_name: String::from_str("Kolyan"),
            text: placeholder(choices[j - 1]),
        };
        out.push(m);
        j = j - 1;
    }
    out
}

/// `count - 1` messages with randomly chosen placeholder texts.
pub fn generate_messages(count: u32) -> (r: Vec<Message>)
    ensures
        r@.len() == if count >= 1 {
            count - 1
        } else {
            0
        },
        forall|k: int| 0 <= k < r@.len() ==> is_generated(#[trigger] r@[k]@),
{
    let mut choices: Vec<usize> = Vec::new();
    let mut i: u32 = 1;
    while i < count
        invariant
            1 <= i,
            i <= count || i == 1,
            choices@.len() == i - 1,
            forall|k: int| 0 <= k < choices@.len() ==> choices@[k] < PLACEHOLDER_COUNT,
        decreases count - i,
    {
        choices.push(random_index(PLACEHOLDER_COUNT));
        i = i + 1;
    }
    let r = messages_from_choices(&choices);
    assert forall|k: int| 0 <= k < r@.len() implies is_generated(#[trigger] r@[k]@) by {
        let c = choices@[choices@.len() - 1 - k] as int;
        assert(r@[k]@ == generated_message(c));
    }
    r
}

/// The title of generated chat number `i`.
pub open spec fn test_chat_title(i: int) -> Seq<char> {
    "Test Chat "@ + int_digits(i)
}

/// The service stand-in: a number of chats and a fixed list of messages.
pub struct TestClient {
    dialog_count: u16,
    user: Json,
    messages: Vec<Message>,
}

impl TestClient {
    /// A stand-in with 40 chats and 399 generated messages; the token is ignored.
    pub fn new(_token: String) -> (r: TestClient)
        ensures
            r.dialog_count_view() == 40,
            r.user_view() == JsonV::Object(Seq::empty()),
            r.messages_view().len() == 399,
            forall|k: int| 0 <= k < 399 ==> is_generated(#[trigger] r.messages_view()[k]),
    {
        let user = Json::Object(Vec::new());
        assert(user@ == JsonV::Object(Seq::empty())) by {
            assert(crate::json::entries_view(Seq::<(String, Json)>::empty()) =~= Seq::empty());
        }
        let messages = generate_messages(400);
        let r = TestClient { dialog_count: 40, user, messages };
        assert forall|k: int| 0 <= k < 399 implies is_generated(#[trigger] r.messages_view()[k]) by {
            assert(r.messages_view()[k] == r.messages@[k]@);
        }
        r
    }

    /// The number of chats plus one.
    pub closed spec fn dialog_count_view(&self) -> u16 {
        self.dialog_count
    }

    /// The user record.
    pub closed spec fn user_view(&self) -> JsonV {
        self.user@
    }

    /// The stored messages.
    pub closed spec fn messages_view(&self) -> Seq<MessageV> {
        self.messages@.map_values(|m: Message| m@)
    }

    /// The user record.
    pub fn get_user(&self) -> (r: &Json)
        ensures
            r@ == self.user_view(),
    {
        &self.user
    }

    /// Chats `Test Chat 1` up to `Test Chat {dialog_count - 1}`, all with peer 0.
    pub fn get_dialogs(&self) -> (r: Vec<Dialog>)
        ensures
            r@.len() == if self.dialog_count_view() >= 1 {
                self.dialog_count_view() - 1
            } else {
                0
            },
            forall|k: int|
                0 <= k < r@.len() ==> #[trigger] r@[k].title@ == test_chat_title(k + 1)
                    && r@[k].peer_id == 0,
    {
        let mut dialogs: Vec<Dialog> = Vec::new();
        let mut i: u16 = 1;
        while i < self.dialog_count
            invariant
                1 <= i,
                i <= self.dialog_count || i == 1,
                dialogs@.len() == i - 1,
                forall|k: int|
                    0 <= k < dialogs@.len() ==> #[trigger] dialogs@[k].title@ == test_chat_title(
                        k + 1,
                    ) && dialogs@[k].peer_id == 0,
            decreases self.dialog_count - i,
        {
            let mut title = String::from_str("Test Chat ");
            push_int(&mut title, i as i64);
            dialogs.push(Dialog { peer_id: 0, title });
            i = i + 1;
        }
        dialogs
    }

    /// Copies of the stored messages.
    pub fn get_messages(&self) -> (r: Vec<Message>)
        ensures
            r@.map_values(|m: Message| m@) == self.messages_view(),
    {
        let mut out: Vec<Message> = Vec::new();
        let mut i: usize = 0;
        while i < self.messages.len()
            invariant
                i <= self.messages@.len(),
                out@.len() == i,
                forall|k: int| 0 <= k < i ==> #[trigger] out@[k]@ == self.messages@[k]@,
            decreases self.messages@.len() - i,
        {
            out.push(self.messages[i].duplicate());
            i = i + 1;
        }
        assert(out@.map_values(|m: Message| m@) =~= self.messages_view());
        out
    }
}

} // verus!
