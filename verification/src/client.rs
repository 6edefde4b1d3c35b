//! What a messaging service hands the interface: conversations and messages.
use vstd::prelude::*;
use crate::json::{Json, JsonV};

verus! {

/// A conversation as listed on the left.
#[derive(Debug)]
pub struct Dialog {
    pub title: String,
    pub peer_id: i64,
}

/// One message of a conversation.
#[derive(Debug, Clone)]
pub struct Message {
    pub is_me: bool,
    /// The profile or community record of the sender, `null` when unknown.
    pub owner: Json,
    pub sender_name: String,
    pub text: String,
}

/// The mathematical form of a message.
pub struct MessageV {
    pub is_me: bool,
    pub owner: JsonV,
    pub sender_name: Seq<char>,
    pub text: Seq<char>,
}

impl View for Message {
    type V = MessageV;

    open spec fn view(&self) -> MessageV {
        MessageV {
            is_me: self.is_me,
            owner: self.owner@,
            sender_name: self.sender_name@,
            text: self.text@,
        }
    }
}

/// The mathematical form of a conversation entry: title and peer.
pub open spec fn dialog_view(d: Dialog) -> (Seq<char>, i64) {
    (d.title@, d.peer_id)
}

impl Message {
    /// A copy of the message.
    pub fn duplicate(&self) -> (r: Message)
        ensures
            r@ == self@,
    {
        Message {
            is_me: self.is_me,
            owner: self.owner.duplicate(),
            sender_name: self.sender_name.clone(),
            text: self.text.clone(),
        }
    }
}

} // verus!
