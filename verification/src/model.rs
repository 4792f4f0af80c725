//! The messages that users exchange and the requests that create them.

use vstd::prelude::*;

verus! {

/// Mathematical value of a stored [`Message`].
pub struct MessageView {
    pub message_id: int,
    pub sender_id: int,
    pub receiver_id: int,
    pub content: Seq<char>,
    pub sent_at: int,
}

impl MessageView {
    /// The message travels between `a` and `b`, in either direction.
    pub open spec fn between(self, a: int, b: int) -> bool {
        (self.sender_id == a && self.receiver_id == b) || (self.sender_id == b
            && self.receiver_id == a)
    }

    /// `user` is the sender or the receiver.
    pub open spec fn involves(self, user: int) -> bool {
        self.sender_id == user || self.receiver_id == user
    }

    /// The other end of a message that involves `user`. For a message that a
    /// user sent to themselves this is the user again.
    pub open spec fn peer_of(self, user: int) -> int {
        if self.sender_id == user {
            self.receiver_id
        } else {
            self.sender_id
        }
    }
}

/// A stored message. `message_id` is assigned by the store and is the sole
/// ordering key; `sent_at` is advisory.
#[derive(Debug, PartialEq, Eq)]
pub struct Message {
    pub message_id: usize,
    pub sender_id: usize,
    pub receiver_id: usize,
    pub content: String,
    pub sent_at: u64,
}

impl View for Message {
    type V = MessageView;

    open spec fn view(&self) -> MessageView {
        MessageView {
            message_id: self.message_id as int,
            sender_id: self.sender_id as int,
            receiver_id: self.receiver_id as int,
            content: self.content@,
            sent_at: self.sent_at as int,
        }
    }
}

impl Clone for Message {
    fn clone(&self) -> (r: Self)
        ensures
            r == *self,
    {
        Message {
            message_id: self.message_id,
            sender_id: self.sender_id,
            receiver_id: self.receiver_id,
            content: self.content.clone(),
            sent_at: self.sent_at,
        }
    }
}

impl Message {
    /// The message of a stored row, whose integer columns are signed. There
    /// is none where an identifier or the timestamp is negative, or where an
    /// identifier does not fit the machine.
    pub fn from_columns(
        message_id: i64,
        sender_id: i64,
        receiver_id: i64,
        content: String,
        sent_at: i64,
    ) -> (r: Option<Message>)
        ensures
            r is Some <==> 0 <= message_id <= usize::MAX && 0 <= sender_id <= usize::MAX && 0
                <= receiver_id <= usize::MAX && 0 <= sent_at,
            r matches Some(m) ==> m@ == (MessageView {
                message_id: message_id as int,
                sender_id: sender_id as int,
                receiver_id: receiver_id as int,
                content: content@,
                sent_at: sent_at as int,
            }),
    {
        let message_id = identifier(message_id);
        let sender_id = identifier(sender_id);
        let receiver_id = identifier(receiver_id);
        match (message_id, sender_id, receiver_id) {
            (Some(message_id), Some(sender_id), Some(receiver_id)) => if sent_at >= 0 {
                Some(Message { message_id, sender_id, receiver_id, content, sent_at: sent_at as u64 })
            } else {
                None
            },
            _ => None,
        }
    }
}

/// The identifier that a signed column holds, if it holds one.
pub fn identifier(column: i64) -> (r: Option<usize>)
    ensures
        r is Some <==> 0 <= column <= usize::MAX,
        r matches Some(id) ==> id == column,
{
    if column >= 0 && column as u64 <= usize::MAX as u64 {
        Some(column as usize)
    } else {
        None
    }
}

/// The views of a sequence of messages, in the same order.
pub open spec fn views(messages: Seq<Message>) -> Seq<MessageView> {
    messages.map_values(|m: Message| m@)
}

/// Mathematical value of a [`MessageInput`].
pub struct MessageInputView {
    pub sender_id: int,
    pub receiver_id: int,
    pub content: Seq<char>,
}

/// A request to store a new message. The sender is the authenticated user of
/// the session that received the request, never a value sent by the client.
#[derive(Debug, PartialEq, Eq)]
pub struct MessageInput {
    pub sender_id: usize,
    pub receiver_id: usize,
    pub content: String,
}

impl View for MessageInput {
    type V = MessageInputView;

    open spec fn view(&self) -> MessageInputView {
        MessageInputView {
            sender_id: self.sender_id as int,
            receiver_id: self.receiver_id as int,
            content: self.content@,
        }
    }
}

/// A request to register a user, or to replace a user's record. Whoever
/// stores it puts the hash of the password in place of the password first.
#[derive(Debug, PartialEq, Eq)]
pub struct UserInput {
    pub username: String,
    pub email: String,
    pub password: String,
}

/// A request to make an offer on an order.
#[derive(Debug, Clone, Copy, PartialEq, Eq, Structural)]
pub struct OfferInput {
    pub order_id: usize,
}

/// A request to store a review.
#[derive(Debug, PartialEq, Eq)]
pub struct ReviewInput {
    pub user_reviewed: usize,
    pub user_reviewing: usize,
    pub rating: u8,
    pub content: String,
}

} // verus!
