//! The wire format: the JSON objects that travel over a session's connection
//! and over the notification channel.
//!
//! A stored message travels as an object with the fields `message_id`,
//! `sender_id`, `receiver_id`, `content` and `sent_at`. A request to create a
//! message carries `receiver_id` and `content` only: the sender is the
//! authenticated user of the session, never a value sent by the client.

use crate::json::{
    entry_views, parse_object, parsed_object, render_object, rendered_object, JsonEntry,
    JsonEntryView, JsonField, JsonFieldView,
};
use crate::model::{Message, MessageInput, MessageInputView, MessageView};
use vstd::prelude::*;

verus! {

/// The field stored under `key`: that of the first entry with this key.
pub open spec fn field_of(entries: Seq<JsonEntryView>, key: Seq<char>) -> Option<JsonFieldView>
    decreases entries.len(),
{
    if entries.len() == 0 {
        None
    } else if entries.first().key == key {
        Some(entries.first().field)
    } else {
        field_of(entries.drop_first(), key)
    }
}

/// The identifier stored under `key`: an integer that fits a `usize`.
pub open spec fn id_field(entries: Seq<JsonEntryView>, key: Seq<char>) -> Option<int> {
    match field_of(entries, key) {
        Some(JsonFieldView::Number(Some(n))) => if n <= usize::MAX {
            Some(n)
        } else {
            None
        },
        _ => None,
    }
}

/// The integer stored under `key`.
pub open spec fn unsigned_field(entries: Seq<JsonEntryView>, key: Seq<char>) -> Option<int> {
    match field_of(entries, key) {
        Some(JsonFieldView::Number(Some(n))) => Some(n),
        _ => None,
    }
}

/// The string stored under `key`.
pub open spec fn text_field(entries: Seq<JsonEntryView>, key: Seq<char>) -> Option<Seq<char>> {
    match field_of(entries, key) {
        Some(JsonFieldView::Text(s)) => Some(s),
        _ => None,
    }
}

/// The request that an object stands for when `sender` sent it: it needs a
/// receiver and a content. Other fields are not looked at, a `sender_id`
/// among them.
pub open spec fn request_of(entries: Seq<JsonEntryView>, sender: int) -> Option<
    MessageInputView,
> {
    match (id_field(entries, "receiver_id"@), text_field(entries, "content"@)) {
        (Some(receiver_id), Some(content)) => Some(
            MessageInputView { sender_id: sender, receiver_id, content },
        ),
        _ => None,
    }
}

/// The stored message that an object stands for: it needs all five fields.
pub open spec fn message_of(entries: Seq<JsonEntryView>) -> Option<MessageView> {
    match (
        id_field(entries, "message_id"@),
        id_field(entries, "sender_id"@),
        id_field(entries, "receiver_id"@),
        text_field(entries, "content"@),
        unsigned_field(entries, "sent_at"@),
    ) {
        (Some(message_id), Some(sender_id), Some(receiver_id), Some(content), Some(sent_at)) => Some(
            MessageView { message_id, sender_id, receiver_id, content, sent_at },
        ),
        _ => None,
    }
}

/// The object that stands for a stored message.
pub open spec fn entries_of(m: MessageView) -> Seq<JsonEntryView> {
    seq![
        JsonEntryView { key: "message_id"@, field: JsonFieldView::Number(Some(m.message_id)) },
        JsonEntryView { key: "sender_id"@, field: JsonFieldView::Number(Some(m.sender_id)) },
        JsonEntryView { key: "receiver_id"@, field: JsonFieldView::Number(Some(m.receiver_id)) },
        JsonEntryView { key: "content"@, field: JsonFieldView::Text(m.content) },
        JsonEntryView { key: "sent_at"@, field: JsonFieldView::Number(Some(m.sent_at)) },
    ]
}

/// The request that the text of a frame stands for when `sender` sent it.
pub open spec fn decoded_request(text: Seq<char>, sender: int) -> Option<MessageInputView> {
    match parsed_object(text) {
        Some(entries) => request_of(entries, sender),
        None => None,
    }
}

/// The stored message that a text stands for.
pub open spec fn decoded_message(text: Seq<char>) -> Option<MessageView> {
    match parsed_object(text) {
        Some(entries) => message_of(entries),
        None => None,
    }
}

/// The text that a stored message travels as.
pub open spec fn encoded_message(m: MessageView) -> Option<Seq<char>> {
    rendered_object(entries_of(m))
}

/// A stored message reads back from the object that stands for it.
pub proof fn lemma_message_reads_back(m: Message)
    ensures
        message_of(entries_of(m@)) == Some(m@),
{
    reveal_strlit("message_id");
    reveal_strlit("sender_id");
    reveal_strlit("receiver_id");
    reveal_strlit("content");
    reveal_strlit("sent_at");
    reveal_with_fuel(field_of, 6);
    let entries = entries_of(m@);
    let e1 = entries.drop_first();
    let e2 = e1.drop_first();
    let e3 = e2.drop_first();
    let e4 = e3.drop_first();
    assert(e1.first() == entries[1] && e2.first() == entries[2] && e3.first() == entries[3]
        && e4.first() == entries[4] && e4.drop_first().len() == 0);
    assert("message_id"@.len() == 10 && "sender_id"@.len() == 9 && "receiver_id"@.len() == 11
        && "content"@.len() == 7 && "sent_at"@.len() == 7);
    assert("content"@[0] != "sent_at"@[0]);
    assert(field_of(entries, "message_id"@) == Some(JsonFieldView::Number(Some(m@.message_id))));
    assert(field_of(entries, "sender_id"@) == Some(JsonFieldView::Number(Some(m@.sender_id))));
    assert(field_of(entries, "receiver_id"@) == Some(
        JsonFieldView::Number(Some(m@.receiver_id)),
    ));
    assert(field_of(entries, "content"@) == Some(JsonFieldView::Text(m@.content)));
    assert(field_of(entries, "sent_at"@) == Some(JsonFieldView::Number(Some(m@.sent_at))));
}

fn find_field<'a>(entries: &'a Vec<JsonEntry>, key: &str) -> (r: Option<&'a JsonField>)
    ensures
        match r {
            Some(field) => field_of(entry_views(entries@), key@) == Some(field@),
            None => field_of(entry_views(entries@), key@) is None,
        },
{
    let wanted = key.to_owned();
    let ghost all = entry_views(entries@);
    let mut i: usize = 0;
    assert(all.skip(0) =~= all);
    while i < entries.len()
        invariant
            i <= entries.len(),
            all == entry_views(entries@),
            wanted@ == key@,
            field_of(all, key@) == field_of(all.skip(i as int), key@),
        decreases entries.len() - i,
    {
        assert(all.skip(i as int).first() == entries[i as int]@);
        assert(all.skip(i as int).drop_first() =~= all.skip(i + 1));
        if entries[i].key == wanted {
            return Some(&entries[i].field);
        }
        i += 1;
    }
    None
}

fn find_id(entries: &Vec<JsonEntry>, key: &str) -> (r: Option<usize>)
    ensures
        match r {
            Some(id) => id_field(entry_views(entries@), key@) == Some(id as int),
            None => id_field(entry_views(entries@), key@) is None,
        },
{
    match find_field(entries, key) {
        Some(JsonField::Number(Some(n))) => if *n <= usize::MAX as u64 {
            Some(*n as usize)
        } else {
            None
        },
        _ => None,
    }
}

fn find_unsigned(entries: &Vec<JsonEntry>, key: &str) -> (r: Option<u64>)
    ensures
        match r {
            Some(n) => unsigned_field(entry_views(entries@), key@) == Some(n as int),
            None => unsigned_field(entry_views(entries@), key@) is None,
        },
{
    match find_field(entries, key) {
        Some(JsonField::Number(Some(n))) => Some(*n),
        _ => None,
    }
}

fn find_text(entries: &Vec<JsonEntry>, key: &str) -> (r: Option<String>)
    ensures
        match r {
            Some(s) => text_field(entry_views(entries@), key@) == Some(s@),
            None => text_field(entry_views(entries@), key@) is None,
        },
{
    match find_field(entries, key) {
        Some(JsonField::Text(s)) => Some(s.clone()),
        _ => None,
    }
}

/// Reads a request to create a message out of the entries of an object.
pub fn read_request(entries: &Vec<JsonEntry>, sender: usize) -> (r: Option<MessageInput>)
    ensures
        match r {
            Some(input) => request_of(entry_views(entries@), sender as int) == Some(input@),
            None => request_of(entry_views(entries@), sender as int) is None,
        },
{
    let receiver_id = find_id(entries, "receiver_id");
    let content = find_text(entries, "content");
    match (receiver_id, content) {
        (Some(receiver_id), Some(content)) => Some(
            MessageInput { sender_id: sender, receiver_id, content },
        ),
        _ => None,
    }
}

/// Reads a stored message out of the entries of an object.
pub fn read_message(entries: &Vec<JsonEntry>) -> (r: Option<Message>)
    ensures
        match r {
            Some(m) => message_of(entry_views(entries@)) == Some(m@),
            None => message_of(entry_views(entries@)) is None,
        },
{
    let message_id = find_id(entries, "message_id");
    let sender_id = find_id(entries, "sender_id");
    let receiver_id = find_id(entries, "receiver_id");
    let content = find_text(entries, "content");
    let sent_at = find_unsigned(entries, "sent_at");
    match (message_id, sender_id, receiver_id, content, sent_at) {
        (Some(message_id), Some(sender_id), Some(receiver_id), Some(content), Some(sent_at)) => {
            Some(Message { message_id, sender_id, receiver_id, content, sent_at })
        },
        _ => None,
    }
}

/// The entries of the object that stands for a stored message.
pub fn message_entries(m: &Message) -> (r: Vec<JsonEntry>)
    ensures
        entry_views(r@) == entries_of(m@),
{
    let mut r: Vec<JsonEntry> = Vec::new();
    r.push(
        JsonEntry { key: "message_id".to_owned(), field: JsonField::Number(Some(m.message_id as u64)) },
    );
    r.push(
        JsonEntry { key: "sender_id".to_owned(), field: JsonField::Number(Some(m.sender_id as u64)) },
    );
    r.push(
        JsonEntry {
            key: "receiver_id".to_owned(),
            field: JsonField::Number(Some(m.receiver_id as u64)),
        },
    );
    r.push(JsonEntry { key: "content".to_owned(), field: JsonField::Text(m.content.clone()) });
    r.push(JsonEntry { key: "sent_at".to_owned(), field: JsonField::Number(Some(m.sent_at)) });
    assert(entry_views(r@) =~= entries_of(m@));
    r
}

/// Decodes the text of an inbound frame as a request of `sender` to create a
/// message. `None` marks malformed input: a text that is no JSON object, or an
/// object without a receiver or a content.
pub fn decode_request(text: &str, sender: usize) -> (r: Option<MessageInput>)
    ensures
        match r {
            Some(input) => decoded_request(text@, sender as int) == Some(input@),
            None => decoded_request(text@, sender as int) is None,
        },
{
    match parse_object(text) {
        Some(entries) => read_request(&entries, sender),
        None => None,
    }
}

/// Decodes the payload of a notification as a stored message.
pub fn decode_message(text: &str) -> (r: Option<Message>)
    ensures
        match r {
            Some(m) => decoded_message(text@) == Some(m@),
            None => decoded_message(text@) is None,
        },
{
    match parse_object(text) {
        Some(entries) => read_message(&entries),
        None => None,
    }
}

/// Encodes a stored message as the text of an outbound frame.
pub fn encode_message(m: &Message) -> (r: Option<String>)
    ensures
        match r {
            Some(text) => encoded_message(m@) == Some(text@),
            None => encoded_message(m@) is None,
        },
{
    let entries = message_entries(m);
    render_object(&entries)
}

} // verus!
