use direct_messaging::json::{JsonEntry, JsonField};
use direct_messaging::model::{Message, MessageInput};
use direct_messaging::wire::{
    decode_message, decode_request, encode_message, message_entries, read_message, read_request,
};

fn entry(key: &str, field: JsonField) -> JsonEntry {
    JsonEntry { key: key.to_owned(), field }
}

fn number(n: u64) -> JsonField {
    JsonField::Number(Some(n))
}

fn text(s: &str) -> JsonField {
    JsonField::Text(s.to_owned())
}

fn hello() -> Message {
    Message {
        message_id: 13,
        sender_id: 1,
        receiver_id: 2,
        content: "hi".to_owned(),
        sent_at: 1700000000,
    }
}

#[test]
fn encodes_a_message_with_its_five_fields() {
    assert_eq!(
        encode_message(&hello()),
        Some(
            "{\"message_id\":13,\"sender_id\":1,\"receiver_id\":2,\"content\":\"hi\",\"sent_at\":1700000000}"
                .to_owned()
        )
    );
}

#[test]
fn encoding_escapes_the_content() {
    let mut m = hello();
    m.content = "say \"hi\"\n".to_owned();
    let frame = encode_message(&m).expect("a message can be encoded");
    assert!(frame.contains("\"content\":\"say \\\"hi\\\"\\n\""));
    assert_eq!(decode_message(&frame), Some(m));
}

#[test]
fn decoding_gives_back_what_was_encoded() {
    let m = hello();
    let frame = encode_message(&m).expect("a message can be encoded");
    assert_eq!(decode_message(&frame), Some(m));
}

#[test]
fn decoding_keeps_the_largest_identifier() {
    let m = Message {
        message_id: usize::MAX,
        sender_id: 0,
        receiver_id: usize::MAX,
        content: String::new(),
        sent_at: u64::MAX,
    };
    let frame = encode_message(&m).expect("a message can be encoded");
    assert_eq!(decode_message(&frame), Some(m));
}

#[test]
fn decodes_a_message_whatever_the_order_of_its_fields() {
    let payload = "{\"sent_at\": 7, \"content\": \"x\", \"receiver_id\": 2, \"sender_id\": 1, \"message_id\": 3}";
    assert_eq!(
        decode_message(payload),
        Some(Message {
            message_id: 3,
            sender_id: 1,
            receiver_id: 2,
            content: "x".to_owned(),
            sent_at: 7
        })
    );
}

#[test]
fn message_without_an_identifier_is_refused() {
    let payload = "{\"sender_id\": 1, \"receiver_id\": 2, \"content\": \"x\", \"sent_at\": 7}";
    assert_eq!(decode_message(payload), None);
}

#[test]
fn message_with_a_negative_identifier_is_refused() {
    let payload =
        "{\"message_id\": -3, \"sender_id\": 1, \"receiver_id\": 2, \"content\": \"x\", \"sent_at\": 7}";
    assert_eq!(decode_message(payload), None);
}

#[test]
fn decodes_a_request() {
    assert_eq!(
        decode_request("{\"receiver_id\": 2, \"content\": \"hi\"}", 1),
        Some(MessageInput { sender_id: 1, receiver_id: 2, content: "hi".to_owned() })
    );
}

#[test]
fn sender_of_a_request_is_never_taken_from_the_client() {
    assert_eq!(
        decode_request("{\"sender_id\": 99, \"receiver_id\": 2, \"content\": \"hi\"}", 1),
        Some(MessageInput { sender_id: 1, receiver_id: 2, content: "hi".to_owned() })
    );
}

#[test]
fn request_may_be_addressed_to_the_sender() {
    assert_eq!(
        decode_request("{\"receiver_id\": 1, \"content\": \"memo\"}", 1),
        Some(MessageInput { sender_id: 1, receiver_id: 1, content: "memo".to_owned() })
    );
}

#[test]
fn request_may_have_an_empty_content() {
    assert_eq!(
        decode_request("{\"receiver_id\": 2, \"content\": \"\"}", 1),
        Some(MessageInput { sender_id: 1, receiver_id: 2, content: String::new() })
    );
}

#[test]
fn text_that_is_no_json_is_malformed() {
    assert_eq!(decode_request("hello", 1), None);
    assert_eq!(decode_request("", 1), None);
    assert_eq!(decode_request("{\"receiver_id\": 2, \"content\": \"hi\"", 1), None);
}

#[test]
fn json_that_is_no_object_is_malformed() {
    assert_eq!(decode_request("[2, \"hi\"]", 1), None);
    assert_eq!(decode_request("\"hi\"", 1), None);
    assert_eq!(decode_request("null", 1), None);
}

#[test]
fn request_without_a_receiver_is_malformed() {
    assert_eq!(decode_request("{\"content\": \"hi\"}", 1), None);
}

#[test]
fn request_without_a_content_is_malformed() {
    assert_eq!(decode_request("{\"receiver_id\": 2}", 1), None);
}

#[test]
fn request_with_a_receiver_that_is_no_identifier_is_malformed() {
    assert_eq!(decode_request("{\"receiver_id\": \"2\", \"content\": \"hi\"}", 1), None);
    assert_eq!(decode_request("{\"receiver_id\": -2, \"content\": \"hi\"}", 1), None);
    assert_eq!(decode_request("{\"receiver_id\": 2.5, \"content\": \"hi\"}", 1), None);
    assert_eq!(decode_request("{\"receiver_id\": null, \"content\": \"hi\"}", 1), None);
}

#[test]
fn request_with_a_content_that_is_no_string_is_malformed() {
    assert_eq!(decode_request("{\"receiver_id\": 2, \"content\": 5}", 1), None);
    assert_eq!(decode_request("{\"receiver_id\": 2, \"content\": [\"hi\"]}", 1), None);
}

#[test]
fn reads_a_request_from_entries() {
    let entries = vec![entry("content", text("hi")), entry("receiver_id", number(2))];
    assert_eq!(
        read_request(&entries, 7),
        Some(MessageInput { sender_id: 7, receiver_id: 2, content: "hi".to_owned() })
    );
}

#[test]
fn reading_takes_the_first_entry_of_a_key() {
    let entries = vec![
        entry("receiver_id", number(2)),
        entry("receiver_id", number(3)),
        entry("content", text("hi")),
    ];
    assert_eq!(
        read_request(&entries, 7),
        Some(MessageInput { sender_id: 7, receiver_id: 2, content: "hi".to_owned() })
    );
}

#[test]
fn reading_refuses_a_number_without_a_value() {
    let entries = vec![entry("receiver_id", JsonField::Number(None)), entry("content", text("hi"))];
    assert_eq!(read_request(&entries, 7), None);
    let entries = vec![entry("receiver_id", JsonField::Other), entry("content", text("hi"))];
    assert_eq!(read_request(&entries, 7), None);
}

#[test]
fn reading_no_entries_gives_nothing() {
    assert_eq!(read_request(&Vec::new(), 7), None);
    assert_eq!(read_message(&Vec::new()), None);
}

#[test]
fn message_entries_name_the_five_fields_in_order() {
    assert_eq!(
        message_entries(&hello()),
        vec![
            entry("message_id", number(13)),
            entry("sender_id", number(1)),
            entry("receiver_id", number(2)),
            entry("content", text("hi")),
            entry("sent_at", number(1700000000)),
        ]
    );
}

#[test]
fn message_reads_back_from_its_entries() {
    assert_eq!(read_message(&message_entries(&hello())), Some(hello()));
}

#[test]
fn reading_a_message_needs_every_field() {
    for missing in 0..5 {
        let mut entries = message_entries(&hello());
        entries.remove(missing);
        assert_eq!(read_message(&entries), None);
    }
}
