use direct_messaging::model::{Message, MessageInput};
use direct_messaging::session::{
    encode_all, CloseReason, ErrorKind, InboundAction, InboundEvent, OutboundAction,
    OutboundEvent, Phase, Session, Stage,
};

fn stored(id: usize, sender: usize, receiver: usize, content: &str) -> Message {
    Message {
        message_id: id,
        sender_id: sender,
        receiver_id: receiver,
        content: content.to_owned(),
        sent_at: 100 + id as u64,
    }
}

fn frame(id: usize, sender: usize, receiver: usize, content: &str) -> String {
    format!(
        "{{\"message_id\":{},\"sender_id\":{},\"receiver_id\":{},\"content\":\"{}\",\"sent_at\":{}}}",
        id,
        sender,
        receiver,
        content,
        100 + id
    )
}

fn authenticated(user: usize) -> Session {
    let mut session = Session::new();
    assert_eq!(
        session.on_outbound(OutboundEvent::Identity(user)),
        OutboundAction::Subscribe { user }
    );
    session
}

fn replaying(user: usize, contacts: Vec<usize>) -> (Session, OutboundAction) {
    let mut session = authenticated(user);
    assert_eq!(
        session.on_outbound(OutboundEvent::Subscribed),
        OutboundAction::LoadContacts { user }
    );
    let action = session.on_outbound(OutboundEvent::Contacts(contacts));
    (session, action)
}

fn live(user: usize) -> Session {
    let (session, action) = replaying(user, Vec::new());
    assert_eq!(action, OutboundAction::Receive);
    session
}

#[test]
fn session_starts_connecting() {
    let session = Session::new();
    assert_eq!(session.phase(), Phase::Connecting);
    assert_eq!(session.stage(), Stage::Connecting);
    assert!(!session.holds_subscription());
    assert_eq!(session.close_reason(), None);
}

#[test]
fn identity_leads_to_the_subscription() {
    let session = authenticated(2);
    assert_eq!(session.phase(), Phase::Authenticated);
    assert!(!session.holds_subscription());
}

#[test]
fn failed_handshake_closes_without_a_subscription() {
    let mut session = Session::new();
    assert_eq!(
        session.on_outbound(OutboundEvent::Failed),
        OutboundAction::Close { release_subscription: false }
    );
    assert_eq!(session.phase(), Phase::Closed);
    assert_eq!(session.close_reason(), Some(CloseReason::Error(ErrorKind::Unauthorized)));
    assert!(!session.holds_subscription());
}

#[test]
fn subscription_is_opened_before_anything_is_read() {
    let mut session = authenticated(2);
    let action = session.on_outbound(OutboundEvent::Subscribed);
    assert_eq!(action, OutboundAction::LoadContacts { user: 2 });
    assert_eq!(session.phase(), Phase::Replaying);
    assert!(session.holds_subscription());
}

#[test]
fn failed_subscription_closes_the_session() {
    let mut session = authenticated(2);
    assert_eq!(
        session.on_outbound(OutboundEvent::Failed),
        OutboundAction::Close { release_subscription: false }
    );
    assert_eq!(session.close_reason(), Some(CloseReason::Error(ErrorKind::SubscriptionError)));
}

#[test]
fn history_is_never_read_before_the_subscription_is_open() {
    let mut session = authenticated(2);
    let action = session.on_outbound(OutboundEvent::Contacts(vec![1]));
    assert_eq!(action, OutboundAction::Close { release_subscription: false });
    assert_eq!(session.phase(), Phase::Closed);
}

#[test]
fn failed_read_of_the_contacts_closes_and_releases() {
    let mut session = authenticated(2);
    session.on_outbound(OutboundEvent::Subscribed);
    assert_eq!(
        session.on_outbound(OutboundEvent::Failed),
        OutboundAction::Close { release_subscription: true }
    );
    assert_eq!(session.close_reason(), Some(CloseReason::Error(ErrorKind::StoreError)));
    assert!(!session.holds_subscription());
}

#[test]
fn conversations_are_replayed_contact_by_contact() {
    let (mut session, action) = replaying(2, vec![1, 3]);
    assert_eq!(action, OutboundAction::LoadHistory { user: 2, contact: 1 });
    assert_eq!(session.stage(), Stage::AwaitingHistory);
    let action =
        session.on_outbound(OutboundEvent::History(vec![stored(10, 1, 2, "a"), stored(11, 2, 1, "b")]));
    assert_eq!(
        action,
        OutboundAction::Send { frames: vec![frame(10, 1, 2, "a"), frame(11, 2, 1, "b")] }
    );
    assert_eq!(session.stage(), Stage::SendingHistory);
    let action = session.on_outbound(OutboundEvent::Sent);
    assert_eq!(action, OutboundAction::LoadHistory { user: 2, contact: 3 });
    let action = session.on_outbound(OutboundEvent::History(vec![stored(12, 3, 2, "c")]));
    assert_eq!(action, OutboundAction::Send { frames: vec![frame(12, 3, 2, "c")] });
    assert_eq!(session.phase(), Phase::Replaying);
    let action = session.on_outbound(OutboundEvent::Sent);
    assert_eq!(action, OutboundAction::Receive);
    assert_eq!(session.phase(), Phase::Live);
}

#[test]
fn empty_conversation_is_passed_over() {
    let (mut session, _) = replaying(2, vec![1, 3]);
    let action = session.on_outbound(OutboundEvent::History(Vec::new()));
    assert_eq!(action, OutboundAction::LoadHistory { user: 2, contact: 3 });
    let action = session.on_outbound(OutboundEvent::History(Vec::new()));
    assert_eq!(action, OutboundAction::Receive);
    assert_eq!(session.stage(), Stage::AwaitingNotification);
}

#[test]
fn failed_read_of_a_history_closes_and_releases() {
    let (mut session, _) = replaying(2, vec![1]);
    assert_eq!(
        session.on_outbound(OutboundEvent::Failed),
        OutboundAction::Close { release_subscription: true }
    );
    assert_eq!(session.close_reason(), Some(CloseReason::Error(ErrorKind::StoreError)));
}

#[test]
fn failed_send_of_the_backlog_closes_and_releases() {
    let (mut session, _) = replaying(2, vec![1, 3]);
    session.on_outbound(OutboundEvent::History(vec![stored(10, 1, 2, "a")]));
    assert_eq!(
        session.on_outbound(OutboundEvent::Failed),
        OutboundAction::Close { release_subscription: true }
    );
    assert_eq!(session.close_reason(), Some(CloseReason::Error(ErrorKind::TransportError)));
    assert!(!session.holds_subscription());
}

#[test]
fn live_session_forwards_each_notification() {
    let mut session = live(2);
    let action = session.on_outbound(OutboundEvent::Notified(stored(13, 1, 2, "hi")));
    assert_eq!(action, OutboundAction::Send { frames: vec![frame(13, 1, 2, "hi")] });
    assert_eq!(session.stage(), Stage::SendingNotification);
    assert_eq!(session.on_outbound(OutboundEvent::Sent), OutboundAction::Receive);
    assert_eq!(session.stage(), Stage::AwaitingNotification);
    assert_eq!(session.phase(), Phase::Live);
}

#[test]
fn closed_channel_ends_a_live_session() {
    let mut session = live(2);
    assert_eq!(
        session.on_outbound(OutboundEvent::Failed),
        OutboundAction::Close { release_subscription: true }
    );
    assert_eq!(session.close_reason(), Some(CloseReason::Error(ErrorKind::ChannelClosed)));
}

#[test]
fn failed_send_ends_a_live_session() {
    let mut session = live(2);
    session.on_outbound(OutboundEvent::Notified(stored(13, 1, 2, "hi")));
    assert_eq!(
        session.on_outbound(OutboundEvent::Failed),
        OutboundAction::Close { release_subscription: true }
    );
    assert_eq!(session.close_reason(), Some(CloseReason::Error(ErrorKind::TransportError)));
}

#[test]
fn outcome_that_was_not_asked_for_ends_the_session() {
    let mut session = live(2);
    assert_eq!(
        session.on_outbound(OutboundEvent::Sent),
        OutboundAction::Close { release_subscription: true }
    );
    assert_eq!(session.phase(), Phase::Closed);
}

#[test]
fn closed_session_only_stops() {
    let mut session = live(2);
    session.on_outbound(OutboundEvent::Failed);
    for _ in 0..3 {
        assert_eq!(
            session.on_outbound(OutboundEvent::Notified(stored(13, 1, 2, "hi"))),
            OutboundAction::Close { release_subscription: false }
        );
        assert_eq!(
            session.on_inbound(InboundEvent::Text("{\"receiver_id\":1,\"content\":\"x\"}".to_owned())),
            InboundAction::Close { release_subscription: false }
        );
    }
    assert_eq!(session.close_reason(), Some(CloseReason::Error(ErrorKind::ChannelClosed)));
}

#[test]
fn text_frame_becomes_a_request_of_the_session_user() {
    let mut session = live(1);
    let action =
        session.on_inbound(InboundEvent::Text("{\"receiver_id\": 2, \"content\": \"hi\"}".to_owned()));
    assert_eq!(
        action,
        InboundAction::Append(MessageInput {
            sender_id: 1,
            receiver_id: 2,
            content: "hi".to_owned()
        })
    );
    assert_eq!(session.on_inbound(InboundEvent::Stored), InboundAction::Continue);
    assert_eq!(session.phase(), Phase::Live);
}

#[test]
fn malformed_frame_is_reported_and_the_next_one_still_works() {
    let mut session = live(1);
    assert_eq!(
        session.on_inbound(InboundEvent::Text("{not json".to_owned())),
        InboundAction::Report(ErrorKind::MalformedInput)
    );
    assert_eq!(session.phase(), Phase::Live);
    assert!(session.holds_subscription());
    assert_eq!(
        session.on_inbound(InboundEvent::Text("{\"receiver_id\": 2, \"content\": \"hi\"}".to_owned())),
        InboundAction::Append(MessageInput {
            sender_id: 1,
            receiver_id: 2,
            content: "hi".to_owned()
        })
    );
}

#[test]
fn malformed_frame_does_not_disturb_the_replay() {
    let (mut session, _) = replaying(2, vec![1]);
    assert_eq!(
        session.on_inbound(InboundEvent::Text("[]".to_owned())),
        InboundAction::Report(ErrorKind::MalformedInput)
    );
    assert_eq!(session.stage(), Stage::AwaitingHistory);
    let action = session.on_outbound(OutboundEvent::History(vec![stored(10, 1, 2, "a")]));
    assert_eq!(action, OutboundAction::Send { frames: vec![frame(10, 1, 2, "a")] });
}

#[test]
fn failed_insert_is_reported_and_the_session_goes_on() {
    let mut session = live(1);
    session.on_inbound(InboundEvent::Text("{\"receiver_id\": 2, \"content\": \"hi\"}".to_owned()));
    assert_eq!(
        session.on_inbound(InboundEvent::StoreFailed),
        InboundAction::Report(ErrorKind::StoreError)
    );
    assert_eq!(session.phase(), Phase::Live);
    assert_eq!(session.close_reason(), None);
}

#[test]
fn binary_and_control_frames_are_passed_over() {
    let mut session = live(1);
    assert_eq!(session.on_inbound(InboundEvent::Binary), InboundAction::Continue);
    assert_eq!(session.on_inbound(InboundEvent::Control), InboundAction::Continue);
    assert_eq!(session.phase(), Phase::Live);
}

#[test]
fn frames_before_the_handshake_are_not_accepted() {
    let mut session = Session::new();
    assert_eq!(
        session.on_inbound(InboundEvent::Text("{\"receiver_id\": 2, \"content\": \"hi\"}".to_owned())),
        InboundAction::Report(ErrorKind::Unauthorized)
    );
    assert_eq!(session.phase(), Phase::Connecting);
}

#[test]
fn inbound_is_active_once_authenticated() {
    let mut session = authenticated(1);
    assert_eq!(
        session.on_inbound(InboundEvent::Text("{\"receiver_id\": 2, \"content\": \"hi\"}".to_owned())),
        InboundAction::Append(MessageInput {
            sender_id: 1,
            receiver_id: 2,
            content: "hi".to_owned()
        })
    );
}

#[test]
fn close_frame_ends_the_session_and_releases() {
    let mut session = live(1);
    assert_eq!(
        session.on_inbound(InboundEvent::Close),
        InboundAction::Close { release_subscription: true }
    );
    assert_eq!(session.phase(), Phase::Closed);
    assert_eq!(session.close_reason(), Some(CloseReason::ClientClosed));
    assert!(!session.holds_subscription());
    assert_eq!(
        session.on_outbound(OutboundEvent::Notified(stored(13, 2, 1, "late"))),
        OutboundAction::Close { release_subscription: false }
    );
}

#[test]
fn inbound_failure_stops_the_outbound_half() {
    let (mut session, _) = replaying(2, vec![1]);
    assert_eq!(
        session.on_inbound(InboundEvent::Failed),
        InboundAction::Close { release_subscription: true }
    );
    assert_eq!(session.close_reason(), Some(CloseReason::Error(ErrorKind::TransportError)));
    assert_eq!(
        session.on_outbound(OutboundEvent::History(vec![stored(10, 1, 2, "a")])),
        OutboundAction::Close { release_subscription: false }
    );
    assert!(!session.holds_subscription());
}

#[test]
fn outbound_failure_stops_the_inbound_half() {
    let mut session = live(2);
    assert_eq!(
        session.on_outbound(OutboundEvent::Failed),
        OutboundAction::Close { release_subscription: true }
    );
    assert_eq!(
        session.on_inbound(InboundEvent::Binary),
        InboundAction::Close { release_subscription: false }
    );
    assert_eq!(
        session.on_inbound(InboundEvent::Close),
        InboundAction::Close { release_subscription: false }
    );
    assert_eq!(session.close_reason(), Some(CloseReason::Error(ErrorKind::ChannelClosed)));
}

#[test]
fn close_before_the_subscription_has_nothing_to_release() {
    let mut session = authenticated(1);
    assert_eq!(
        session.on_inbound(InboundEvent::Close),
        InboundAction::Close { release_subscription: false }
    );
    assert_eq!(session.close_reason(), Some(CloseReason::ClientClosed));
}

#[test]
fn encodes_a_batch_in_order() {
    assert_eq!(
        encode_all(&vec![stored(10, 1, 2, "a"), stored(11, 2, 1, "b")]),
        Some(vec![frame(10, 1, 2, "a"), frame(11, 2, 1, "b")])
    );
    assert_eq!(encode_all(&Vec::new()), Some(Vec::new()));
}
