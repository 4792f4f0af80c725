//! The session of one connected user, as a state machine.
//!
//! A session has two halves that run side by side. The outbound half opens
//! the user's subscription, replays the stored conversations and then forwards
//! live notifications. The inbound half turns the frames that the client sends
//! into requests to the store. Neither half does any input or output itself:
//! each is told what happened and answers what to do next.

use crate::model::{views, Message, MessageInput, MessageInputView, MessageView};
use crate::store::user_ids;
use crate::wire::{decode_request, decoded_request, encode_message, encoded_message};
use vstd::prelude::*;

verus! {

/// The kinds of failure that a session meets.
#[derive(Debug, Clone, Copy, PartialEq, Eq, Structural)]
pub enum ErrorKind {
    /// The handshake did not resolve a user.
    Unauthorized,
    /// The store failed to append or to read.
    StoreError,
    /// The notification channel could not be opened.
    SubscriptionError,
    /// The notification channel went away under the session.
    ChannelClosed,
    /// A frame of the client could not be decoded.
    MalformedInput,
    /// The connection failed to send or to receive.
    TransportError,
}

/// Why a session ended.
#[derive(Debug, Clone, Copy, PartialEq, Eq, Structural)]
pub enum CloseReason {
    /// The client sent a close frame.
    ClientClosed,
    /// A failure that a session does not survive.
    Error(ErrorKind),
}

/// The states of a session.
#[derive(Debug, Clone, Copy, PartialEq, Eq, Structural)]
pub enum Phase {
    Connecting,
    Authenticated,
    Replaying,
    Live,
    Closed,
}

/// Where the outbound half stands: the phase of the session, and within the
/// phase what the half is waiting for.
#[derive(Debug, Clone, Copy, PartialEq, Eq, Structural)]
pub enum Stage {
    /// Waiting for the user's identity.
    Connecting,
    /// The user is known; waiting for the subscription to open.
    Authenticated,
    /// Replaying; waiting for the user's contacts.
    AwaitingContacts,
    /// Replaying; waiting for the conversation with the current contact.
    AwaitingHistory,
    /// Replaying; waiting for a conversation to be sent.
    SendingHistory,
    /// Live; waiting for the next notification.
    AwaitingNotification,
    /// Live; waiting for a notification to be sent.
    SendingNotification,
    /// Over.
    Closed,
}

impl Stage {
    /// The phase that the stage belongs to.
    pub open spec fn phase(self) -> Phase {
        match self {
            Stage::Connecting => Phase::Connecting,
            Stage::Authenticated => Phase::Authenticated,
            Stage::AwaitingContacts | Stage::AwaitingHistory | Stage::SendingHistory => {
                Phase::Replaying
            },
            Stage::AwaitingNotification | Stage::SendingNotification => Phase::Live,
            Stage::Closed => Phase::Closed,
        }
    }
}

/// The texts of a sequence of frames, in the same order.
pub open spec fn texts(frames: Seq<String>) -> Seq<Seq<char>> {
    frames.map_values(|s: String| s@)
}

/// Mathematical value of an [`OutboundEvent`].
pub enum OutboundEventView {
    Identity(int),
    Subscribed,
    Contacts(Seq<int>),
    History(Seq<MessageView>),
    Sent,
    Notified(MessageView),
    Failed,
}

/// What the outbound half is told: the outcome of what it last asked for.
#[derive(Debug, PartialEq, Eq)]
pub enum OutboundEvent {
    /// The handshake resolved the user.
    Identity(usize),
    /// The subscription is open.
    Subscribed,
    /// The store returned the user's contacts.
    Contacts(Vec<usize>),
    /// The store returned the conversation with the current contact.
    History(Vec<Message>),
    /// The frames were sent.
    Sent,
    /// The notification channel delivered a message.
    Notified(Message),
    /// What the session last asked for failed.
    Failed,
}

impl View for OutboundEvent {
    type V = OutboundEventView;

    open spec fn view(&self) -> OutboundEventView {
        match self {
            OutboundEvent::Identity(user) => OutboundEventView::Identity(*user as int),
            OutboundEvent::Subscribed => OutboundEventView::Subscribed,
            OutboundEvent::Contacts(contacts) => OutboundEventView::Contacts(user_ids(contacts@)),
            OutboundEvent::History(messages) => OutboundEventView::History(views(messages@)),
            OutboundEvent::Sent => OutboundEventView::Sent,
            OutboundEvent::Notified(m) => OutboundEventView::Notified(m@),
            OutboundEvent::Failed => OutboundEventView::Failed,
        }
    }
}

/// Mathematical value of an [`OutboundAction`].
pub enum OutboundActionView {
    Subscribe { user: int },
    LoadContacts { user: int },
    LoadHistory { user: int, contact: int },
    Send { frames: Seq<Seq<char>> },
    Receive,
    Close { release_subscription: bool },
}

/// What the outbound half asks for next.
#[derive(Debug, PartialEq, Eq)]
pub enum OutboundAction {
    /// Open the notification channel of `user`.
    Subscribe { user: usize },
    /// Read the contacts of `user` from the store.
    LoadContacts { user: usize },
    /// Read the conversation of `user` and `contact` from the store.
    LoadHistory { user: usize, contact: usize },
    /// Send these frames to the client, in this order.
    Send { frames: Vec<String> },
    /// Wait for the next notification.
    Receive,
    /// Stop. Where `release_subscription` holds, the session had a
    /// subscription open, which is to be released now.
    Close { release_subscription: bool },
}

impl View for OutboundAction {
    type V = OutboundActionView;

    open spec fn view(&self) -> OutboundActionView {
        match self {
            OutboundAction::Subscribe { user } => OutboundActionView::Subscribe {
                user: *user as int,
            },
            OutboundAction::LoadContacts { user } => OutboundActionView::LoadContacts {
                user: *user as int,
            },
            OutboundAction::LoadHistory { user, contact } => OutboundActionView::LoadHistory {
                user: *user as int,
                contact: *contact as int,
            },
            OutboundAction::Send { frames } => OutboundActionView::Send { frames: texts(frames@) },
            OutboundAction::Receive => OutboundActionView::Receive,
            OutboundAction::Close { release_subscription } => OutboundActionView::Close {
                release_subscription: *release_subscription,
            },
        }
    }
}

/// Mathematical value of an [`InboundEvent`].
pub enum InboundEventView {
    Text(Seq<char>),
    Binary,
    Control,
    Close,
    Failed,
    Stored,
    StoreFailed,
}

/// What the inbound half is told: the next frame of the client, or the
/// outcome of the append that it last asked for.
#[derive(Debug, PartialEq, Eq)]
pub enum InboundEvent {
    /// A text frame.
    Text(String),
    /// A binary frame.
    Binary,
    /// A ping or a pong.
    Control,
    /// The close frame.
    Close,
    /// The connection failed.
    Failed,
    /// The store appended the message.
    Stored,
    /// The store failed to append the message.
    StoreFailed,
}

impl View for InboundEvent {
    type V = InboundEventView;

    open spec fn view(&self) -> InboundEventView {
        match self {
            InboundEvent::Text(text) => InboundEventView::Text(text@),
            InboundEvent::Binary => InboundEventView::Binary,
            InboundEvent::Control => InboundEventView::Control,
            InboundEvent::Close => InboundEventView::Close,
            InboundEvent::Failed => InboundEventView::Failed,
            InboundEvent::Stored => InboundEventView::Stored,
            InboundEvent::StoreFailed => InboundEventView::StoreFailed,
        }
    }
}

/// Mathematical value of an [`InboundAction`].
pub enum InboundActionView {
    Append(MessageInputView),
    Continue,
    Report(ErrorKind),
    Close { release_subscription: bool },
}

/// What the inbound half asks for next.
#[derive(Debug, PartialEq, Eq)]
pub enum InboundAction {
    /// Append this message to the store, then report the outcome.
    Append(MessageInput),
    /// Read the next frame.
    Continue,
    /// Log this failure, then read the next frame.
    Report(ErrorKind),
    /// Stop. Where `release_subscription` holds, the session had a
    /// subscription open, which is to be released now.
    Close { release_subscription: bool },
}

impl View for InboundAction {
    type V = InboundActionView;

    open spec fn view(&self) -> InboundActionView {
        match self {
            InboundAction::Append(input) => InboundActionView::Append(input@),
            InboundAction::Continue => InboundActionView::Continue,
            InboundAction::Report(kind) => InboundActionView::Report(*kind),
            InboundAction::Close { release_subscription } => InboundActionView::Close {
                release_subscription: *release_subscription,
            },
        }
    }
}

/// Mathematical value of a [`Session`].
pub struct SessionView {
    /// Where the outbound half stands.
    pub stage: Stage,
    /// The authenticated user, once there is one.
    pub user: int,
    /// The session has a subscription open.
    pub subscribed: bool,
    /// The contacts whose conversations are replayed.
    pub contacts: Seq<int>,
    /// How many of the conversations have been asked for.
    pub requested: int,
    /// Why the session ended, once it has.
    pub reason: Option<CloseReason>,
}

/// A session before the handshake.
pub open spec fn initial() -> SessionView {
    SessionView {
        stage: Stage::Connecting,
        user: 0,
        subscribed: false,
        contacts: Seq::empty(),
        requested: 0,
        reason: None,
    }
}

/// The session as it is once it has ended for `reason`.
pub open spec fn ended(s: SessionView, reason: CloseReason) -> SessionView {
    SessionView { stage: Stage::Closed, subscribed: false, reason: Some(reason), ..s }
}

/// The frames that a batch of messages travels as, if every message of it can
/// be encoded.
pub open spec fn encoded_all(messages: Seq<MessageView>) -> Option<Seq<Seq<char>>> {
    if forall|k: int| 0 <= k < messages.len() ==> encoded_message(#[trigger] messages[k]) is Some {
        Some(Seq::new(messages.len(), |k: int| encoded_message(messages[k])->0))
    } else {
        None
    }
}

/// The outbound half ends the session for `reason`.
pub open spec fn outbound_close(s: SessionView, reason: CloseReason) -> (
    SessionView,
    OutboundActionView,
) {
    (ended(s, reason), OutboundActionView::Close { release_subscription: s.subscribed })
}

/// The outbound half turns to the next conversation, or goes live when every
/// conversation has been replayed.
pub open spec fn outbound_advance(s: SessionView) -> (SessionView, OutboundActionView) {
    if 0 <= s.requested < s.contacts.len() {
        (
            SessionView { stage: Stage::AwaitingHistory, requested: s.requested + 1, ..s },
            OutboundActionView::LoadHistory { user: s.user, contact: s.contacts[s.requested] },
        )
    } else {
        (SessionView { stage: Stage::AwaitingNotification, ..s }, OutboundActionView::Receive)
    }
}

/// One step of the outbound half: the session after `event`, and what the
/// half asks for next.
///
/// In every stage one event is the success that the stage waits for. Any
/// other event ends the session, with the failure that belongs to the stage.
pub open spec fn outbound_step(s: SessionView, event: OutboundEventView) -> (
    SessionView,
    OutboundActionView,
) {
    match s.stage {
        Stage::Connecting => match event {
            OutboundEventView::Identity(user) => (
                SessionView { stage: Stage::Authenticated, user, ..s },
                OutboundActionView::Subscribe { user },
            ),
            _ => outbound_close(s, CloseReason::Error(ErrorKind::Unauthorized)),
        },
        Stage::Authenticated => match event {
            OutboundEventView::Subscribed => (
                SessionView { stage: Stage::AwaitingContacts, subscribed: true, ..s },
                OutboundActionView::LoadContacts { user: s.user },
            ),
            _ => outbound_close(s, CloseReason::Error(ErrorKind::SubscriptionError)),
        },
        Stage::AwaitingContacts => match event {
            OutboundEventView::Contacts(contacts) => outbound_advance(
                SessionView { contacts, requested: 0, ..s },
            ),
            _ => outbound_close(s, CloseReason::Error(ErrorKind::StoreError)),
        },
        Stage::AwaitingHistory => match event {
            OutboundEventView::History(messages) => match encoded_all(messages) {
                Some(frames) => if frames.len() == 0 {
                    outbound_advance(s)
                } else {
                    (
                        SessionView { stage: Stage::SendingHistory, ..s },
                        OutboundActionView::Send { frames },
                    )
                },
                None => outbound_close(s, CloseReason::Error(ErrorKind::TransportError)),
            },
            _ => outbound_close(s, CloseReason::Error(ErrorKind::StoreError)),
        },
        Stage::SendingHistory => match event {
            OutboundEventView::Sent => outbound_advance(s),
            _ => outbound_close(s, CloseReason::Error(ErrorKind::TransportError)),
        },
        Stage::AwaitingNotification => match event {
            OutboundEventView::Notified(m) => match encoded_message(m) {
                Some(frame) => (
                    SessionView { stage: Stage::SendingNotification, ..s },
                    OutboundActionView::Send { frames: seq![frame] },
                ),
                None => outbound_close(s, CloseReason::Error(ErrorKind::TransportError)),
            },
            _ => outbound_close(s, CloseReason::Error(ErrorKind::ChannelClosed)),
        },
        Stage::SendingNotification => match event {
            OutboundEventView::Sent => (
                SessionView { stage: Stage::AwaitingNotification, ..s },
                OutboundActionView::Receive,
            ),
            _ => outbound_close(s, CloseReason::Error(ErrorKind::TransportError)),
        },
        Stage::Closed => (s, OutboundActionView::Close { release_subscription: false }),
    }
}

/// The inbound half ends the session for `reason`.
pub open spec fn inbound_close(s: SessionView, reason: CloseReason) -> (
    SessionView,
    InboundActionView,
) {
    (ended(s, reason), InboundActionView::Close { release_subscription: s.subscribed })
}

/// One step of the inbound half: the session after `event`, and what the half
/// asks for next.
///
/// Only the close frame and a failure of the connection end the session. A
/// frame that cannot be decoded and an append that the store refused are
/// reported and leave the session as it was.
pub open spec fn inbound_step(s: SessionView, event: InboundEventView) -> (
    SessionView,
    InboundActionView,
) {
    if s.stage == Stage::Closed {
        (s, InboundActionView::Close { release_subscription: false })
    } else {
        match event {
            InboundEventView::Close => inbound_close(s, CloseReason::ClientClosed),
            InboundEventView::Failed => inbound_close(
                s,
                CloseReason::Error(ErrorKind::TransportError),
            ),
            InboundEventView::Text(text) => if s.stage == Stage::Connecting {
                (s, InboundActionView::Report(ErrorKind::Unauthorized))
            } else {
                match decoded_request(text, s.user) {
                    Some(input) => (s, InboundActionView::Append(input)),
                    None => (s, InboundActionView::Report(ErrorKind::MalformedInput)),
                }
            },
            InboundEventView::Binary | InboundEventView::Control | InboundEventView::Stored => (
                s,
                InboundActionView::Continue,
            ),
            InboundEventView::StoreFailed => (s, InboundActionView::Report(ErrorKind::StoreError)),
        }
    }
}

impl SessionView {
    /// What holds of a session at every point of its life: it has a reason
    /// to be closed exactly when it is closed; it has a subscription open
    /// exactly while it replays or is live; and it has asked for no more
    /// conversations than it has contacts.
    pub open spec fn well_formed(self) -> bool {
        &&& self.stage == Stage::Closed <==> self.reason is Some
        &&& self.subscribed <==> self.stage.phase() == Phase::Replaying || self.stage.phase()
            == Phase::Live
        &&& 0 <= self.requested <= self.contacts.len()
    }
}

/// A session is well formed from the start, and no step of either half makes
/// it ill formed.
pub proof fn lemma_steps_keep_well_formed(
    s: SessionView,
    outbound: OutboundEventView,
    inbound: InboundEventView,
)
    requires
        s.well_formed(),
    ensures
        initial().well_formed(),
        outbound_step(s, outbound).0.well_formed(),
        inbound_step(s, inbound).0.well_formed(),
{
}

/// Malformed input is isolated. On a session that is authenticated and not
/// closed, a frame that cannot be decoded is reported and changes nothing, and
/// a well-formed frame that follows it is still turned into its request.
pub proof fn lemma_malformed_input_is_isolated(s: SessionView, bad: Seq<char>, good: Seq<char>)
    requires
        s.stage != Stage::Closed,
        s.stage != Stage::Connecting,
        decoded_request(bad, s.user) is None,
        decoded_request(good, s.user) is Some,
    ensures
        inbound_step(s, InboundEventView::Text(bad)) == (
            s,
            InboundActionView::Report(ErrorKind::MalformedInput),
        ),
        inbound_step(inbound_step(s, InboundEventView::Text(bad)).0, InboundEventView::Text(good))
            == (s, InboundActionView::Append(decoded_request(good, s.user)->0)),
{
}

/// A failure of a single request never ends the session: whatever the inbound
/// half is told, short of the close frame and a failure of the connection,
/// leaves the session as it was.
pub proof fn lemma_inbound_failures_are_isolated(s: SessionView, event: InboundEventView)
    requires
        event != InboundEventView::Close,
        event != InboundEventView::Failed,
    ensures
        inbound_step(s, event).0 == s,
        s.stage != Stage::Closed ==> !(inbound_step(s, event).1 is Close),
{
}

/// Teardown is symmetric. A failure that either half is told of closes the
/// session. Whichever half closes the session, it is told to release the
/// subscription exactly if one was open, and the session holds none
/// afterwards. From then on each half is told to stop at its next step, with
/// nothing left to release, and the session stays as it is.
pub proof fn lemma_teardown_is_symmetric(
    s: SessionView,
    outbound: OutboundEventView,
    inbound: InboundEventView,
)
    requires
        s.well_formed(),
    ensures
        outbound_step(s, OutboundEventView::Failed).0.stage == Stage::Closed,
        inbound_step(s, InboundEventView::Failed).0.stage == Stage::Closed,
        inbound_step(s, InboundEventView::Close).0.stage == Stage::Closed,
        ({
            let (t, action) = outbound_step(s, outbound);
            s.stage != Stage::Closed && t.stage == Stage::Closed ==> {
                &&& action == OutboundActionView::Close { release_subscription: s.subscribed }
                &&& !t.subscribed
            }
        }),
        ({
            let (t, action) = inbound_step(s, inbound);
            s.stage != Stage::Closed && t.stage == Stage::Closed ==> {
                &&& action == InboundActionView::Close { release_subscription: s.subscribed }
                &&& !t.subscribed
            }
        }),
        s.stage == Stage::Closed ==> {
            &&& !s.subscribed
            &&& outbound_step(s, outbound) == (
                s,
                OutboundActionView::Close { release_subscription: false },
            )
            &&& inbound_step(s, inbound) == (
                s,
                InboundActionView::Close { release_subscription: false },
            )
        },
{
}

/// The subscription comes first. The outbound half asks for the subscription
/// only out of the handshake, and it reads from the store, sends to the client
/// and waits for notifications only while the subscription is open: every
/// read of the store that it asks for follows the step that opened the
/// subscription.
pub proof fn lemma_subscription_precedes_reads(s: SessionView, event: OutboundEventView)
    requires
        s.well_formed(),
    ensures
        ({
            let (t, action) = outbound_step(s, event);
            &&& action is Subscribe ==> s.stage == Stage::Connecting && !t.subscribed
            &&& action is LoadContacts ==> s.stage == Stage::Authenticated && t.subscribed
            &&& action is LoadHistory ==> s.subscribed && t.subscribed
            &&& action is Send ==> s.subscribed && t.subscribed
            &&& action is Receive ==> s.subscribed && t.subscribed
        }),
{
}

/// A conversation is replayed as it was read: the frames that the outbound
/// half sends for it are as many as its messages, in the same order, each the
/// encoding of its message.
pub proof fn lemma_replay_matches_history(s: SessionView, messages: Seq<MessageView>)
    requires
        s.stage == Stage::AwaitingHistory,
        messages.len() > 0,
        encoded_all(messages) is Some,
    ensures
        outbound_step(s, OutboundEventView::History(messages)).0 == (SessionView {
            stage: Stage::SendingHistory,
            ..s
        }),
        outbound_step(s, OutboundEventView::History(messages)).1 matches OutboundActionView::Send {
            frames,
        } && frames.len() == messages.len() && forall|k: int|
            0 <= k < messages.len() ==> encoded_message(messages[k]) == Some(#[trigger] frames[k]),
{
}

/// Encodes a batch of messages as frames, in the same order.
pub fn encode_all(messages: &Vec<Message>) -> (r: Option<Vec<String>>)
    ensures
        match r {
            Some(frames) => encoded_all(views(messages@)) == Some(texts(frames@)),
            None => encoded_all(views(messages@)) is None,
        },
{
    let ghost batch = views(messages@);
    let mut frames: Vec<String> = Vec::new();
    let mut i: usize = 0;
    while i < messages.len()
        invariant
            i <= messages.len(),
            batch == views(messages@),
            frames.len() == i,
            forall|k: int| 0 <= k < i ==> encoded_message(#[trigger] batch[k]) == Some(frames[k]@),
        decreases messages.len() - i,
    {
        match encode_message(&messages[i]) {
            Some(frame) => {
                frames.push(frame);
            },
            None => {
                assert(encoded_message(batch[i as int]) is None);
                return None;
            },
        }
        i += 1;
    }
    assert(texts(frames@) =~= encoded_all(batch)->0);
    Some(frames)
}

/// The session of one connected user.
///
/// A session starts in [`Phase::Connecting`]. The two halves share it: once
/// either half has ended the session, both are told to stop.
#[derive(Debug)]
pub struct Session {
    stage: Stage,
    user: usize,
    subscribed: bool,
    contacts: Vec<usize>,
    requested: usize,
    reason: Option<CloseReason>,
}

impl View for Session {
    type V = SessionView;

    closed spec fn view(&self) -> SessionView {
        SessionView {
            stage: self.stage,
            user: self.user as int,
            subscribed: self.subscribed,
            contacts: user_ids(self.contacts@),
            requested: self.requested as int,
            reason: self.reason,
        }
    }
}

impl Session {
    #[verifier::type_invariant]
    spec fn sound(self) -> bool {
        self@.well_formed()
    }

    /// A session before the handshake.
    pub fn new() -> (r: Session)
        ensures
            r@ == initial(),
    {
        let contacts: Vec<usize> = Vec::new();
        assert(user_ids(contacts@) =~= Seq::<int>::empty());
        Session {
            stage: Stage::Connecting,
            user: 0,
            subscribed: false,
            contacts,
            requested: 0,
            reason: None,
        }
    }

    /// Where the outbound half stands. A session is well formed whenever it
    /// is looked at.
    pub fn stage(&self) -> (r: Stage)
        ensures
            r == self@.stage,
            self@.well_formed(),
    {
        proof {
            use_type_invariant(self);
        }
        self.stage
    }

    /// The phase of the session.
    pub fn phase(&self) -> (r: Phase)
        ensures
            r == self@.stage.phase(),
    {
        match self.stage {
            Stage::Connecting => Phase::Connecting,
            Stage::Authenticated => Phase::Authenticated,
            Stage::AwaitingContacts | Stage::AwaitingHistory | Stage::SendingHistory => {
                Phase::Replaying
            },
            Stage::AwaitingNotification | Stage::SendingNotification => Phase::Live,
            Stage::Closed => Phase::Closed,
        }
    }

    /// The session has a subscription open.
    pub fn holds_subscription(&self) -> (r: bool)
        ensures
            r == self@.subscribed,
    {
        self.subscribed
    }

    /// Why the session ended, once it has.
    pub fn close_reason(&self) -> (r: Option<CloseReason>)
        ensures
            r == self@.reason,
    {
        self.reason
    }

    fn end(self, reason: CloseReason) -> (r: (Session, bool))
        ensures
            r.0@ == ended(self@, reason),
            r.1 == self@.subscribed,
    {
        proof {
            use_type_invariant(&self);
        }
        let release_subscription = self.subscribed;
        (
            Session {
                stage: Stage::Closed,
                user: self.user,
                subscribed: false,
                contacts: self.contacts,
                requested: self.requested,
                reason: Some(reason),
            },
            release_subscription,
        )
    }

    fn close_outbound(self, kind: ErrorKind) -> (r: (Session, OutboundAction))
        ensures
            (r.0@, r.1@) == outbound_close(self@, CloseReason::Error(kind)),
    {
        let (session, release_subscription) = self.end(CloseReason::Error(kind));
        (session, OutboundAction::Close { release_subscription })
    }

    fn to(self, stage: Stage) -> (r: Session)
        requires
            self@.reason is None,
            self@.subscribed,
            stage.phase() == Phase::Replaying || stage.phase() == Phase::Live,
        ensures
            r@ == (SessionView { stage, ..self@ }),
    {
        proof {
            use_type_invariant(&self);
        }
        Session {
            stage,
            user: self.user,
            subscribed: self.subscribed,
            contacts: self.contacts,
            requested: self.requested,
            reason: self.reason,
        }
    }

    fn advance(self) -> (r: (Session, OutboundAction))
        requires
            self@.reason is None,
            self@.subscribed,
        ensures
            (r.0@, r.1@) == outbound_advance(self@),
    {
        proof {
            use_type_invariant(&self);
        }
        if self.requested < self.contacts.len() {
            let contact = self.contacts[self.requested];
            let user = self.user;
            (
                Session {
                    stage: Stage::AwaitingHistory,
                    user: self.user,
                    subscribed: self.subscribed,
                    contacts: self.contacts,
                    requested: self.requested + 1,
                    reason: self.reason,
                },
                OutboundAction::LoadHistory { user, contact },
            )
        } else {
            (self.to(Stage::AwaitingNotification), OutboundAction::Receive)
        }
    }

    fn outbound(self, event: OutboundEvent) -> (r: (Session, OutboundAction))
        ensures
            (r.0@, r.1@) == outbound_step(self@, event@),
    {
        proof {
            use_type_invariant(&self);
        }
        match self.stage {
            Stage::Connecting => match event {
                OutboundEvent::Identity(user) => (
                    Session {
                        stage: Stage::Authenticated,
                        user,
                        subscribed: self.subscribed,
                        contacts: self.contacts,
                        requested: self.requested,
                        reason: self.reason,
                    },
                    OutboundAction::Subscribe { user },
                ),
                _ => self.close_outbound(ErrorKind::Unauthorized),
            },
            Stage::Authenticated => match event {
                OutboundEvent::Subscribed => {
                    let user = self.user;
                    (
                        Session {
                            stage: Stage::AwaitingContacts,
                            user: self.user,
                            subscribed: true,
                            contacts: self.contacts,
                            requested: self.requested,
                            reason: self.reason,
                        },
                        OutboundAction::LoadContacts { user },
                    )
                },
                _ => self.close_outbound(ErrorKind::SubscriptionError),
            },
            Stage::AwaitingContacts => match event {
                OutboundEvent::Contacts(contacts) => {
                    let loaded = Session {
                        stage: self.stage,
                        user: self.user,
                        subscribed: self.subscribed,
                        contacts,
                        requested: 0,
                        reason: self.reason,
                    };
                    loaded.advance()
                },
                _ => self.close_outbound(ErrorKind::StoreError),
            },
            Stage::AwaitingHistory => match event {
                OutboundEvent::History(messages) => match encode_all(&messages) {
                    Some(frames) => if frames.len() == 0 {
                        self.advance()
                    } else {
                        (self.to(Stage::SendingHistory), OutboundAction::Send { frames })
                    },
                    None => self.close_outbound(ErrorKind::TransportError),
                },
                _ => self.close_outbound(ErrorKind::StoreError),
            },
            Stage::SendingHistory => match event {
                OutboundEvent::Sent => self.advance(),
                _ => self.close_outbound(ErrorKind::TransportError),
            },
            Stage::AwaitingNotification => match event {
                OutboundEvent::Notified(m) => match encode_message(&m) {
                    Some(frame) => {
                        let mut frames: Vec<String> = Vec::new();
                        frames.push(frame);
                        assert(texts(frames@) =~= seq![frame@]);
                        (self.to(Stage::SendingNotification), OutboundAction::Send { frames })
                    },
                    None => self.close_outbound(ErrorKind::TransportError),
                },
                _ => self.close_outbound(ErrorKind::ChannelClosed),
            },
            Stage::SendingNotification => match event {
                OutboundEvent::Sent => (
                    self.to(Stage::AwaitingNotification),
                    OutboundAction::Receive,
                ),
                _ => self.close_outbound(ErrorKind::TransportError),
            },
            Stage::Closed => (self, OutboundAction::Close { release_subscription: false }),
        }
    }

    fn inbound(self, event: InboundEvent) -> (r: (Session, InboundAction))
        ensures
            (r.0@, r.1@) == inbound_step(self@, event@),
    {
        match self.stage {
            Stage::Closed => (self, InboundAction::Close { release_subscription: false }),
            _ => match event {
                InboundEvent::Close => {
                    let (session, release_subscription) = self.end(CloseReason::ClientClosed);
                    (session, InboundAction::Close { release_subscription })
                },
                InboundEvent::Failed => {
                    let (session, release_subscription) = self.end(
                        CloseReason::Error(ErrorKind::TransportError),
                    );
                    (session, InboundAction::Close { release_subscription })
                },
                InboundEvent::Text(text) => match self.stage {
                    Stage::Connecting => (self, InboundAction::Report(ErrorKind::Unauthorized)),
                    _ => match decode_request(text.as_str(), self.user) {
                        Some(input) => (self, InboundAction::Append(input)),
                        None => (self, InboundAction::Report(ErrorKind::MalformedInput)),
                    },
                },
                InboundEvent::Binary | InboundEvent::Control | InboundEvent::Stored => (
                    self,
                    InboundAction::Continue,
                ),
                InboundEvent::StoreFailed => (self, InboundAction::Report(ErrorKind::StoreError)),
            },
        }
    }

    /// One step of the outbound half: takes the outcome of what the half last
    /// asked for, and answers what it asks for next.
    pub fn on_outbound(&mut self, event: OutboundEvent) -> (action: OutboundAction)
        ensures
            (final(self)@, action@) == outbound_step(old(self)@, event@),
            final(self)@.well_formed(),
    {
        let mut current = Session::new();
        core::mem::swap(self, &mut current);
        let (next, action) = current.outbound(event);
        proof {
            use_type_invariant(&next);
        }
        *self = next;
        action
    }

    /// One step of the inbound half: takes the next frame of the client, or
    /// the outcome of the append that the half last asked for, and answers
    /// what it asks for next.
    pub fn on_inbound(&mut self, event: InboundEvent) -> (action: InboundAction)
        ensures
            (final(self)@, action@) == inbound_step(old(self)@, event@),
            final(self)@.well_formed(),
    {
        let mut current = Session::new();
        core::mem::swap(self, &mut current);
        let (next, action) = current.inbound(event);
        proof {
            use_type_invariant(&next);
        }
        *self = next;
        action
    }
}

} // verus!
