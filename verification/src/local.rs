//! Sessions served from a store in memory: what stands around a session when
//! store, notification channel and client live in one process.
//!
//! The functions here do what a session asks for, and nothing else: they hold
//! no rule of their own. Their contracts say what a client then sees.

use crate::model::MessageView;
use crate::session::{
    encoded_all, ended, inbound_step, initial, texts, CloseReason, ErrorKind, InboundAction,
    InboundActionView, InboundEvent, OutboundAction, OutboundActionView, OutboundEvent,
    OutboundEventView, Session, SessionView, Stage,
};
use crate::store::{
    contact_set, conversation, lemma_conversation_exact, lemma_seam_at_least_once,
    next_message_id, next_sent_at, published_since, MessageLog, Subscription,
};
use crate::wire::encoded_message;
use vstd::prelude::*;

verus! {

/// The backlog of `user`: the conversations with these contacts, one after
/// the other.
pub open spec fn backlog(log: Seq<MessageView>, user: int, contacts: Seq<int>) -> Seq<MessageView>
    decreases contacts.len(),
{
    if contacts.len() == 0 {
        Seq::empty()
    } else {
        backlog(log, user, contacts.drop_last()) + conversation(log, user, contacts.last())
    }
}

/// The session of `user` once it has replayed the conversations with
/// `contacts` and waits for notifications.
pub open spec fn live(user: int, contacts: Seq<int>) -> SessionView {
    SessionView {
        stage: Stage::AwaitingNotification,
        user,
        subscribed: true,
        contacts,
        requested: contacts.len() as int,
        reason: None,
    }
}

/// The contacts are those that the log shows for `user`, each once.
pub open spec fn contacts_of(log: Seq<MessageView>, user: int, contacts: Seq<int>) -> bool {
    contacts.no_duplicates() && contacts.to_set() == contact_set(log, user)
}

/// The replay broke off at a conversation with a message that cannot be
/// encoded: `sent` are the frames of the conversations before it.
pub open spec fn broke_off(
    log: Seq<MessageView>,
    user: int,
    contacts: Seq<int>,
    sent: Seq<Seq<char>>,
) -> bool {
    exists|i: int|
        0 <= i < contacts.len() && encoded_all(backlog(log, user, #[trigger] contacts.take(i)))
            == Some(sent) && encoded_all(conversation(log, user, contacts[i])) is None
}

/// The delivery broke off at a message that cannot be encoded: `sent` are the
/// frames of the messages before it.
pub open spec fn stopped_short(waiting: Seq<MessageView>, sent: Seq<Seq<char>>) -> bool {
    exists|k: int|
        0 <= k < waiting.len() && encoded_all(#[trigger] waiting.take(k)) == Some(sent)
            && encoded_message(waiting[k]) is None
}

/// A session together with what its outbound half holds in this process.
pub struct Connection {
    /// The session.
    pub session: Session,
    /// The subscription of the session, while it has one.
    pub subscription: Option<Subscription>,
    /// The frames that were sent while the session replayed, in their order.
    pub replayed: Vec<String>,
}

proof fn lemma_encoded_all_concat(a: Seq<MessageView>, b: Seq<MessageView>)
    ensures
        encoded_all(a + b) == match (encoded_all(a), encoded_all(b)) {
            (Some(x), Some(y)) => Some(x + y),
            _ => None,
        },
{
    let whole = a + b;
    if encoded_all(a) is Some && encoded_all(b) is Some {
        assert forall|k: int| 0 <= k < whole.len() implies encoded_message(
            #[trigger] whole[k],
        ) is Some by {
            if k < a.len() {
                assert(whole[k] == a[k]);
            } else {
                assert(whole[k] == b[k - a.len()]);
            }
        }
        assert(encoded_all(whole)->0 =~= encoded_all(a)->0 + encoded_all(b)->0);
    } else if encoded_all(a) is None {
        let k = choose|k: int|
            0 <= k < a.len() && !(encoded_message(#[trigger] a[k]) is Some);
        assert(whole[k] == a[k]);
    } else {
        let k = choose|k: int|
            0 <= k < b.len() && !(encoded_message(#[trigger] b[k]) is Some);
        assert(whole[a.len() + k] == b[k]);
    }
}

proof fn lemma_backlog_step(log: Seq<MessageView>, user: int, contacts: Seq<int>, i: int)
    requires
        0 <= i < contacts.len(),
    ensures
        backlog(log, user, contacts.take(i + 1)) == backlog(log, user, contacts.take(i))
            + conversation(log, user, contacts[i]),
{
    assert(contacts.take(i + 1).drop_last() =~= contacts.take(i));
}

proof fn lemma_backlog_unencodable(log: Seq<MessageView>, user: int, contacts: Seq<int>, i: int)
    requires
        0 <= i <= contacts.len(),
        encoded_all(backlog(log, user, contacts.take(i))) is None,
    ensures
        encoded_all(backlog(log, user, contacts)) is None,
    decreases contacts.len() - i,
{
    if i < contacts.len() {
        lemma_backlog_step(log, user, contacts, i);
        lemma_encoded_all_concat(
            backlog(log, user, contacts.take(i)),
            conversation(log, user, contacts[i]),
        );
        lemma_backlog_unencodable(log, user, contacts, i + 1);
    } else {
        assert(contacts.take(i) =~= contacts);
    }
}

proof fn lemma_backlog_holds_conversation(
    log: Seq<MessageView>,
    user: int,
    contacts: Seq<int>,
    j: int,
    m: MessageView,
)
    requires
        0 <= j < contacts.len(),
        conversation(log, user, contacts[j]).contains(m),
    ensures
        backlog(log, user, contacts).contains(m),
    decreases contacts.len(),
{
    let earlier = backlog(log, user, contacts.drop_last());
    let newest = conversation(log, user, contacts.last());
    if j == contacts.len() - 1 {
        let k = choose|k: int| 0 <= k < newest.len() && newest[k] == m;
        assert((earlier + newest)[earlier.len() + k] == m);
    } else {
        lemma_backlog_holds_conversation(log, user, contacts.drop_last(), j, m);
        let k = choose|k: int| 0 <= k < earlier.len() && earlier[k] == m;
        assert((earlier + newest)[k] == m);
    }
}

/// The backlog leaves nothing out: it holds every stored message between the
/// user and another user.
pub proof fn lemma_backlog_is_complete(
    log: Seq<MessageView>,
    user: int,
    contacts: Seq<int>,
    m: MessageView,
)
    requires
        contacts.to_set() == contact_set(log, user),
        log.contains(m),
        m.involves(user),
        m.peer_of(user) != user,
    ensures
        backlog(log, user, contacts).contains(m),
{
    let peer = m.peer_of(user);
    let i = choose|i: int| 0 <= i < log.len() && log[i] == m;
    assert(log[i].involves(user) && log[i].peer_of(user) == peer);
    assert(contact_set(log, user).contains(peer));
    assert(contacts.to_set().contains(peer));
    let j = choose|j: int| 0 <= j < contacts.len() && contacts[j] == peer;
    lemma_conversation_exact(log, user, peer, m);
    lemma_backlog_holds_conversation(log, user, contacts, j, m);
}

/// The backlog adds nothing: whatever it holds is a stored message between
/// the user and one of the contacts. So where the contacts are those that the
/// log shows, it holds no note of the user to themselves.
pub proof fn lemma_backlog_is_sound(
    log: Seq<MessageView>,
    user: int,
    contacts: Seq<int>,
    m: MessageView,
)
    requires
        backlog(log, user, contacts).contains(m),
    ensures
        log.contains(m),
        m.involves(user),
        contacts.contains(m.peer_of(user)),
        contacts.to_set() == contact_set(log, user) ==> m.peer_of(user) != user,
    decreases contacts.len(),
{
    if contacts.len() > 0 {
        let earlier = backlog(log, user, contacts.drop_last());
        let newest = conversation(log, user, contacts.last());
        let k = choose|k: int| 0 <= k < (earlier + newest).len() && (earlier + newest)[k] == m;
        if k < earlier.len() {
            assert(earlier[k] == m);
            lemma_backlog_is_sound(log, user, contacts.drop_last(), m);
            let j = choose|j: int|
                0 <= j < contacts.drop_last().len() && contacts.drop_last()[j] == m.peer_of(user);
            assert(contacts[j] == m.peer_of(user));
        } else {
            assert(newest[k - earlier.len()] == m);
            lemma_conversation_exact(log, user, contacts.last(), m);
            assert(contacts[contacts.len() - 1] == m.peer_of(user));
        }
        assert(contacts.to_set().contains(m.peer_of(user)));
    }
}

/// No message is missed by a user who connects and then stays live. Let the
/// log hold `at_connect` messages when the user connects, and let it grow
/// while the session is live. Then every message that another user addressed
/// to the user is in the backlog that was replayed on connecting, or among the
/// messages that the subscription delivers; and so is a note of the user to
/// themselves, if it was stored after they connected.
pub proof fn lemma_no_message_is_missed(
    log: Seq<MessageView>,
    user: int,
    contacts: Seq<int>,
    at_connect: int,
    i: int,
)
    requires
        0 <= at_connect <= log.len(),
        contacts_of(log.take(at_connect), user, contacts),
        0 <= i < log.len(),
        log[i].receiver_id == user,
        at_connect <= i || log[i].sender_id != user,
    ensures
        backlog(log.take(at_connect), user, contacts).contains(log[i]) || published_since(
            log,
            user,
            at_connect,
        ).contains(log[i]),
{
    lemma_seam_at_least_once(log, user, at_connect, at_connect, at_connect, i);
    if i < at_connect {
        let seen = log.take(at_connect);
        assert(seen[i] == log[i]);
        lemma_backlog_is_complete(seen, user, contacts, log[i]);
    }
}

/// What holds of session, pending action and surroundings while a connection
/// replays.
spec fn replaying(
    log: Seq<MessageView>,
    user: int,
    s: SessionView,
    action: OutboundActionView,
    subscription: Option<Subscription>,
    sent: Seq<Seq<char>>,
) -> bool {
    let opened = subscription matches Some(sub) && sub.user() == user && sub.cursor() == log.len();
    let loaded = s.user == user && s.subscribed && s.reason is None && opened && contacts_of(
        log,
        user,
        s.contacts,
    ) && 1 <= s.requested <= s.contacts.len();
    match action {
        OutboundActionView::Subscribe { user: channel } => {
            &&& channel == user
            &&& s == SessionView { stage: Stage::Authenticated, user, ..initial() }
            &&& subscription is None
            &&& sent.len() == 0
        },
        OutboundActionView::LoadContacts { user: reader } => {
            &&& reader == user
            &&& s == SessionView {
                stage: Stage::AwaitingContacts,
                user,
                subscribed: true,
                ..initial()
            }
            &&& opened
            &&& sent.len() == 0
        },
        OutboundActionView::LoadHistory { user: reader, contact } => {
            &&& reader == user
            &&& s.stage == Stage::AwaitingHistory
            &&& loaded
            &&& contact == s.contacts[s.requested - 1]
            &&& encoded_all(backlog(log, user, s.contacts.take(s.requested - 1))) == Some(sent)
        },
        OutboundActionView::Send { frames } => {
            &&& s.stage == Stage::SendingHistory
            &&& loaded
            &&& encoded_all(backlog(log, user, s.contacts.take(s.requested - 1))) == Some(sent)
            &&& encoded_all(conversation(log, user, s.contacts[s.requested - 1])) == Some(frames)
        },
        OutboundActionView::Receive => {
            &&& s == live(user, s.contacts)
            &&& opened
            &&& contacts_of(log, user, s.contacts)
            &&& encoded_all(backlog(log, user, s.contacts)) == Some(sent)
        },
        OutboundActionView::Close { release_subscription } => {
            &&& release_subscription
            &&& s.stage == Stage::Closed
            &&& s.reason == Some(CloseReason::Error(ErrorKind::TransportError))
            &&& opened
            &&& contacts_of(log, user, s.contacts)
            &&& encoded_all(backlog(log, user, s.contacts)) is None
            &&& broke_off(log, user, s.contacts, sent)
        },
    }
}

/// How many of the steps before the replay of conversations a session has
/// still to take.
spec fn steps_before_replay(s: SessionView) -> int {
    match s.stage {
        Stage::Authenticated => 3,
        Stage::AwaitingContacts => 2,
        Stage::AwaitingHistory | Stage::SendingHistory => 1,
        _ => 0,
    }
}

/// How many steps a session that replays conversations has at most to take.
spec fn steps_of_replay(s: SessionView) -> int {
    match s.stage {
        Stage::AwaitingHistory => 2 * (s.contacts.len() - s.requested) + 2,
        Stage::SendingHistory => 2 * (s.contacts.len() - s.requested) + 1,
        _ => 0,
    }
}

/// Does for a session what its outbound half asks for, as far as the store in
/// memory can do it at once. Answers with the outcome to tell the session, or
/// with nothing where the half is to wait for a notification or to stop.
pub fn perform(
    log: &MessageLog,
    action: OutboundAction,
    subscription: &mut Option<Subscription>,
    sent: &mut Vec<String>,
) -> (outcome: Option<OutboundEvent>)
    ensures
        match action@ {
            OutboundActionView::Subscribe { user } => {
                &&& outcome matches Some(event) && event@ == OutboundEventView::Subscribed
                &&& *final(subscription) matches Some(sub) && sub.user() == user && sub.cursor()
                    == log@.len()
                &&& *final(sent) == *old(sent)
            },
            OutboundActionView::LoadContacts { user } => {
                &&& outcome matches Some(event) && event@ matches OutboundEventView::Contacts(
                    contacts,
                ) && contacts_of(log@, user, contacts)
                &&& *final(subscription) == *old(subscription)
                &&& *final(sent) == *old(sent)
            },
            OutboundActionView::LoadHistory { user, contact } => {
                &&& outcome matches Some(event) && event@ == OutboundEventView::History(
                    conversation(log@, user, contact),
                )
                &&& *final(subscription) == *old(subscription)
                &&& *final(sent) == *old(sent)
            },
            OutboundActionView::Send { frames } => {
                &&& outcome matches Some(event) && event@ == OutboundEventView::Sent
                &&& texts(final(sent)@) == texts(old(sent)@) + frames
                &&& *final(subscription) == *old(subscription)
            },
            OutboundActionView::Receive => {
                &&& outcome is None
                &&& *final(subscription) == *old(subscription)
                &&& *final(sent) == *old(sent)
            },
            OutboundActionView::Close { release_subscription } => {
                &&& outcome is None
                &&& *final(subscription) == if release_subscription {
                    None
                } else {
                    *old(subscription)
                }
                &&& *final(sent) == *old(sent)
            },
        },
{
    match action {
        OutboundAction::Subscribe { user } => {
            *subscription = Some(log.subscribe(user));
            Some(OutboundEvent::Subscribed)
        },
        OutboundAction::LoadContacts { user } => Some(OutboundEvent::Contacts(log.contacts(user))),
        OutboundAction::LoadHistory { user, contact } => Some(
            OutboundEvent::History(log.history(user, contact)),
        ),
        OutboundAction::Send { frames } => {
            let mut frames = frames;
            let ghost before = sent@;
            let ghost added = frames@;
            sent.append(&mut frames);
            assert(texts(before + added) =~= texts(before) + texts(added));
            Some(OutboundEvent::Sent)
        },
        OutboundAction::Receive => None,
        OutboundAction::Close { release_subscription } => {
            if release_subscription {
                *subscription = None;
            }
            None
        },
    }
}

/// Connects a user: runs the outbound half of a new session up to the point
/// where it waits for notifications, or has closed.
///
/// Without an identity the session closes as unauthorized, and no
/// subscription is ever opened. With one, the subscription is opened first.
/// Then the client is sent the backlog: the conversation with each contact of
/// the user, each as the log holds it now. What the user wrote to themselves
/// is no part of it: a user is not their own contact. After that the session
/// is live.
pub fn connect(log: &MessageLog, identity: Option<usize>) -> (r: Connection)
    ensures
        identity is None ==> {
            &&& r.session@ == ended(initial(), CloseReason::Error(ErrorKind::Unauthorized))
            &&& r.subscription is None
            &&& r.replayed@.len() == 0
        },
        identity matches Some(user) ==> {
            &&& contacts_of(log@, user as int, r.session@.contacts)
            &&& match encoded_all(backlog(log@, user as int, r.session@.contacts)) {
                Some(frames) => {
                    &&& texts(r.replayed@) == frames
                    &&& r.session@ == live(user as int, r.session@.contacts)
                    &&& r.subscription matches Some(sub) && sub.user() == user && sub.cursor()
                        == log@.len()
                },
                None => {
                    &&& r.session@.stage == Stage::Closed
                    &&& r.session@.reason == Some(CloseReason::Error(ErrorKind::TransportError))
                    &&& r.subscription is None
                    &&& broke_off(log@, user as int, r.session@.contacts, texts(r.replayed@))
                },
            }
        },
{
    let mut session = Session::new();
    let mut subscription: Option<Subscription> = None;
    let mut replayed: Vec<String> = Vec::new();
    let user = match identity {
        Some(user) => user,
        None => {
            let _ = session.on_outbound(OutboundEvent::Failed);
            return Connection { session, subscription, replayed };
        },
    };
    let mut action = session.on_outbound(OutboundEvent::Identity(user));
    assert(texts(replayed@) =~= Seq::<Seq<char>>::empty());
    loop
        invariant_except_break
            replaying(log@, user as int, session@, action@, subscription, texts(replayed@)),
        ensures
            contacts_of(log@, user as int, session@.contacts),
            match encoded_all(backlog(log@, user as int, session@.contacts)) {
                Some(frames) => {
                    &&& texts(replayed@) == frames
                    &&& session@ == live(user as int, session@.contacts)
                    &&& subscription matches Some(sub) && sub.user() == user && sub.cursor()
                        == log@.len()
                },
                None => {
                    &&& session@.stage == Stage::Closed
                    &&& session@.reason == Some(CloseReason::Error(ErrorKind::TransportError))
                    &&& subscription is None
                    &&& broke_off(log@, user as int, session@.contacts, texts(replayed@))
                },
            },
        decreases steps_before_replay(session@), steps_of_replay(session@),
    {
        let ghost s = session@;
        let ghost pending = action@;
        let ghost sent = texts(replayed@);
        match perform(log, action, &mut subscription, &mut replayed) {
            Some(event) => {
                proof {
                    let contacts = s.contacts;
                    let i = s.requested - 1;
                    if pending is LoadHistory {
                        let read = conversation(log@, user as int, contacts[i]);
                        lemma_backlog_step(log@, user as int, contacts, i);
                        lemma_encoded_all_concat(
                            backlog(log@, user as int, contacts.take(i)),
                            read,
                        );
                        if encoded_all(read) is None {
                            lemma_backlog_unencodable(log@, user as int, contacts, i + 1);
                            assert(encoded_all(backlog(log@, user as int, contacts.take(i)))
                                == Some(sent));
                        } else if read.len() == 0 {
                            assert(sent + encoded_all(read)->0 =~= sent);
                            assert(contacts.take(contacts.len() as int) =~= contacts);
                        }
                    }
                    if pending is Send {
                        lemma_backlog_step(log@, user as int, contacts, i);
                        lemma_encoded_all_concat(
                            backlog(log@, user as int, contacts.take(i)),
                            conversation(log@, user as int, contacts[i]),
                        );
                        assert(contacts.take(contacts.len() as int) =~= contacts);
                    }
                    if pending is LoadContacts {
                        let loaded = event@->Contacts_0;
                        assert(loaded.take(0) =~= Seq::<int>::empty());
                        assert(encoded_all(Seq::<MessageView>::empty())->0 =~= sent);
                    }
                }
                action = session.on_outbound(event);
            },
            None => {
                break ;
            },
        }
    }
    Connection { session, subscription, replayed }
}

impl Connection {
    /// Forwards to the client the notifications that wait for a live session:
    /// every message addressed to its user that was appended since the
    /// subscription last caught up, oldest first. Returns the frames sent.
    ///
    /// A session that is not live, or has no subscription, is left alone.
    pub fn deliver_pending(&mut self, log: &MessageLog) -> (frames: Vec<String>)
        ensures
            final(self).replayed == old(self).replayed,
            old(self).subscription matches Some(sub) ==> old(self).session@.stage
                == Stage::AwaitingNotification ==> match encoded_all(
                published_since(log@, sub.user(), sub.cursor()),
            ) {
                Some(sent) => {
                    &&& texts(frames@) == sent
                    &&& final(self).session@ == old(self).session@
                    &&& final(self).subscription matches Some(caught_up) && caught_up.user()
                        == sub.user() && published_since(
                        log@,
                        caught_up.user(),
                        caught_up.cursor(),
                    ).len() == 0
                },
                None => {
                    &&& final(self).session@ == ended(
                        old(self).session@,
                        CloseReason::Error(ErrorKind::TransportError),
                    )
                    &&& final(self).subscription is None
                    &&& stopped_short(
                        published_since(log@, sub.user(), sub.cursor()),
                        texts(frames@),
                    )
                },
            },
            !(old(self).session@.stage == Stage::AwaitingNotification && old(
                self,
            ).subscription is Some) ==> frames@.len() == 0 && *final(self) == *old(self),
    {
        let mut frames: Vec<String> = Vec::new();
        match self.session.stage() {
            Stage::AwaitingNotification => {},
            _ => {
                return frames;
            },
        }
        if self.subscription.is_none() {
            return frames;
        }
        let ghost user = old(self).subscription->0.user();
        let ghost waiting = published_since(log@, user, old(self).subscription->0.cursor());
        let ghost done = Seq::<MessageView>::empty();
        assert(texts(frames@) =~= encoded_all(done)->0);
        assert(waiting =~= done + waiting);
        loop
            invariant_except_break
                self.session@ == old(self).session@,
                self.session@.stage == Stage::AwaitingNotification,
                self.session@.well_formed(),
                self.replayed == old(self).replayed,
                self.subscription matches Some(sub) && sub.user() == user && waiting == done
                    + published_since(log@, user, sub.cursor()),
                encoded_all(done) == Some(texts(frames@)),
            ensures
                self.replayed == old(self).replayed,
                match encoded_all(waiting) {
                    Some(sent) => {
                        &&& texts(frames@) == sent
                        &&& self.session@ == old(self).session@
                        &&& self.subscription matches Some(caught_up) && caught_up.user() == user
                            && published_since(log@, user, caught_up.cursor()).len() == 0
                    },
                    None => {
                        &&& self.session@ == ended(
                            old(self).session@,
                            CloseReason::Error(ErrorKind::TransportError),
                        )
                        &&& self.subscription is None
                        &&& stopped_short(waiting, texts(frames@))
                    },
                },
            decreases published_since(log@, user, self.subscription->0.cursor()).len(),
        {
            let ghost rest = published_since(log@, user, self.subscription->0.cursor());
            let mut subscription = match self.subscription.take() {
                Some(subscription) => subscription,
                None => {
                    break ;
                },
            };
            let next = subscription.receive(log);
            self.subscription = Some(subscription);
            match next {
                None => {
                    assert(done + rest =~= done);
                    break ;
                },
                Some(m) => {
                    proof {
                        let one = seq![m@];
                        assert(rest =~= one + rest.drop_first());
                        assert(done + rest =~= (done + one) + rest.drop_first());
                        assert(one[0] == m@);
                        lemma_encoded_all_concat(done, one);
                        lemma_encoded_all_concat(done + one, rest.drop_first());
                        if encoded_message(m@) is Some {
                            assert(encoded_all(one)->0 =~= seq![encoded_message(m@)->0]);
                        } else {
                            let k = done.len() as int;
                            assert(waiting.take(k) =~= done);
                            assert(waiting[k] == m@);
                        }
                        done = done + one;
                    }
                    let action = self.session.on_outbound(OutboundEvent::Notified(m));
                    match perform(log, action, &mut self.subscription, &mut frames) {
                        Some(event) => {
                            let _ = self.session.on_outbound(event);
                        },
                        None => {
                            break ;
                        },
                    }
                },
            }
        }
        frames
    }

    /// Takes a frame of the client, or word that the connection failed, and
    /// does what the inbound half of the session asks for. A request to
    /// create a message is handed to the store, which stamps it with the
    /// clock reading `now`, and the outcome is told to the session. Returns
    /// what the half asks for after that.
    pub fn accept(&mut self, log: &mut MessageLog, event: InboundEvent, now: u64) -> (action:
        InboundAction)
        ensures
            final(self).replayed == old(self).replayed,
            ({
                let (session, asked) = inbound_step(old(self).session@, event@);
                &&& final(self).session@ == session
                &&& match asked {
                    InboundActionView::Append(input) => {
                        &&& final(self).subscription == old(self).subscription
                        &&& if next_message_id(old(log)@) <= usize::MAX {
                            &&& action@ == InboundActionView::Continue
                            &&& final(log)@ == old(log)@.push(
                                MessageView {
                                    message_id: next_message_id(old(log)@),
                                    sender_id: input.sender_id,
                                    receiver_id: input.receiver_id,
                                    content: input.content,
                                    sent_at: next_sent_at(old(log)@, now as int),
                                },
                            )
                        } else {
                            &&& action@ == InboundActionView::Report(ErrorKind::StoreError)
                            &&& final(log)@ == old(log)@
                        }
                    },
                    InboundActionView::Close { release_subscription } => {
                        &&& action@ == asked
                        &&& final(log)@ == old(log)@
                        &&& final(self).subscription == if release_subscription {
                            None
                        } else {
                            old(self).subscription
                        }
                    },
                    _ => {
                        &&& action@ == asked
                        &&& final(log)@ == old(log)@
                        &&& final(self).subscription == old(self).subscription
                    },
                }
            }),
    {
        match self.session.on_inbound(event) {
            InboundAction::Append(input) => {
                let outcome = match log.append(input, now) {
                    Ok(_) => InboundEvent::Stored,
                    Err(_) => InboundEvent::StoreFailed,
                };
                self.session.on_inbound(outcome)
            },
            InboundAction::Close { release_subscription } => {
                if release_subscription {
                    self.subscription = None;
                }
                InboundAction::Close { release_subscription }
            },
            asked => asked,
        }
    }
}

} // verus!
