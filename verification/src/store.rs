//! The durable message store as an append-only log, and a store that keeps
//! the log in memory.
//!
//! The log is the serialisation point of the system: a message exists once it
//! has been appended, it is then part of every later history read, and it is
//! offered to every subscription of its receiver that was open at that time.

use crate::model::{views, Message, MessageInput, MessageView};
use vstd::prelude::*;

verus! {

/// Identifiers strictly increase along the log and timestamps never go back.
pub open spec fn ordered(log: Seq<MessageView>) -> bool {
    forall|i: int, j: int|
        0 <= i < j < log.len() ==> log[i].message_id < log[j].message_id && log[i].sent_at
            <= log[j].sent_at
}

/// The conversation of `a` and `b`: the messages between the two, in either
/// direction, in the order of the log.
pub open spec fn conversation(log: Seq<MessageView>, a: int, b: int) -> Seq<MessageView> {
    log.filter(|m: MessageView| m.between(a, b))
}

/// The contacts of `user`: the other users at the far end of a message that
/// involves them. A user is never their own contact, whatever they wrote to
/// themselves.
pub open spec fn contact_set(log: Seq<MessageView>, user: int) -> Set<int> {
    Set::new(
        |c: int|
            c != user && exists|i: int|
                0 <= i < log.len() && #[trigger] log[i].involves(user) && log[i].peer_of(user)
                    == c,
    )
}

/// What a subscription of `user` that was opened when the log held `cursor`
/// messages has yet to receive: the later messages addressed to `user`.
pub open spec fn published_since(log: Seq<MessageView>, user: int, cursor: int) -> Seq<
    MessageView,
> {
    if 0 <= cursor < log.len() {
        log.skip(cursor).filter(|m: MessageView| m.receiver_id == user)
    } else {
        Seq::empty()
    }
}

/// The identifier that the next appended message gets.
pub open spec fn next_message_id(log: Seq<MessageView>) -> int {
    if log.len() == 0 {
        1
    } else {
        log.last().message_id + 1
    }
}

/// The timestamp that a message appended at clock reading `now` gets: `now`,
/// unless the clock went back behind the newest stored message.
pub open spec fn next_sent_at(log: Seq<MessageView>, now: int) -> int {
    if log.len() > 0 && log.last().sent_at > now {
        log.last().sent_at
    } else {
        now
    }
}

/// The one failure kind of the store.
#[derive(Debug, PartialEq, Eq, Clone, Copy)]
pub struct StoreError;

/// A message store that keeps the log in memory.
pub struct MessageLog {
    rows: Vec<Message>,
}

impl View for MessageLog {
    type V = Seq<MessageView>;

    closed spec fn view(&self) -> Seq<MessageView> {
        views(self.rows@)
    }
}

proof fn lemma_views_push(messages: Seq<Message>, m: Message)
    ensures
        views(messages.push(m)) == views(messages).push(m@),
{
    assert(views(messages.push(m)) =~= views(messages).push(m@));
}

proof fn lemma_filter_take_step<A>(s: Seq<A>, pred: spec_fn(A) -> bool, i: int)
    requires
        0 <= i < s.len(),
    ensures
        s.take(i + 1).filter(pred) == if pred(s[i]) {
            s.take(i).filter(pred).push(s[i])
        } else {
            s.take(i).filter(pred)
        },
{
    reveal(Seq::filter);
    assert(s.take(i + 1).drop_last() =~= s.take(i));
}

proof fn lemma_filter_keeps_order(log: Seq<MessageView>, pred: spec_fn(MessageView) -> bool)
    requires
        ordered(log),
    ensures
        ordered(log.filter(pred)),
    decreases log.len(),
{
    reveal(Seq::filter);
    if log.len() > 0 {
        let init = log.drop_last();
        let last = log.last();
        lemma_filter_keeps_order(init, pred);
        let kept = init.filter(pred);
        if pred(last) {
            let grown = kept.push(last);
            assert forall|i: int, j: int| 0 <= i < j < grown.len() implies grown[i].message_id
                < grown[j].message_id && grown[i].sent_at <= grown[j].sent_at by {
                if j == kept.len() {
                    assert(kept.contains(kept[i]));
                    init.lemma_filter_contains_rev(pred, kept[i]);
                    let k = choose|k: int| 0 <= k < init.len() && init[k] == kept[i];
                    assert(log[k] == kept[i] && log[log.len() - 1] == last);
                } else {
                    assert(grown[i] == kept[i] && grown[j] == kept[j]);
                }
            }
        }
    }
}

/// A conversation is read out of the log in the order of the log: its
/// identifiers strictly increase, so a replay of it never steps back.
pub proof fn lemma_conversation_ordered(log: Seq<MessageView>, a: int, b: int)
    requires
        ordered(log),
    ensures
        ordered(conversation(log, a, b)),
{
    lemma_filter_keeps_order(log, |m: MessageView| m.between(a, b));
}

/// A subscription hands out its messages in the order of the log: live
/// messages arrive in the order in which they were published.
pub proof fn lemma_published_ordered(log: Seq<MessageView>, user: int, cursor: int)
    requires
        ordered(log),
    ensures
        ordered(published_since(log, user, cursor)),
{
    if 0 <= cursor < log.len() {
        let later = log.skip(cursor);
        assert forall|i: int, j: int| 0 <= i < j < later.len() implies later[i].message_id
            < later[j].message_id && later[i].sent_at <= later[j].sent_at by {
            assert(later[i] == log[cursor + i] && later[j] == log[cursor + j]);
        }
        lemma_filter_keeps_order(later, |m: MessageView| m.receiver_id == user);
    }
}

/// Storing and publishing do not come apart. Once a message is appended it is
/// part of the conversation of its sender and its receiver, and it waits for
/// every subscription of its receiver that was open before.
pub proof fn lemma_appended_is_stored_and_published(
    log: Seq<MessageView>,
    m: MessageView,
    cursor: int,
)
    requires
        0 <= cursor <= log.len(),
    ensures
        conversation(log.push(m), m.sender_id, m.receiver_id).contains(m),
        conversation(log.push(m), m.receiver_id, m.sender_id).contains(m),
        published_since(log.push(m), m.receiver_id, cursor).contains(m),
{
    let grown = log.push(m);
    let n = log.len() as int;
    assert(grown[n] == m);
    grown.lemma_filter_contains(|x: MessageView| x.between(m.sender_id, m.receiver_id), n);
    grown.lemma_filter_contains(|x: MessageView| x.between(m.receiver_id, m.sender_id), n);
    let later = grown.skip(cursor);
    assert(later[n - cursor] == m);
    later.lemma_filter_contains(|x: MessageView| x.receiver_id == m.receiver_id, n - cursor);
}

/// A conversation holds exactly the stored messages between the two users:
/// none is left out and none is added.
pub proof fn lemma_conversation_exact(log: Seq<MessageView>, a: int, b: int, m: MessageView)
    ensures
        conversation(log, a, b).contains(m) <==> log.contains(m) && m.between(a, b),
{
    let pred = |m: MessageView| m.between(a, b);
    if conversation(log, a, b).contains(m) {
        log.lemma_filter_contains_rev(pred, m);
        let k = choose|k: int| 0 <= k < log.filter(pred).len() && log.filter(pred)[k] == m;
        log.lemma_filter_pred(pred, k);
    }
    if log.contains(m) && m.between(a, b) {
        let k = choose|k: int| 0 <= k < log.len() && log[k] == m;
        log.lemma_filter_contains(pred, k);
    }
}

/// A conversation does not depend on which of the two users asks for it.
pub proof fn lemma_conversation_symmetric(log: Seq<MessageView>, a: int, b: int)
    ensures
        conversation(log, a, b) == conversation(log, b, a),
{
    let forth = |m: MessageView| m.between(a, b);
    let back = |m: MessageView| m.between(b, a);
    assert(forth =~= back);
}

/// No message is lost between replay and live delivery. Take a user who
/// subscribed when the log held `subscribed_at` messages, then read their
/// contacts at `contacts_at` and then the history with a contact at `read_at`,
/// while the log kept growing. A message addressed to the user is then
/// delivered live if it was appended after the subscription was opened, and
/// in the replayed history of its sender if another user sent it and it was
/// there when the contacts were read. A message appended between the two is
/// delivered both ways. The one message that neither way delivers is a note
/// to oneself that was stored before the subscription was opened: a user is
/// not their own contact.
pub proof fn lemma_seam_at_least_once(
    log: Seq<MessageView>,
    user: int,
    subscribed_at: int,
    contacts_at: int,
    read_at: int,
    i: int,
)
    requires
        0 <= subscribed_at <= contacts_at <= read_at <= log.len(),
        0 <= i < log.len(),
        log[i].receiver_id == user,
    ensures
        subscribed_at <= i ==> published_since(log, user, subscribed_at).contains(log[i]),
        i < contacts_at && log[i].sender_id != user ==> contact_set(
            log.take(contacts_at),
            user,
        ).contains(log[i].sender_id),
        i < read_at ==> conversation(log.take(read_at), user, log[i].sender_id).contains(log[i]),
        subscribed_at <= i || log[i].sender_id != user ==> published_since(
            log,
            user,
            subscribed_at,
        ).contains(log[i]) || (contact_set(log.take(contacts_at), user).contains(
            log[i].sender_id,
        ) && conversation(log.take(read_at), user, log[i].sender_id).contains(log[i])),
{
    let m = log[i];
    if subscribed_at <= i {
        let later = log.skip(subscribed_at);
        let pred = |m: MessageView| m.receiver_id == user;
        assert(later[i - subscribed_at] == m);
        later.lemma_filter_contains(pred, i - subscribed_at);
    }
    if i < contacts_at {
        let seen = log.take(contacts_at);
        assert(seen[i].involves(user) && seen[i].peer_of(user) == m.sender_id);
    }
    if i < read_at {
        let seen = log.take(read_at);
        let pred = |x: MessageView| x.between(user, m.sender_id);
        assert(seen[i] == m);
        seen.lemma_filter_contains(pred, i);
    }
}

/// User identifiers as mathematical integers, in the same order.
pub open spec fn user_ids(ids: Seq<usize>) -> Seq<int> {
    ids.map_values(|id: usize| id as int)
}

proof fn lemma_contact_set_step(log: Seq<MessageView>, user: int, i: int)
    requires
        0 <= i < log.len(),
    ensures
        contact_set(log.take(i + 1), user) == if log[i].involves(user) && log[i].peer_of(user)
            != user {
            contact_set(log.take(i), user).insert(log[i].peer_of(user))
        } else {
            contact_set(log.take(i), user)
        },
{
    let longer = log.take(i + 1);
    let shorter = log.take(i);
    let grown = if log[i].involves(user) && log[i].peer_of(user) != user {
        contact_set(shorter, user).insert(log[i].peer_of(user))
    } else {
        contact_set(shorter, user)
    };
    assert forall|c: int| contact_set(longer, user).contains(c) implies grown.contains(c) by {
        let k = choose|k: int|
            0 <= k < longer.len() && #[trigger] longer[k].involves(user) && longer[k].peer_of(user)
                == c;
        if k < i {
            assert(shorter[k].involves(user) && shorter[k].peer_of(user) == c);
        }
    }
    assert forall|c: int| grown.contains(c) implies contact_set(longer, user).contains(c) by {
        if contact_set(shorter, user).contains(c) {
            let k = choose|k: int|
                0 <= k < shorter.len() && #[trigger] shorter[k].involves(user)
                    && shorter[k].peer_of(user) == c;
            assert(longer[k].involves(user) && longer[k].peer_of(user) == c);
        } else {
            assert(longer[i].involves(user) && longer[i].peer_of(user) == c);
        }
    }
    assert(contact_set(longer, user) =~= grown);
}

proof fn lemma_published_step(log: Seq<MessageView>, user: int, cursor: int)
    requires
        0 <= cursor < log.len(),
    ensures
        published_since(log, user, cursor) == if log[cursor].receiver_id == user {
            seq![log[cursor]] + published_since(log, user, cursor + 1)
        } else {
            published_since(log, user, cursor + 1)
        },
{
    let pred = |m: MessageView| m.receiver_id == user;
    let head = seq![log[cursor]];
    let tail = log.skip(cursor + 1);
    assert(log.skip(cursor) =~= head + tail);
    Seq::filter_distributes_over_add(head, tail, pred);
    assert(head.filter(pred) =~= if pred(log[cursor]) {
        head
    } else {
        Seq::empty()
    }) by {
        reveal_with_fuel(Seq::filter, 2);
        assert(head.drop_last() =~= Seq::<MessageView>::empty());
    }
    assert(tail.filter(pred) =~= published_since(log, user, cursor + 1)) by {
        reveal(Seq::filter);
    }
    assert(Seq::<MessageView>::empty() + tail.filter(pred) =~= tail.filter(pred));
}

fn contains_id(ids: &Vec<usize>, id: usize) -> (found: bool)
    ensures
        found == ids@.contains(id),
{
    let mut k: usize = 0;
    while k < ids.len()
        invariant
            k <= ids.len(),
            forall|j: int| 0 <= j < k ==> ids[j] != id,
        decreases ids.len() - k,
    {
        if ids[k] == id {
            return true;
        }
        k += 1;
    }
    false
}

impl MessageLog {
    #[verifier::type_invariant]
    spec fn well_formed(self) -> bool {
        ordered(views(self.rows@))
    }

    /// An empty store.
    pub fn new() -> (r: MessageLog)
        ensures
            r@ == Seq::<MessageView>::empty(),
    {
        let r = MessageLog { rows: Vec::new() };
        assert(views(r.rows@) =~= Seq::<MessageView>::empty());
        r
    }

    /// The number of stored messages.
    pub fn len(&self) -> (n: usize)
        ensures
            n == self@.len(),
            ordered(self@),
    {
        proof {
            use_type_invariant(self);
        }
        self.rows.len()
    }

    /// Stores a message and publishes it to the subscriptions of its receiver,
    /// as one operation. The store assigns the identifier and the timestamp.
    /// Fails, and stores nothing, exactly when the identifiers are used up.
    pub fn append(&mut self, input: MessageInput, now: u64) -> (r: Result<Message, StoreError>)
        ensures
            r is Ok <==> next_message_id(old(self)@) <= usize::MAX,
            r is Err ==> final(self)@ == old(self)@,
            r matches Ok(m) ==> {
                &&& final(self)@ == old(self)@.push(m@)
                &&& m@.message_id == next_message_id(old(self)@)
                &&& m@.sender_id == input@.sender_id
                &&& m@.receiver_id == input@.receiver_id
                &&& m@.content == input@.content
                &&& m@.sent_at == next_sent_at(old(self)@, now as int)
            },
            ordered(final(self)@),
    {
        proof {
            use_type_invariant(&*self);
        }
        let n = self.rows.len();
        let mut message_id: usize = 1;
        let mut sent_at: u64 = now;
        if n > 0 {
            let last = &self.rows[n - 1];
            if last.message_id == usize::MAX {
                return Err(StoreError);
            }
            message_id = last.message_id + 1;
            if last.sent_at > now {
                sent_at = last.sent_at;
            }
        }
        let stored = Message {
            message_id,
            sender_id: input.sender_id,
            receiver_id: input.receiver_id,
            content: input.content,
            sent_at,
        };
        let published = stored.clone();
        proof {
            lemma_views_push(self.rows@, stored);
        }
        // The rows leave the log while they grow, so that the log is well
        // formed wherever `push` could unwind.
        let mut rows: Vec<Message> = Vec::new();
        core::mem::swap(&mut self.rows, &mut rows);
        rows.push(stored);
        proof {
            let before = views(old(self).rows@);
            let after = views(rows@);
            assert forall|i: int, j: int| 0 <= i < j < after.len() implies after[i].message_id
                < after[j].message_id && after[i].sent_at <= after[j].sent_at by {
                if j == n {
                    assert(i == n - 1 || before[i].message_id < before[n - 1].message_id);
                    assert(i == n - 1 || before[i].sent_at <= before[n - 1].sent_at);
                } else {
                    assert(after[i] == before[i] && after[j] == before[j]);
                }
            }
        }
        self.rows = rows;
        Ok(published)
    }

    /// All messages between the two users, oldest first.
    pub fn history(&self, user_a: usize, user_b: usize) -> (r: Vec<Message>)
        ensures
            views(r@) == conversation(self@, user_a as int, user_b as int),
            ordered(views(r@)),
            ordered(self@),
    {
        proof {
            use_type_invariant(self);
        }
        let ghost log = views(self.rows@);
        let ghost pred = |m: MessageView| m.between(user_a as int, user_b as int);
        let mut out: Vec<Message> = Vec::new();
        let mut i: usize = 0;
        assert(views(out@) =~= log.take(0).filter(pred)) by {
            reveal(Seq::filter);
        }
        while i < self.rows.len()
            invariant
                i <= self.rows.len(),
                log == views(self.rows@),
                pred == |m: MessageView| m.between(user_a as int, user_b as int),
                views(out@) == log.take(i as int).filter(pred),
            decreases self.rows.len() - i,
        {
            let m = &self.rows[i];
            proof {
                lemma_filter_take_step(log, pred, i as int);
            }
            if (m.sender_id == user_a && m.receiver_id == user_b) || (m.sender_id == user_b
                && m.receiver_id == user_a) {
                proof {
                    lemma_views_push(out@, *m);
                }
                out.push(m.clone());
            }
            i += 1;
        }
        assert(log.take(i as int) =~= log);
        proof {
            use_type_invariant(self);
            lemma_conversation_ordered(log, user_a as int, user_b as int);
        }
        out
    }

    /// A store that holds `rows`, which must be in the order of a log:
    /// identifiers strictly increasing, timestamps never going back.
    pub fn from_rows(rows: Vec<Message>) -> (r: Option<MessageLog>)
        ensures
            r is Some <==> ordered(views(rows@)),
            r matches Some(log) ==> log@ == views(rows@),
    {
        let ghost log = views(rows@);
        if rows.len() == 0 {
            return Some(MessageLog { rows });
        }
        let mut i: usize = 1;
        while i < rows.len()
            invariant
                1 <= i <= rows.len(),
                log == views(rows@),
                ordered(log.take(i as int)),
            decreases rows.len() - i,
        {
            let earlier = &rows[i - 1];
            let later = &rows[i];
            if !(earlier.message_id < later.message_id && earlier.sent_at <= later.sent_at) {
                assert(!(log[i - 1].message_id < log[i as int].message_id && log[i - 1].sent_at
                    <= log[i as int].sent_at));
                return None;
            }
            proof {
                let shorter = log.take(i as int);
                let longer = log.take(i + 1);
                assert forall|a: int, b: int| 0 <= a < b < longer.len() implies longer[a].message_id
                    < longer[b].message_id && longer[a].sent_at <= longer[b].sent_at by {
                    if b == i {
                        assert(a == i - 1 || (shorter[a].message_id < shorter[i - 1].message_id
                            && shorter[a].sent_at <= shorter[i - 1].sent_at));
                    } else {
                        assert(longer[a] == shorter[a] && longer[b] == shorter[b]);
                    }
                }
            }
            i += 1;
        }
        assert(log.take(i as int) =~= log);
        Some(MessageLog { rows })
    }

    /// The other users that `user` has exchanged messages with, each once, in
    /// no particular order.
    pub fn contacts(&self, user: usize) -> (r: Vec<usize>)
        ensures
            r@.no_duplicates(),
            user_ids(r@).to_set() == contact_set(self@, user as int),
            ordered(self@),
    {
        proof {
            use_type_invariant(self);
        }
        let ghost log = views(self.rows@);
        let mut out: Vec<usize> = Vec::new();
        let mut i: usize = 0;
        assert(user_ids(out@).to_set() =~= contact_set(log.take(0), user as int));
        while i < self.rows.len()
            invariant
                i <= self.rows.len(),
                log == views(self.rows@),
                out@.no_duplicates(),
                user_ids(out@).to_set() == contact_set(log.take(i as int), user as int),
            decreases self.rows.len() - i,
        {
            let m = &self.rows[i];
            proof {
                lemma_contact_set_step(log, user as int, i as int);
            }
            let peer = if m.sender_id == user {
                m.receiver_id
            } else {
                m.sender_id
            };
            if (m.sender_id == user || m.receiver_id == user) && peer != user {
                let ghost before = out@;
                assert(before.contains(peer) <==> user_ids(before).to_set().contains(peer as int))
                    by {
                    if before.contains(peer) {
                        let k = choose|k: int| 0 <= k < before.len() && before[k] == peer;
                        assert(user_ids(before)[k] == peer as int);
                    }
                    if user_ids(before).to_set().contains(peer as int) {
                        let k = choose|k: int|
                            0 <= k < user_ids(before).len() && user_ids(before)[k] == peer as int;
                        assert(before[k] == peer);
                    }
                }
                if !contains_id(&out, peer) {
                    out.push(peer);
                    proof {
                        assert(user_ids(out@) =~= user_ids(before).push(peer as int));
                        assert(user_ids(out@).to_set() =~= user_ids(before).to_set().insert(
                            peer as int,
                        )) by {
                            assert forall|c: int|
                                user_ids(before).to_set().insert(peer as int).contains(
                                    c,
                                ) implies user_ids(out@).contains(c) by {
                                if c == peer as int {
                                    assert(user_ids(out@)[before.len() as int] == c);
                                } else {
                                    let k = choose|k: int|
                                        0 <= k < user_ids(before).len() && user_ids(before)[k]
                                            == c;
                                    assert(user_ids(out@)[k] == c);
                                }
                            }
                        }
                    }
                } else {
                    assert(user_ids(before).to_set().insert(peer as int) =~= user_ids(
                        before,
                    ).to_set());
                }
            }
            i += 1;
        }
        assert(log.take(i as int) =~= log);
        out
    }

    /// Opens a subscription to the messages addressed to `user`. It carries no
    /// backlog: only messages appended from now on reach it.
    pub fn subscribe(&self, user: usize) -> (s: Subscription)
        ensures
            s.user() == user,
            s.cursor() == self@.len(),
            ordered(self@),
    {
        proof {
            use_type_invariant(self);
        }
        Subscription { user, cursor: self.rows.len() }
    }
}

/// A subscription to the messages addressed to one user: the in-memory form of
/// a per-user notification channel.
///
/// It reads from the log, so it loses nothing however long its consumer
/// stalls. A channel with a bounded buffer makes no such promise: what it
/// drops is found again only in the history, on the next connect.
pub struct Subscription {
    user: usize,
    cursor: usize,
}

impl Subscription {
    /// The user whose channel this is.
    pub closed spec fn user(&self) -> int {
        self.user as int
    }

    /// How many messages of the log lie behind the subscription.
    pub closed spec fn cursor(&self) -> int {
        self.cursor as int
    }

    /// Takes the next message addressed to the subscribed user, the oldest
    /// first, or nothing when none is waiting.
    pub fn receive(&mut self, log: &MessageLog) -> (r: Option<Message>)
        ensures
            final(self).user() == old(self).user(),
            old(self).cursor() <= final(self).cursor(),
            r is Some <==> published_since(log@, old(self).user(), old(self).cursor()).len() > 0,
            r matches Some(m) ==> m@ == published_since(
                log@,
                old(self).user(),
                old(self).cursor(),
            ).first(),
            published_since(log@, final(self).user(), final(self).cursor()) == if r is Some {
                published_since(log@, old(self).user(), old(self).cursor()).drop_first()
            } else {
                Seq::<MessageView>::empty()
            },
    {
        let ghost rows = views(log.rows@);
        let ghost waiting = published_since(rows, self.user as int, self.cursor as int);
        let mut k: usize = self.cursor;
        while k < log.rows.len()
            invariant
                self.cursor <= k,
                *self == *old(self),
                rows == views(log.rows@),
                waiting == published_since(rows, self.user as int, self.cursor as int),
                waiting == published_since(rows, self.user as int, k as int),
            decreases log.rows.len() - k,
        {
            let m = &log.rows[k];
            proof {
                lemma_published_step(rows, self.user as int, k as int);
            }
            if m.receiver_id == self.user {
                self.cursor = k + 1;
                assert(waiting.drop_first() =~= published_since(
                    rows,
                    self.user as int,
                    k + 1,
                ));
                return Some(m.clone());
            }
            k += 1;
        }
        if self.cursor < log.rows.len() {
            self.cursor = log.rows.len();
        }
        None
    }
}

} // verus!
