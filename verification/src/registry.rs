//! The channel registry: one broadcast topic per ticket.
//!
//! The registry owns the map from ticket identifier to topic. A topic is
//! created lazily on first demand and never removed; creation is
//! idempotent, so at most one topic ever exists for a ticket. Each
//! subscriber of a topic has its own bounded feed: publishing appends the
//! message to the feed of every live subscriber with room, and a
//! subscriber whose feed is full is cut off (marked lagged) instead of
//! stalling anyone else.
//!
//! The callers serialize access to the registry (one short critical
//! section around each operation); what is verified here is what each
//! operation does to the mapping and to the subscriber feeds.

use vstd::prelude::*;

use crate::ids::TicketId;
use crate::message::ChatMessage;

verus! {

/// One subscriber's side of a topic: its identifier within the topic,
/// whether it is still live, and the bounded feed of messages published
/// since it subscribed and not yet taken.
pub struct Subscriber {
    pub sub_id: u64,
    pub live: bool,
    pub feed: Vec<ChatMessage>,
}

/// The broadcast topic of one ticket.
pub struct Topic {
    pub ticket_id: TicketId,
    pub next_sub_id: u64,
    pub subs: Vec<Subscriber>,
}

/// Process-wide state: the ticket-to-topic mapping and the bound on every
/// subscriber feed.
pub struct Registry {
    pub capacity: usize,
    pub topics: Vec<Topic>,
}

/// A connection's live handle to one topic. It is not copyable: a
/// connection holds exactly one for the lifetime of its socket and gives
/// it back on teardown.
pub struct Subscription {
    pub ticket_id: TicketId,
    pub sub_id: u64,
}

/// What a subscriber sees when it asks for its next message.
pub enum PollOutcome {
    /// The next published message, in publish order.
    Delivered(ChatMessage),
    /// Nothing published yet; ask again later.
    Pending,
    /// This subscriber fell behind and was cut off; its connection must
    /// tear down.
    Lagged,
    /// The subscription is not registered (it was already released).
    Gone,
}

/// Whether some topic in `s` belongs to ticket `t`.
pub open spec fn has_topic(s: Seq<Topic>, t: u128) -> bool {
    exists|i: int| 0 <= i < s.len() && s[i].ticket_id.0 == t
}

/// The index of the topic of ticket `t` (meaningful when `has_topic` holds
/// and indices are unique, as `Registry::wf` guarantees).
pub open spec fn topic_pos(s: Seq<Topic>, t: u128) -> int {
    choose|i: int| 0 <= i < s.len() && s[i].ticket_id.0 == t
}

/// Whether some subscriber in `s` has identifier `id`.
pub open spec fn has_sub(s: Seq<Subscriber>, id: u64) -> bool {
    exists|j: int| 0 <= j < s.len() && s[j].sub_id == id
}

/// The index of the subscriber with identifier `id`.
pub open spec fn sub_pos(s: Seq<Subscriber>, id: u64) -> int {
    choose|j: int| 0 <= j < s.len() && s[j].sub_id == id
}

/// A subscriber that was just added: live, with an empty feed.
pub open spec fn is_fresh_sub(s: Subscriber, id: u64) -> bool {
    s.sub_id == id && s.live && s.feed@.len() == 0
}

/// How one subscriber changes when `m` is published to its topic: a live
/// subscriber with room receives `m` at the back of its feed; a live
/// subscriber whose feed is full is cut off with its feed intact; a dead
/// subscriber is untouched.
pub open spec fn sub_published(before: Subscriber, after: Subscriber, m: ChatMessage, cap: int) -> bool {
    &&& after.sub_id == before.sub_id
    &&& if !before.live {
            after == before
        } else if before.feed@.len() < cap {
            after.live && after.feed@ == before.feed@.push(m)
        } else {
            !after.live && after.feed@ == before.feed@
        }
}

/// How a whole topic changes when `m` is published to it: same ticket,
/// same subscribers in the same order, each feed updated as
/// `sub_published` says.
pub open spec fn topic_published(before: Topic, after: Topic, m: ChatMessage, cap: int) -> bool {
    &&& after.ticket_id == before.ticket_id
    &&& after.next_sub_id == before.next_sub_id
    &&& after.subs@.len() == before.subs@.len()
    &&& forall|j: int| 0 <= j < before.subs@.len()
            ==> sub_published(before.subs@[j], #[trigger] after.subs@[j], m, cap)
}

/// How the whole registry changes when `m` is published: the mapping and
/// the feed bound stay as they are, every topic of another ticket is
/// untouched, and the topic of `m`'s ticket — if one exists — is updated
/// as `topic_published` says. A ticket with no topic absorbs the publish.
pub open spec fn registry_published(before: Registry, after: Registry, m: ChatMessage) -> bool {
    &&& after.capacity == before.capacity
    &&& before.same_tickets(after)
    &&& forall|i: int|
            0 <= i < before.topics@.len()
                && (#[trigger] before.topics@[i]).ticket_id.0 != m.ticket_id.0
                ==> after.topics@[i] == before.topics@[i]
    &&& forall|i: int|
            0 <= i < before.topics@.len()
                && (#[trigger] before.topics@[i]).ticket_id.0 == m.ticket_id.0
                ==> topic_published(before.topics@[i], after.topics@[i], m, before.capacity as int)
}

impl Topic {
    /// Internal consistency of one topic: subscriber identifiers are
    /// unique, below the allocation counter, and every feed respects the
    /// bound.
    pub open spec fn wf(self, cap: int) -> bool {
        &&& forall|j: int| 0 <= j < self.subs@.len()
                ==> (#[trigger] self.subs@[j]).sub_id < self.next_sub_id
        &&& forall|j: int, k: int|
                0 <= j < self.subs@.len() && 0 <= k < self.subs@.len() && j != k
                    ==> (#[trigger] self.subs@[j]).sub_id != (#[trigger] self.subs@[k]).sub_id
        &&& forall|j: int| 0 <= j < self.subs@.len()
                ==> (#[trigger] self.subs@[j]).feed@.len() <= cap
    }
}

impl Registry {
    /// Internal consistency of the registry: a positive feed bound, at
    /// most one topic per ticket, and every topic well formed.
    pub open spec fn wf(self) -> bool {
        &&& self.capacity >= 1
        &&& forall|i: int, k: int|
                0 <= i < self.topics@.len() && 0 <= k < self.topics@.len() && i != k
                    ==> (#[trigger] self.topics@[i]).ticket_id.0
                        != (#[trigger] self.topics@[k]).ticket_id.0
        &&& forall|i: int| 0 <= i < self.topics@.len()
                ==> (#[trigger] self.topics@[i]).wf(self.capacity as int)
    }

    /// The tickets of the registry are unchanged between `self` and `r`:
    /// same topics, in order, by ticket.
    pub open spec fn same_tickets(self, r: Registry) -> bool {
        &&& r.topics@.len() == self.topics@.len()
        &&& forall|i: int| 0 <= i < self.topics@.len()
                ==> (#[trigger] r.topics@[i]).ticket_id == self.topics@[i].ticket_id
    }

    /// An empty registry whose subscriber feeds will hold at most
    /// `capacity` pending messages each.
    pub fn new(capacity: usize) -> (r: Registry)
        requires
            capacity >= 1,
        ensures
            r.wf(),
            r.capacity == capacity,
            r.topics@.len() == 0,
    {
        Registry { capacity, topics: Vec::new() }
    }

    /// The index of the topic of ticket `t`, if one exists.
    pub fn find_topic(&self, t: TicketId) -> (r: Option<usize>)
        ensures
            match r {
                Some(i) => i < self.topics@.len() && self.topics@[i as int].ticket_id.0 == t.0,
                None => !has_topic(self.topics@, t.0),
            },
    {
        let n = self.topics.len();
        let mut i: usize = 0;
        while i < n
            invariant
                i <= n,
                n == self.topics@.len(),
                forall|k: int| 0 <= k < i ==> (#[trigger] self.topics@[k]).ticket_id.0 != t.0,
            decreases n - i,
        {
            if self.topics[i].ticket_id.0 == t.0 {
                return Some(i);
            }
            i = i + 1;
        }
        None
    }

    /// Return the index of the topic of ticket `t`, creating the topic if
    /// none exists yet. Creation is idempotent: when the topic is already
    /// there, the registry is left exactly as it was.
    pub fn get_or_create(&mut self, t: TicketId) -> (i: usize)
        requires
            old(self).wf(),
        ensures
            final(self).wf(),
            final(self).capacity == old(self).capacity,
            i < final(self).topics@.len(),
            final(self).topics@[i as int].ticket_id.0 == t.0,
            has_topic(old(self).topics@, t.0) ==> *final(self) == *old(self),
            !has_topic(old(self).topics@, t.0) ==> {
                &&& final(self).topics@.len() == old(self).topics@.len() + 1
                &&& i == old(self).topics@.len()
                &&& forall|k: int| 0 <= k < old(self).topics@.len()
                        ==> final(self).topics@[k] == old(self).topics@[k]
                &&& final(self).topics@[i as int].next_sub_id == 0
                &&& final(self).topics@[i as int].subs@.len() == 0
            },
    {
        match self.find_topic(t) {
            Some(i) => i,
            None => {
                let i = self.topics.len();
                self.topics.push(Topic { ticket_id: t, next_sub_id: 0, subs: Vec::new() });
                i
            }
        }
    }

    /// Subscribe a new connection to the topic of ticket `t`, creating the
    /// topic if it is the first subscriber. Returns `None` only when the
    /// topic has exhausted its subscriber-identifier counter.
    pub fn subscribe(&mut self, t: TicketId) -> (r: Option<Subscription>)
        requires
            old(self).wf(),
        ensures
            final(self).wf(),
            final(self).capacity == old(self).capacity,
            match r {
                Some(s) => {
                    &&& s.ticket_id.0 == t.0
                    &&& has_topic(final(self).topics@, t.0)
                    // Existing tickets are kept, in order; at most the one new
                    // topic for `t` is appended.
                    &&& (if has_topic(old(self).topics@, t.0) {
                            final(self).topics@.len() == old(self).topics@.len()
                        } else {
                            final(self).topics@.len() == old(self).topics@.len() + 1
                        })
                    &&& forall|k: int| 0 <= k < old(self).topics@.len()
                            ==> (#[trigger] final(self).topics@[k]).ticket_id
                                == old(self).topics@[k].ticket_id
                    // Topics of other tickets are untouched.
                    &&& forall|k: int|
                            0 <= k < old(self).topics@.len()
                                && (#[trigger] old(self).topics@[k]).ticket_id.0 != t.0
                                ==> final(self).topics@[k] == old(self).topics@[k]
                    // The topic of `t` gained exactly the one fresh subscriber.
                    &&& {
                            let i = topic_pos(final(self).topics@, t.0);
                            let before_subs: Seq<Subscriber> =
                                if has_topic(old(self).topics@, t.0) {
                                    old(self).topics@[i].subs@
                                } else {
                                    Seq::empty()
                                };
                            let after = final(self).topics@[i];
                            &&& after.subs@.len() == before_subs.len() + 1
                            &&& after.subs@.drop_last() == before_subs
                            &&& is_fresh_sub(after.subs@.last(), s.sub_id)
                        }
                },
                None => {
                    // The topic already existed with its subscriber counter
                    // exhausted (a fresh topic starts counting at zero);
                    // the registry is exactly as it was.
                    &&& *final(self) == *old(self)
                    &&& has_topic(old(self).topics@, t.0)
                    &&& old(self).topics@[topic_pos(old(self).topics@, t.0)].next_sub_id
                        == u64::MAX
                },
            },
    {
        let i = self.get_or_create(t);
        let next = self.topics[i].next_sub_id;
        if next == u64::MAX {
            proof {
                // A topic created by this very call starts its counter at
                // zero, so an exhausted counter means the topic was there
                // before — and then `get_or_create` changed nothing.
                assert(has_topic(old(self).topics@, t.0));
                assert(self.topics@[i as int].ticket_id.0 == t.0);
                assert(has_topic(self.topics@, t.0));
                let p = topic_pos(self.topics@, t.0);
                assert(0 <= p < self.topics@.len() && self.topics@[p].ticket_id.0 == t.0);
                if p != i as int {
                    assert(self.topics@[p].ticket_id.0 != self.topics@[i as int].ticket_id.0);
                }
                assert(p == i as int);
            }
            return None;
        }
        let ghost pre = *self;
        self.topics[i].next_sub_id = next + 1;
        self.topics[i].subs.push(Subscriber { sub_id: next, live: true, feed: Vec::new() });
        proof {
            assert(self.topics@[i as int].ticket_id.0 == t.0);
            assert(has_topic(self.topics@, t.0));
            let p = topic_pos(self.topics@, t.0);
            assert(0 <= p < self.topics@.len() && self.topics@[p].ticket_id.0 == t.0);
            assert(p == i as int);
            assert(self.topics@[p].subs@ == pre.topics@[p].subs@.push(
                self.topics@[p].subs@.last(),
            ));
            assert(self.topics@[p].subs@.drop_last() =~= pre.topics@[p].subs@);
        }
        Some(Subscription { ticket_id: t, sub_id: next })
    }

    /// Publish `m` to the topic of its ticket. Every live subscriber of
    /// that topic with room receives `m`; a live subscriber whose feed is
    /// full is cut off instead of delaying the rest; every other topic is
    /// untouched. A ticket with no topic absorbs the publish.
    pub fn publish(&mut self, m: &ChatMessage)
        requires
            old(self).wf(),
        ensures
            final(self).wf(),
            registry_published(*old(self), *final(self), *m),
    {
        let cap = self.capacity;
        let found = self.find_topic(m.ticket_id);
        if let Some(ti) = found {
            let ghost pre = *self;
            let n = self.topics[ti].subs.len();
            let mut j: usize = 0;
            while j < n
                invariant
                    0 <= ti < self.topics@.len(),
                    j <= n,
                    self.capacity == pre.capacity,
                    cap == pre.capacity,
                    self.topics@.len() == pre.topics@.len(),
                    n == pre.topics@[ti as int].subs@.len(),
                    forall|i: int| 0 <= i < pre.topics@.len() && i != ti
                        ==> self.topics@[i] == pre.topics@[i],
                    self.topics@[ti as int].ticket_id == pre.topics@[ti as int].ticket_id,
                    self.topics@[ti as int].next_sub_id == pre.topics@[ti as int].next_sub_id,
                    self.topics@[ti as int].subs@.len() == n,
                    forall|k: int| j <= k < n
                        ==> #[trigger] self.topics@[ti as int].subs@[k]
                            == pre.topics@[ti as int].subs@[k],
                    forall|k: int| 0 <= k < j
                        ==> sub_published(
                            pre.topics@[ti as int].subs@[k],
                            #[trigger] self.topics@[ti as int].subs@[k],
                            *m,
                            cap as int,
                        ),
                decreases n - j,
            {
                if self.topics[ti].subs[j].live {
                    if self.topics[ti].subs[j].feed.len() < cap {
                        let copy = m.duplicate();
                        self.topics[ti].subs[j].feed.push(copy);
                    } else {
                        self.topics[ti].subs[j].live = false;
                    }
                }
                j = j + 1;
            }
            proof {
                let tb = pre.topics@[ti as int];
                let ta = self.topics@[ti as int];
                assert(tb.wf(cap as int));
                assert(topic_published(tb, ta, *m, cap as int));
                assert forall|i: int|
                    0 <= i < pre.topics@.len()
                        && (#[trigger] pre.topics@[i]).ticket_id.0 == m.ticket_id.0
                    implies topic_published(
                        pre.topics@[i],
                        self.topics@[i],
                        *m,
                        cap as int,
                    ) by {
                    assert(pre.topics@[ti as int].ticket_id.0 == m.ticket_id.0);
                    if i != ti {
                        assert(pre.topics@[i].ticket_id.0 != pre.topics@[ti as int].ticket_id.0);
                    }
                }
                assert forall|k: int| 0 <= k < ta.subs@.len()
                    implies (#[trigger] ta.subs@[k]).sub_id == tb.subs@[k].sub_id
                        && ta.subs@[k].feed@.len() <= cap by {
                    assert(sub_published(tb.subs@[k], ta.subs@[k], *m, cap as int));
                }
                assert(ta.wf(cap as int));
                assert forall|i: int| 0 <= i < self.topics@.len()
                    implies (#[trigger] self.topics@[i]).wf(self.capacity as int) by {
                    if i != ti as int {
                        assert(self.topics@[i] == pre.topics@[i]);
                    }
                }
                assert forall|i: int, k: int|
                    0 <= i < self.topics@.len() && 0 <= k < self.topics@.len() && i != k
                    implies (#[trigger] self.topics@[i]).ticket_id.0
                        != (#[trigger] self.topics@[k]).ticket_id.0 by {
                    assert(self.topics@[i].ticket_id == pre.topics@[i].ticket_id);
                    assert(self.topics@[k].ticket_id == pre.topics@[k].ticket_id);
                }
                assert(self.wf());
            }
        }
    }

    /// Take the next message of subscription `s`, in publish order.
    pub fn poll_next(&mut self, s: &Subscription) -> (r: PollOutcome)
        requires
            old(self).wf(),
        ensures
            final(self).wf(),
            final(self).capacity == old(self).capacity,
            old(self).same_tickets(*final(self)),
            match r {
                // The head of the feed is handed out and removed; nothing
                // else moves.
                PollOutcome::Delivered(m) => {
                    &&& has_topic(old(self).topics@, s.ticket_id.0)
                    &&& {
                            let i = topic_pos(old(self).topics@, s.ticket_id.0);
                            let j = sub_pos(old(self).topics@[i].subs@, s.sub_id);
                            let before = old(self).topics@[i].subs@[j];
                            let after = final(self).topics@[i].subs@[j];
                            &&& has_sub(old(self).topics@[i].subs@, s.sub_id)
                            &&& before.live
                            &&& before.feed@.len() > 0
                            &&& m == before.feed@[0]
                            &&& after.live
                            &&& after.sub_id == before.sub_id
                            &&& after.feed@ == before.feed@.drop_first()
                            &&& forall|k: int|
                                    0 <= k < old(self).topics@[i].subs@.len() && k != j
                                        ==> final(self).topics@[i].subs@[k]
                                            == old(self).topics@[i].subs@[k]
                            &&& final(self).topics@[i].subs@.len()
                                == old(self).topics@[i].subs@.len()
                            &&& final(self).topics@[i].next_sub_id
                                == old(self).topics@[i].next_sub_id
                            &&& forall|k: int|
                                    0 <= k < old(self).topics@.len() && k != i
                                        ==> final(self).topics@[k] == old(self).topics@[k]
                        }
                },
                // An empty live feed leaves everything as it was.
                PollOutcome::Pending => {
                    &&& *final(self) == *old(self)
                    &&& has_topic(old(self).topics@, s.ticket_id.0)
                    &&& {
                            let i = topic_pos(old(self).topics@, s.ticket_id.0);
                            let j = sub_pos(old(self).topics@[i].subs@, s.sub_id);
                            &&& has_sub(old(self).topics@[i].subs@, s.sub_id)
                            &&& old(self).topics@[i].subs@[j].live
                            &&& old(self).topics@[i].subs@[j].feed@.len() == 0
                        }
                },
                // A cut-off subscriber learns of it; nothing changes.
                PollOutcome::Lagged => {
                    &&& *final(self) == *old(self)
                    &&& has_topic(old(self).topics@, s.ticket_id.0)
                    &&& {
                            let i = topic_pos(old(self).topics@, s.ticket_id.0);
                            let j = sub_pos(old(self).topics@[i].subs@, s.sub_id);
                            &&& has_sub(old(self).topics@[i].subs@, s.sub_id)
                            &&& !old(self).topics@[i].subs@[j].live
                        }
                },
                // No such subscription is registered; nothing changes.
                PollOutcome::Gone => {
                    &&& *final(self) == *old(self)
                    &&& (!has_topic(old(self).topics@, s.ticket_id.0)
                        || !has_sub(
                            old(self).topics@[topic_pos(old(self).topics@, s.ticket_id.0)].subs@,
                            s.sub_id,
                        ))
                },
            },
    {
        let found = self.find_topic(s.ticket_id);
        let ti = match found {
            Some(ti) => ti,
            None => {
                return PollOutcome::Gone;
            }
        };
        proof {
            assert(has_topic(self.topics@, s.ticket_id.0));
            let p = topic_pos(self.topics@, s.ticket_id.0);
            assert(0 <= p < self.topics@.len() && self.topics@[p].ticket_id.0 == s.ticket_id.0);
            if p != ti as int {
                assert(self.topics@[p].ticket_id.0 != self.topics@[ti as int].ticket_id.0);
            }
            assert(p == ti as int);
        }
        let nsubs = self.topics[ti].subs.len();
        let mut j: usize = 0;
        while j < nsubs
            invariant
                *self == *old(self),
                self.wf(),
                0 <= ti < self.topics@.len(),
                self.topics@[ti as int].ticket_id.0 == s.ticket_id.0,
                ti as int == topic_pos(self.topics@, s.ticket_id.0),
                j <= nsubs,
                nsubs == self.topics@[ti as int].subs@.len(),
                forall|k: int| 0 <= k < j
                    ==> (#[trigger] self.topics@[ti as int].subs@[k]).sub_id != s.sub_id,
            decreases nsubs - j,
        {
            if self.topics[ti].subs[j].sub_id == s.sub_id {
                proof {
                    assert(self.topics@[ti as int].wf(self.capacity as int));
                    assert(has_sub(self.topics@[ti as int].subs@, s.sub_id));
                    let q = sub_pos(self.topics@[ti as int].subs@, s.sub_id);
                    assert(0 <= q < self.topics@[ti as int].subs@.len()
                        && self.topics@[ti as int].subs@[q].sub_id == s.sub_id);
                    if q != j as int {
                        assert(self.topics@[ti as int].subs@[q].sub_id
                            != self.topics@[ti as int].subs@[j as int].sub_id);
                    }
                    assert(q == j as int);
                }
                if !self.topics[ti].subs[j].live {
                    return PollOutcome::Lagged;
                }
                if self.topics[ti].subs[j].feed.len() == 0 {
                    return PollOutcome::Pending;
                }
                let ghost pre = *self;
                let m = self.topics[ti].subs[j].feed.remove(0);
                proof {
                    let tb = pre.topics@[ti as int];
                    let ta = self.topics@[ti as int];
                    assert(ta.subs@[j as int].feed@ =~= tb.subs@[j as int].feed@.drop_first());
                    assert(forall|k: int| 0 <= k < tb.subs@.len() && k != j
                        ==> ta.subs@[k] == tb.subs@[k]);
                    assert forall|k: int| 0 <= k < ta.subs@.len()
                        implies (#[trigger] ta.subs@[k]).sub_id == tb.subs@[k].sub_id
                            && ta.subs@[k].feed@.len() <= tb.subs@[k].feed@.len() by {}
                    assert(tb.wf(pre.capacity as int));
                    assert(ta.wf(self.capacity as int));
                    assert(forall|i: int| 0 <= i < pre.topics@.len() && i != ti
                        ==> #[trigger] self.topics@[i] == pre.topics@[i]);
                    assert(self.wf());
                }
                return PollOutcome::Delivered(m);
            }
            j = j + 1;
        }
        PollOutcome::Gone
    }

    /// Release subscription `s`: its subscriber is removed from the topic
    /// of its ticket; the topic itself is left intact, whether or not
    /// subscribers remain.
    pub fn unsubscribe(&mut self, s: Subscription)
        requires
            old(self).wf(),
        ensures
            final(self).wf(),
            final(self).capacity == old(self).capacity,
            old(self).same_tickets(*final(self)),
            forall|i: int|
                0 <= i < old(self).topics@.len()
                    && (#[trigger] old(self).topics@[i]).ticket_id.0 != s.ticket_id.0
                    ==> final(self).topics@[i] == old(self).topics@[i],
            has_topic(old(self).topics@, s.ticket_id.0) ==> {
                let i = topic_pos(old(self).topics@, s.ticket_id.0);
                let subs = old(self).topics@[i].subs@;
                &&& final(self).topics@[i].next_sub_id == old(self).topics@[i].next_sub_id
                &&& if has_sub(subs, s.sub_id) {
                        final(self).topics@[i].subs@ == subs.remove(sub_pos(subs, s.sub_id))
                    } else {
                        final(self).topics@[i] == old(self).topics@[i]
                    }
            },
            !has_topic(old(self).topics@, s.ticket_id.0) ==> *final(self) == *old(self),
    {
        let found = self.find_topic(s.ticket_id);
        let ti = match found {
            Some(ti) => ti,
            None => {
                return;
            }
        };
        proof {
            assert(has_topic(self.topics@, s.ticket_id.0));
            let p = topic_pos(self.topics@, s.ticket_id.0);
            assert(0 <= p < self.topics@.len() && self.topics@[p].ticket_id.0 == s.ticket_id.0);
            if p != ti as int {
                assert(self.topics@[p].ticket_id.0 != self.topics@[ti as int].ticket_id.0);
            }
            assert(p == ti as int);
        }
        let nsubs = self.topics[ti].subs.len();
        let mut j: usize = 0;
        while j < nsubs
            invariant
                *self == *old(self),
                self.wf(),
                0 <= ti < self.topics@.len(),
                self.topics@[ti as int].ticket_id.0 == s.ticket_id.0,
                ti as int == topic_pos(self.topics@, s.ticket_id.0),
                j <= nsubs,
                nsubs == self.topics@[ti as int].subs@.len(),
                forall|k: int| 0 <= k < j
                    ==> (#[trigger] self.topics@[ti as int].subs@[k]).sub_id != s.sub_id,
            decreases nsubs - j,
        {
            if self.topics[ti].subs[j].sub_id == s.sub_id {
                proof {
                    assert(self.topics@[ti as int].wf(self.capacity as int));
                    assert(has_sub(self.topics@[ti as int].subs@, s.sub_id));
                    let q = sub_pos(self.topics@[ti as int].subs@, s.sub_id);
                    assert(0 <= q < self.topics@[ti as int].subs@.len()
                        && self.topics@[ti as int].subs@[q].sub_id == s.sub_id);
                    if q != j as int {
                        assert(self.topics@[ti as int].subs@[q].sub_id
                            != self.topics@[ti as int].subs@[j as int].sub_id);
                    }
                    assert(q == j as int);
                }
                let ghost pre = *self;
                let _gone = self.topics[ti].subs.remove(j);
                proof {
                    let tb = pre.topics@[ti as int];
                    let ta = self.topics@[ti as int];
                    assert(ta.subs@ == tb.subs@.remove(j as int));
                    assert(tb.wf(pre.capacity as int));
                    assert forall|k: int| 0 <= k < ta.subs@.len()
                        implies (#[trigger] ta.subs@[k]).sub_id < ta.next_sub_id
                            && ta.subs@[k].feed@.len() <= self.capacity by {
                        if k < j as int {
                            assert(ta.subs@[k] == tb.subs@[k]);
                        } else {
                            assert(ta.subs@[k] == tb.subs@[k + 1]);
                        }
                    }
                    assert forall|k: int, l: int|
                        0 <= k < ta.subs@.len() && 0 <= l < ta.subs@.len() && k != l
                        implies (#[trigger] ta.subs@[k]).sub_id
                            != (#[trigger] ta.subs@[l]).sub_id by {
                        let k0: int = if k < j as int { k } else { k + 1 };
                        let l0: int = if l < j as int { l } else { l + 1 };
                        assert(ta.subs@[k] == tb.subs@[k0]);
                        assert(ta.subs@[l] == tb.subs@[l0]);
                        assert(tb.subs@[k0].sub_id != tb.subs@[l0].sub_id);
                    }
                    assert(ta.wf(self.capacity as int));
                    assert(forall|i: int| 0 <= i < pre.topics@.len() && i != ti
                        ==> #[trigger] self.topics@[i] == pre.topics@[i]);
                    assert(self.wf());
                }
                return;
            }
            j = j + 1;
        }
    }
}

/// At most one topic exists per ticket: in a well-formed registry, two
/// topics of the same ticket are the same topic. Racing first subscribers
/// take turns at the registry's critical section, and `get_or_create`
/// leaves an existing topic exactly as it is — so however many arrive,
/// all converge on the one topic.
pub proof fn law_at_most_one_topic(r: Registry, i: int, k: int)
    requires
        r.wf(),
        0 <= i < r.topics@.len(),
        0 <= k < r.topics@.len(),
        r.topics@[i].ticket_id.0 == r.topics@[k].ticket_id.0,
    ensures
        i == k,
{
}

/// A publish reaches every live subscriber of the topic that has room:
/// each such feed grows by exactly the published message, whatever any
/// other subscriber of the topic was doing.
pub proof fn law_publish_reaches_every_live_subscriber(
    before: Topic,
    after: Topic,
    m: ChatMessage,
    cap: int,
    j: int,
)
    requires
        topic_published(before, after, m, cap),
        0 <= j < before.subs@.len(),
        before.subs@[j].live,
        before.subs@[j].feed@.len() < cap,
    ensures
        after.subs@[j].live,
        after.subs@[j].feed@ == before.subs@[j].feed@.push(m),
{
}

/// A publish stays on its own ticket: the topic of every other ticket is
/// left exactly as it was.
pub proof fn law_publish_is_ticket_scoped(
    before: Registry,
    after: Registry,
    m: ChatMessage,
    i: int,
)
    requires
        registry_published(before, after, m),
        0 <= i < before.topics@.len(),
        before.topics@[i].ticket_id.0 != m.ticket_id.0,
    ensures
        after.topics@[i] == before.topics@[i],
{
}

/// A slow subscriber never prevents delivery to the others: even when
/// subscriber `j` of the topic is full and gets cut off, subscriber `k`
/// with room still receives the message. (A subscriber that keeps up has
/// room: its feed stays within the bound, and publish is a total step —
/// it never waits on anyone.)
pub proof fn law_slow_subscriber_is_isolated(
    before: Topic,
    after: Topic,
    m: ChatMessage,
    cap: int,
    j: int,
    k: int,
)
    requires
        topic_published(before, after, m, cap),
        0 <= j < before.subs@.len(),
        0 <= k < before.subs@.len(),
        before.subs@[j].live,
        before.subs@[j].feed@.len() >= cap,
        before.subs@[k].live,
        before.subs@[k].feed@.len() < cap,
    ensures
        !after.subs@[j].live,
        after.subs@[j].feed@ == before.subs@[j].feed@,
        after.subs@[k].live,
        after.subs@[k].feed@ == before.subs@[k].feed@.push(m),
{
}

} // verus!
