//! The lifecycle of one client connection to a ticket's channel.
//!
//! A connection is tied to one ticket for its whole life. It is opened
//! only for a caller that presented a verifiable credential through
//! exactly one of the two channels (sub-protocol list or query
//! parameter); a caller with no credential, or with one the auth oracle
//! refused, is turned away unauthorized before any socket or topic state
//! is touched. Once open, the connection holds one subscription to the
//! ticket's topic; two independent loops (outbound relay, inbound ingest)
//! drive it, and whichever ends first tears the connection down. Teardown
//! releases exactly this connection's subscription and leaves the topic
//! itself — and every other subscriber of it — intact.

use vstd::prelude::*;

use crate::auth::CredentialCheck;
use crate::ids::{TicketId, UserId};
use crate::message::ClientFrame;
use crate::pipeline::{ingest_prepare, PersistRequest};
use crate::registry::{
    has_sub, has_topic, is_fresh_sub, sub_pos, topic_pos, PollOutcome, Registry, Subscription,
};

verus! {

/// Why an upgrade attempt was turned away.
pub enum UpgradeRejection {
    /// No credential was presented on either channel; rejected
    /// unauthorized before any check runs.
    MissingCredential,
    /// A credential was presented but the auth oracle refused it;
    /// unauthorized.
    InvalidCredential,
    /// The ticket's topic can take no further subscriber (its subscriber
    /// counter is exhausted).
    ChannelExhausted,
}

impl UpgradeRejection {
    /// The response status of a rejected upgrade. A missing credential and
    /// a refused one answer alike — unauthorized; an exhausted channel is
    /// reported as the service being unavailable.
    pub fn status(&self) -> (s: u16)
        ensures
            self is MissingCredential ==> s == 401,
            self is InvalidCredential ==> s == 401,
            self is ChannelExhausted ==> s == 503,
    {
        match self {
            UpgradeRejection::MissingCredential => 401,
            UpgradeRejection::InvalidCredential => 401,
            UpgradeRejection::ChannelExhausted => 503,
        }
    }
}

/// The states a connection passes through, in order. `Connecting` and
/// `Authenticating` live only inside [`Connection::open`]: a `Connection`
/// value exists once it is `Subscribed`.
pub enum ConnState {
    Connecting,
    Authenticating,
    Subscribed,
    Closing,
    Closed,
}

/// One live client connection: the ticket it watches, the user it
/// authenticated as, and its subscription to the ticket's topic.
pub struct Connection {
    pub state: ConnState,
    pub ticket_id: TicketId,
    pub user_id: UserId,
    pub subscription: Option<Subscription>,
}

impl Connection {
    /// A connection holds its subscription exactly while it is
    /// subscribed, and the subscription is to its own ticket.
    pub open spec fn wf(self) -> bool {
        &&& (self.state is Subscribed <==> self.subscription is Some)
        &&& self.subscription matches Some(s) ==> s.ticket_id.0 == self.ticket_id.0
    }

    /// Open a connection for `ticket_id`: authenticate, then subscribe.
    ///
    /// `credential` is what the upgrade request presented: `None` when
    /// neither the sub-protocol list nor the query parameter carried a
    /// token, otherwise the auth oracle's verdict on the one token that
    /// was presented. On any rejection the registry is untouched — in
    /// particular, a rejected upgrade never creates a topic. On success,
    /// at most the one topic for this very ticket is added, every other
    /// topic is exactly unchanged, and the topic of this ticket gains
    /// exactly this connection's fresh subscriber at the back.
    pub fn open(
        registry: &mut Registry,
        ticket_id: TicketId,
        credential: Option<CredentialCheck>,
    ) -> (r: Result<Connection, UpgradeRejection>)
        requires
            old(registry).wf(),
        ensures
            final(registry).wf(),
            final(registry).capacity == old(registry).capacity,
            credential is None ==> {
                &&& r matches Err(UpgradeRejection::MissingCredential)
                &&& *final(registry) == *old(registry)
            },
            credential matches Some(CredentialCheck::Rejected) ==> {
                &&& r matches Err(UpgradeRejection::InvalidCredential)
                &&& *final(registry) == *old(registry)
            },
            credential matches Some(CredentialCheck::Accepted(c)) ==> match r {
                Ok(conn) => {
                    &&& conn.wf()
                    &&& conn.state is Subscribed
                    &&& conn.ticket_id.0 == ticket_id.0
                    &&& conn.user_id == c.sub
                    &&& has_topic(final(registry).topics@, ticket_id.0)
                    // Existing tickets are kept, in order; at most the one
                    // topic for this ticket is appended.
                    &&& (if has_topic(old(registry).topics@, ticket_id.0) {
                            final(registry).topics@.len() == old(registry).topics@.len()
                        } else {
                            final(registry).topics@.len() == old(registry).topics@.len() + 1
                        })
                    &&& forall|k: int| 0 <= k < old(registry).topics@.len()
                            ==> (#[trigger] final(registry).topics@[k]).ticket_id
                                == old(registry).topics@[k].ticket_id
                    // Topics of other tickets are exactly unchanged.
                    &&& forall|k: int|
                            0 <= k < old(registry).topics@.len()
                                && (#[trigger] old(registry).topics@[k]).ticket_id.0
                                    != ticket_id.0
                                ==> final(registry).topics@[k] == old(registry).topics@[k]
                    // The topic of this ticket gained exactly this
                    // connection's fresh subscriber, at the back.
                    &&& conn.subscription matches Some(s) && s.ticket_id.0 == ticket_id.0 && {
                            let i = topic_pos(final(registry).topics@, ticket_id.0);
                            let before_subs: Seq<crate::registry::Subscriber> =
                                if has_topic(old(registry).topics@, ticket_id.0) {
                                    old(registry).topics@[i].subs@
                                } else {
                                    Seq::empty()
                                };
                            let after = final(registry).topics@[i];
                            &&& after.subs@.len() == before_subs.len() + 1
                            &&& after.subs@.drop_last() == before_subs
                            &&& is_fresh_sub(after.subs@.last(), s.sub_id)
                        }
                },
                Err(e) => {
                    &&& e is ChannelExhausted
                    &&& *final(registry) == *old(registry)
                },
            },
    {
        let verdict = match credential {
            None => {
                return Err(UpgradeRejection::MissingCredential);
            },
            Some(v) => v,
        };
        let claims = match verdict {
            CredentialCheck::Rejected => {
                return Err(UpgradeRejection::InvalidCredential);
            },
            CredentialCheck::Accepted(claims) => claims,
        };
        match registry.subscribe(ticket_id) {
            Some(subscription) => Ok(Connection {
                state: ConnState::Subscribed,
                ticket_id,
                user_id: claims.sub,
                subscription: Some(subscription),
            }),
            None => Err(UpgradeRejection::ChannelExhausted),
        }
    }

    /// One step of the outbound loop: ask the topic for the next published
    /// message of this connection's subscription. `Delivered` hands out —
    /// and removes — exactly the head of this subscription's feed, in
    /// publish order, touching nothing else; `Pending` arises only on a
    /// live, empty feed and changes nothing; `Lagged` only once this
    /// subscriber was cut off for falling behind; `Gone` only when the
    /// subscription is no longer registered.
    pub fn poll_outbound(&self, registry: &mut Registry) -> (r: PollOutcome)
        requires
            old(registry).wf(),
            self.wf(),
            self.state is Subscribed,
        ensures
            final(registry).wf(),
            old(registry).same_tickets(*final(registry)),
            ({
                let s = self.subscription->0;
                match r {
                    PollOutcome::Delivered(m) => {
                        &&& has_topic(old(registry).topics@, s.ticket_id.0)
                        &&& {
                                let i = topic_pos(old(registry).topics@, s.ticket_id.0);
                                let j = sub_pos(old(registry).topics@[i].subs@, s.sub_id);
                                let before = old(registry).topics@[i].subs@[j];
                                let after = final(registry).topics@[i].subs@[j];
                                &&& has_sub(old(registry).topics@[i].subs@, s.sub_id)
                                &&& before.live
                                &&& before.feed@.len() > 0
                                &&& m == before.feed@[0]
                                &&& after.live
                                &&& after.sub_id == before.sub_id
                                &&& after.feed@ == before.feed@.drop_first()
                                &&& forall|k: int|
                                        0 <= k < old(registry).topics@[i].subs@.len() && k != j
                                            ==> final(registry).topics@[i].subs@[k]
                                                == old(registry).topics@[i].subs@[k]
                                &&& final(registry).topics@[i].subs@.len()
                                    == old(registry).topics@[i].subs@.len()
                                &&& final(registry).topics@[i].next_sub_id
                                    == old(registry).topics@[i].next_sub_id
                                &&& forall|k: int|
                                        0 <= k < old(registry).topics@.len() && k != i
                                            ==> final(registry).topics@[k]
                                                == old(registry).topics@[k]
                            }
                    },
                    PollOutcome::Pending => {
                        &&& *final(registry) == *old(registry)
                        &&& has_topic(old(registry).topics@, s.ticket_id.0)
                        &&& {
                                let i = topic_pos(old(registry).topics@, s.ticket_id.0);
                                let j = sub_pos(old(registry).topics@[i].subs@, s.sub_id);
                                &&& has_sub(old(registry).topics@[i].subs@, s.sub_id)
                                &&& old(registry).topics@[i].subs@[j].live
                                &&& old(registry).topics@[i].subs@[j].feed@.len() == 0
                            }
                    },
                    PollOutcome::Lagged => {
                        &&& *final(registry) == *old(registry)
                        &&& has_topic(old(registry).topics@, s.ticket_id.0)
                        &&& {
                                let i = topic_pos(old(registry).topics@, s.ticket_id.0);
                                let j = sub_pos(old(registry).topics@[i].subs@, s.sub_id);
                                &&& has_sub(old(registry).topics@[i].subs@, s.sub_id)
                                &&& !old(registry).topics@[i].subs@[j].live
                            }
                    },
                    PollOutcome::Gone => {
                        &&& *final(registry) == *old(registry)
                        &&& (!has_topic(old(registry).topics@, s.ticket_id.0) || !has_sub(
                            old(registry).topics@[topic_pos(
                                old(registry).topics@,
                                s.ticket_id.0,
                            )].subs@,
                            s.sub_id,
                        ))
                    },
                }
            }),
    {
        match &self.subscription {
            Some(s) => registry.poll_next(s),
            None => {
                proof {
                    // A subscribed connection always holds its subscription.
                    assert(false);
                }
                PollOutcome::Gone
            },
        }
    }

    /// One step of the inbound loop: a text frame arrived on the socket.
    /// A well-formed, valid payload becomes the insert request that the
    /// caller must hand to the store (and its outcome to the pipeline's
    /// commit); a malformed or invalid frame is dropped — the connection
    /// stays open and nothing else happens.
    pub fn on_frame(&self, frame: Option<ClientFrame>) -> (r: Option<PersistRequest>)
        requires
            self.wf(),
            self.state is Subscribed,
        ensures
            match frame {
                Some(f) => {
                    if f.content@.len() > 0 {
                        r matches Some(q) && {
                            &&& q.ticket_id == self.ticket_id
                            &&& q.sender_id == self.user_id
                            &&& q.content@ == f.content@
                            &&& q.is_from_customer == f.is_from_customer
                        }
                    } else {
                        r is None
                    }
                },
                None => r is None,
            },
    {
        match frame {
            Some(f) => match ingest_prepare(self.ticket_id, self.user_id, f) {
                Ok(q) => Some(q),
                Err(_) => None,
            },
            None => None,
        }
    }

    /// Tear the connection down: whichever loop finished first brings both
    /// here. Exactly this connection's subscriber leaves the topic of its
    /// ticket — the topic itself, its other subscribers and every other
    /// topic are exactly as they were.
    pub fn teardown(&mut self, registry: &mut Registry)
        requires
            old(registry).wf(),
            old(self).wf(),
        ensures
            final(registry).wf(),
            final(self).wf(),
            final(self).state is Closed,
            final(self).subscription is None,
            final(self).ticket_id == old(self).ticket_id,
            final(self).user_id == old(self).user_id,
            old(registry).same_tickets(*final(registry)),
            old(self).state is Subscribed ==> {
                let s = old(self).subscription->0;
                // Topics of other tickets are exactly unchanged.
                &&& forall|i: int|
                        0 <= i < old(registry).topics@.len()
                            && (#[trigger] old(registry).topics@[i]).ticket_id.0 != s.ticket_id.0
                            ==> final(registry).topics@[i] == old(registry).topics@[i]
                // From the topic of this ticket, exactly this connection's
                // subscriber is removed; the others stay, in order.
                &&& has_topic(old(registry).topics@, s.ticket_id.0) ==> {
                        let i = topic_pos(old(registry).topics@, s.ticket_id.0);
                        let subs = old(registry).topics@[i].subs@;
                        &&& final(registry).topics@[i].next_sub_id
                            == old(registry).topics@[i].next_sub_id
                        &&& if has_sub(subs, s.sub_id) {
                                final(registry).topics@[i].subs@ == subs.remove(
                                    sub_pos(subs, s.sub_id),
                                )
                            } else {
                                final(registry).topics@[i] == old(registry).topics@[i]
                            }
                    }
                &&& !has_topic(old(registry).topics@, s.ticket_id.0) ==> *final(registry)
                    == *old(registry)
            },
            !(old(self).state is Subscribed) ==> *final(registry) == *old(registry),
    {
        self.state = ConnState::Closing;
        let sub = self.subscription.take();
        match sub {
            Some(s) => {
                registry.unsubscribe(s);
            },
            None => {},
        }
        self.state = ConnState::Closed;
    }
}

} // verus!
