//! The message pipeline: validate, persist, then fan out.
//!
//! Every chat message — whether it arrives over a live connection or
//! through the REST send-message endpoint — goes through this one
//! pipeline, so that a message is always durably stored before any
//! subscriber sees it. The durable insert itself is I/O performed by the
//! store; the pipeline is split around it:
//!
//! 1. [`ingest_prepare`] validates the payload and builds the insert
//!    request; a payload that fails validation causes no side effect.
//! 2. The caller performs the insert and obtains either the canonical
//!    stored record or the store's error.
//! 3. [`ingest_commit`] publishes the canonical record on success and
//!    publishes nothing — leaves the registry untouched — on failure.
//!
//! Publish never precedes persist, by construction and by contract.

use vstd::prelude::*;

use crate::ids::{TicketId, UserId};
use crate::message::{ChatMessage, ClientFrame, PersistError};
use crate::registry::{registry_published, Registry};

verus! {

/// Why an inbound payload was not ingested.
#[derive(Debug)]
pub enum IngestError {
    /// The payload failed shape validation; nothing was persisted and
    /// nothing was published.
    Malformed,
    /// The store failed the durable insert; nothing was published.
    Persistence(PersistError),
}

/// What the store is asked to insert: the validated payload together with
/// the ticket and the authenticated sender of the connection it came in
/// on. The store assigns the identifier and the timestamp.
pub struct PersistRequest {
    pub ticket_id: TicketId,
    pub sender_id: UserId,
    pub content: String,
    pub is_from_customer: bool,
}

/// Shape validation of an inbound payload: the content must be non-empty.
/// (That the customer flag is present is already settled by decoding.)
pub fn validate_payload(frame: &ClientFrame) -> (ok: bool)
    ensures
        ok == (frame.content@.len() > 0),
{
    !frame.content.as_str().is_empty()
}

/// First half of `ingest`: validate the payload and build the insert
/// request. On `Ok` the caller must perform the durable insert and hand
/// the store's outcome to [`ingest_commit`]; on `Err` the payload is
/// rejected with no side effect.
pub fn ingest_prepare(ticket_id: TicketId, sender_id: UserId, frame: ClientFrame) -> (r: Result<
    PersistRequest,
    IngestError,
>)
    ensures
        frame.content@.len() > 0 <==> r is Ok,
        r is Ok ==> {
            let q = r->Ok_0;
            &&& q.ticket_id == ticket_id
            &&& q.sender_id == sender_id
            &&& q.content@ == frame.content@
            &&& q.is_from_customer == frame.is_from_customer
        },
        r is Err ==> r->Err_0 is Malformed,
{
    if validate_payload(&frame) {
        Ok(PersistRequest {
            ticket_id,
            sender_id,
            content: frame.content,
            is_from_customer: frame.is_from_customer,
        })
    } else {
        Err(IngestError::Malformed)
    }
}

/// Second half of `ingest`: publish never precedes persist. Given the
/// store's outcome, the canonical record is published to the topic of its
/// ticket on success; on failure the error is passed through and the
/// registry is left exactly as it was — zero observable broadcasts.
pub fn ingest_commit(registry: &mut Registry, outcome: Result<ChatMessage, PersistError>) -> (r:
    Result<ChatMessage, IngestError>)
    requires
        old(registry).wf(),
    ensures
        final(registry).wf(),
        outcome is Err ==> {
            &&& *final(registry) == *old(registry)
            &&& r is Err
            &&& r->Err_0 matches IngestError::Persistence(e) && e == outcome->Err_0
        },
        outcome is Ok ==> {
            &&& r is Ok
            &&& r->Ok_0 == outcome->Ok_0
            &&& registry_published(*old(registry), *final(registry), outcome->Ok_0)
        },
{
    match outcome {
        Ok(stored) => {
            registry.publish(&stored);
            Ok(stored)
        },
        Err(e) => Err(IngestError::Persistence(e)),
    }
}

/// Round trip: a published message is echoed to the sender's own
/// connection. The sender subscribed to the topic of the ticket when its
/// connection opened; as long as its subscription is live and its feed has
/// room — and one that keeps draining stays live with room, since a
/// subscriber is only cut off at the bound — the canonical record, with
/// the store-assigned identifier and timestamp, lands at the back of that
/// very feed.
pub proof fn law_echo_reaches_sender(
    before: Registry,
    after: Registry,
    m: ChatMessage,
    i: int,
    j: int,
)
    requires
        registry_published(before, after, m),
        0 <= i < before.topics@.len(),
        before.topics@[i].ticket_id.0 == m.ticket_id.0,
        0 <= j < before.topics@[i].subs@.len(),
        before.topics@[i].subs@[j].live,
        before.topics@[i].subs@[j].feed@.len() < before.capacity,
    ensures
        after.topics@[i].subs@[j].live,
        after.topics@[i].subs@[j].feed@ == before.topics@[i].subs@[j].feed@.push(m),
        after.topics@[i].subs@[j].feed@.last() == m,
{
    assert(crate::registry::topic_published(
        before.topics@[i],
        after.topics@[i],
        m,
        before.capacity as int,
    ));
    assert(crate::registry::sub_published(
        before.topics@[i].subs@[j],
        after.topics@[i].subs@[j],
        m,
        before.capacity as int,
    ));
}

} // verus!
