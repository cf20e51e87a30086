//! The canonical chat message and the client payload.
//!
//! A `ChatMessage` is the persisted form of a message: its identifier and
//! timestamp are assigned by the store at insert time, never by a client,
//! so every subscriber — the sender's own connection included — observes
//! the same record. A `ClientFrame` is the little that a client may say:
//! the content and whether it speaks as the customer.

use vstd::prelude::*;

use crate::ids::{MessageId, TicketId, UserId};

verus! {

/// The canonical, persisted form of a chat message. `id` and `created_at`
/// come from the store; `created_at` is already rendered as an ISO-8601
/// timestamp.
pub struct ChatMessage {
    pub id: MessageId,
    pub ticket_id: TicketId,
    pub sender_id: UserId,
    pub content: String,
    pub is_from_customer: bool,
    pub created_at: String,
}

impl ChatMessage {
    /// A copy of the message with the same value; fan-out places one copy
    /// in each subscriber's buffer.
    pub fn duplicate(&self) -> (r: ChatMessage)
        ensures
            r == *self,
    {
        ChatMessage {
            id: self.id,
            ticket_id: self.ticket_id,
            sender_id: self.sender_id,
            content: self.content.clone(),
            is_from_customer: self.is_from_customer,
            created_at: self.created_at.clone(),
        }
    }
}

/// A well-formed inbound chat payload: what a client frame carries once
/// decoded from the wire.
pub struct ClientFrame {
    pub content: String,
    pub is_from_customer: bool,
}

/// The store failed to insert a message durably; the detail is whatever the
/// store reported.
#[derive(Debug)]
pub struct PersistError {
    pub detail: String,
}

} // verus!
