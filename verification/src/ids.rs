//! Identifiers for tickets, users and messages.
//!
//! The store hands out 128-bit identifiers; the collaboration core only
//! ever compares them and carries them through, so they are held as plain
//! 128-bit integers here.

use vstd::prelude::*;

verus! {

/// Identifier of a ticket.
#[derive(Clone, Copy, PartialEq, Eq, Structural, Debug)]
pub struct TicketId(pub u128);

/// Identifier of a user (customer or agent).
#[derive(Clone, Copy, PartialEq, Eq, Structural, Debug)]
pub struct UserId(pub u128);

/// Identifier of a stored chat message.
#[derive(Clone, Copy, PartialEq, Eq, Structural, Debug)]
pub struct MessageId(pub u128);

} // verus!
