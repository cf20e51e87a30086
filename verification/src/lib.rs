//! Core of a support-ticket helpdesk backend: the real-time per-ticket
//! collaboration channel.
//!
//! The heart of the crate is the persist-then-fan-out pipeline: a registry
//! maps each ticket to its broadcast topic, connections subscribe to a
//! topic, and every chat message is durably stored before it is published
//! to the subscribers of its ticket. The surrounding request/response
//! helpers (authentication decisions, payload validation, slugs, report
//! aggregation) live here as well; the I/O that drives them does not.

pub mod analytics;
pub mod auth;
pub mod codec;
pub mod connection;
pub mod dto;
pub mod ids;
pub mod jsontext;
pub mod message;
pub mod notifications;
pub mod pipeline;
pub mod protocol;
pub mod registry;
pub mod slug;
pub mod tickets;
