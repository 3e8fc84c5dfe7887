//! Core of an embeddable chat backend: the session cache that maps a
//! username to its bearer token, the presence tracker fed by heartbeats,
//! the tag bitfield carried on every message, and the interval-based
//! message selection that decides which messages a query returns.
//!
//! Everything here is in-memory and deterministic; the durable message
//! store, password hashing, clock and token randomness are reached only
//! through narrow wrappers whose contracts state what the library relies on.

pub mod chatbix;
pub mod error;
pub mod message;
pub mod routes;
pub mod selector;
pub mod tags;
pub mod user;
pub mod utils;
