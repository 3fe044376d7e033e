//! Verified core of an asynchronous duplex request/response channel.
//!
//! Many clients send requests to one responder and wait for the matching
//! response. The decisions of that protocol live here: the table of pending
//! requests that correlates every response with the request that asked for
//! it, the outcome of a single or batched request, the default timeout, and
//! the concurrency strategies of the responder.

pub mod error;
pub mod pending;
pub mod duration;
pub mod concurrency;
pub mod client;
pub mod laws;

pub use client::{BatchOutcome, Client, Outcome};
pub use concurrency::{next_concurrency, ConcurrencyStrategy, DynamicConcurrency};
pub use error::Error;
