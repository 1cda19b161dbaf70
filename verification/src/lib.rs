//! A conversational agent library: an append-only conversation store, a
//! context builder that assembles bounded recent history, and a resilient
//! streaming-completion state machine with bounded retry and a synchronous
//! fallback.

pub mod context;
pub mod errors;
pub mod agent;
pub mod exchange;
pub mod store;
pub mod stream;
