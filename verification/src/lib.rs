//! Resolving the events that a public key has reacted to, with a local cache
//! of events in front of the relay.
//!
//! The library holds the decisions and the data; connecting to a relay,
//! reading and writing the cache file and printing are left to its caller.

pub mod cache;
pub mod codec;
pub mod config;
pub mod error;
pub mod event;
pub mod filter;
pub mod foreign;
pub mod hex;
pub mod workflow;
