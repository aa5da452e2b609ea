//! Verified core of a UDP/TCP hashing load generator: the FNV-1a reply that
//! the forwarders send back, the line-oriented request format of the hashing
//! backend, the round-robin choice of payloads in the senders, and the
//! decisions of every service loop, each written as a step from an event to
//! an action.

pub mod hashing;
pub mod request;
pub mod backend;
pub mod datagram;
pub mod sending;
pub mod setup;
