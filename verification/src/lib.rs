//! Simulated-peer data generator and gossip responder for a content-addressed
//! DHT network.
//!
//! The crate synthesizes consistent per-agent chains of records, derives the
//! protocol operations a real storage layer would derive from them, shards the
//! ops over storage arcs on a numeric ring, and answers the discovery, range
//! and fetch queries a real sync engine would issue against a population of
//! simulated peers.

pub mod agent_info;
pub mod builders;
pub mod bytes;
pub mod chain;
pub mod data;
pub mod gossip;
pub mod hash;
pub mod index;
pub mod laws;
pub mod ops;
pub mod query;
pub mod respond;
pub mod ring;
pub mod synth;

pub use ring::shortest_arc_distance;
