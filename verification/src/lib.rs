//! Storage and session core of a partitioned message-streaming broker.
//!
//! A partition is an append-only log of checksummed messages, split into
//! bounded segments with sparse offset and time indexes. Consumer groups
//! track membership and a deterministic partition assignment, and the
//! client registry tracks live sessions and their group memberships.

pub mod catalog;
pub mod checksum;
pub mod clients;
pub mod config;
pub mod errors;
pub mod group;
pub mod index;
pub mod message;
pub mod partition;
pub mod segment;
