//! A worker registry and periodic status aggregator for a distributed
//! compute network.
//!
//! The registry keeps one record per compute node ("worker"), keyed by the
//! owning account and a per-account identifier, and enforces identity,
//! uniqueness and lifecycle invariants. The aggregator accepts status
//! observations about workers from reporters, deduplicates them per
//! reporting period, and folds them into a single aggregate status through
//! a pluggable combine policy. Both are in-memory components driven by a
//! host that supplies the current block height and authenticated caller
//! identities.

pub mod aggregator;
pub mod oracle;
pub mod period;
pub mod registry;
pub mod store;
pub mod weights;
pub mod worker;
