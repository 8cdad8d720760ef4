//! Core of a Chord distributed hash table node: identifier-space routing,
//! finger-table and successor-list maintenance, predecessor tracking,
//! join/leave key transfer, and the primary-plus-replica key/value store.
//!
//! Every decision the protocol makes — which hop to forward a lookup to,
//! whether to adopt a notifier as predecessor, which keys move on a join or
//! a leave, which successors receive replicas — is a verified function here.
//! The network transport drives these functions and carries their results
//! between nodes.

pub mod constants;
pub mod digest;
pub mod ident;
pub mod info;
pub mod laws;
pub mod monitor;
pub mod node;
pub mod ring;
pub mod rng;
pub mod routing;
pub mod stabilize;
pub mod store;
