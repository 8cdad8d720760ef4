//! Design constants of the protocol.

use vstd::prelude::*;

verus! {

/// Number of finger-table entries: one per bit of the 64-bit identifier space.
pub const FINGER_TABLE_SIZE: usize = 64;

/// Number of successors that receive a replica of each key (R).
pub const REPLICATION_COUNT: usize = 2;

/// Maximum length of the successor list (L).
pub const SUCCESSOR_LIST_LIMIT: usize = 5;

/// Default port a node listens on.
pub const DEFAULT_PORT: u16 = 5000;

/// Period of the stabilize activity, in milliseconds.
pub const STABILIZATION_INTERVAL_MS: u64 = 1000;

/// Period of the fix-fingers activity, in milliseconds.
pub const FIX_FINGERS_INTERVAL_MS: u64 = 1000;

/// Period of the check-predecessor activity, in milliseconds.
pub const CHECK_PREDECESSOR_INTERVAL_MS: u64 = 1000;

/// Period of the replica-maintenance activity, in milliseconds.
pub const MAINTAIN_REPLICATION_INTERVAL_MS: u64 = 1000;

/// Grace delay between answering a leave request and exiting, in milliseconds.
pub const LEAVE_EXIT_DELAY_MS: u64 = 100;

} // verus!
