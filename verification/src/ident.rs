//! The circular 64-bit identifier space.
//!
//! Node ids and key ids live in `[0, 2^64)` under wrap-around arithmetic.
//! Routing and ownership are decided by circular interval membership:
//! the open interval `(start, end)` and the half-open interval `(start, end]`,
//! both read clockwise. When `start == end` the open interval is the whole
//! ring except `start`, and the half-open interval is the whole ring.

use vstd::prelude::*;

verus! {

/// Membership in the open circular interval `(start, end)`.
pub open spec fn in_open_interval(x: u64, start: u64, end: u64) -> bool {
    if start < end {
        start < x && x < end
    } else {
        x > start || x < end
    }
}

/// Membership in the half-open circular interval `(start, end]`.
pub open spec fn in_half_open_interval(x: u64, start: u64, end: u64) -> bool {
    if start < end {
        start < x && x <= end
    } else {
        x > start || x <= end
    }
}

/// Decides membership in the open circular interval `(start, end)`.
pub fn open_interval_contains(x: u64, start: u64, end: u64) -> (r: bool)
    ensures
        r == in_open_interval(x, start, end),
{
    if start < end {
        x > start && x < end
    } else {
        x > start || x < end
    }
}

/// Decides membership in the half-open circular interval `(start, end]`.
pub fn half_open_interval_contains(x: u64, start: u64, end: u64) -> (r: bool)
    ensures
        r == in_half_open_interval(x, start, end),
{
    if start < end {
        x > start && x <= end
    } else {
        x > start || x <= end
    }
}

/// The target identifier of finger-table entry `i` of a node with id `id`:
/// `id + 2^i` with wrap-around.
pub open spec fn finger_target(id: u64, i: int) -> u64
    recommends
        0 <= i < 64,
{
    ((id + (1u64 << i)) % 0x1_0000_0000_0000_0000) as u64
}

/// Computes the target identifier of finger-table entry `i`.
pub fn compute_finger_target(id: u64, i: usize) -> (t: u64)
    requires
        i < 64,
    ensures
        t == finger_target(id, i as int),
{
    id.wrapping_add(1u64 << i)
}

} // verus!
