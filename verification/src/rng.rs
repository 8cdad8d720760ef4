//! Random choices made by the maintenance activities.
//!
//! Randomness only amortizes work (which finger to refresh, which node to
//! use as an entry point); no contract depends on which value comes back,
//! only on its range.

use vstd::prelude::*;
use rand::Rng;
use crate::constants::FINGER_TABLE_SIZE;

verus! {

/// Relies on `rand::thread_rng` and `Rng::gen_range`: returns a value drawn
/// from `0..FINGER_TABLE_SIZE`. Nothing is promised of which value comes back.
#[verifier::external_body]
pub fn pick_finger_index() -> (i: usize)
    ensures
        i < FINGER_TABLE_SIZE,
{
    let mut rng = rand::thread_rng();
    rng.gen_range(0..FINGER_TABLE_SIZE)
}

/// Relies on `rand::thread_rng` and `Rng::gen_range`: returns a value drawn
/// from `0..n`. `gen_range` panics on an empty range, so `n` must be positive.
/// Nothing is promised of which value comes back.
#[verifier::external_body]
pub fn random_below(n: usize) -> (r: usize)
    requires
        n > 0,
    ensures
        r < n,
{
    let mut rng = rand::thread_rng();
    rng.gen_range(0..n)
}

} // verus!
