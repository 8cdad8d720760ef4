//! The stabilized ring, modelled by the ids of its live nodes.
//!
//! A set of live nodes is modelled as the sequence of their ids in strictly
//! increasing order. After stabilization every node's immediate successor
//! pointer holds the next id clockwise, which this module defines from the
//! ids alone; the theorems here state what the protocol's maintenance
//! converges to: the successors close into a cycle through all live nodes,
//! and every identifier is owned by exactly one node.

use vstd::prelude::*;
use crate::ident::in_half_open_interval;

verus! {

/// The ring model: the live nodes' ids in strictly increasing order.
pub open spec fn strictly_increasing(ids: Seq<u64>) -> bool {
    forall|i: int, j: int| 0 <= i < j < ids.len() ==> ids[i] < ids[j]
}

/// How many ids are strictly below `x`.
pub open spec fn count_below(ids: Seq<u64>, x: u64) -> int
    decreases ids.len(),
{
    if ids.len() == 0 {
        0
    } else {
        count_below(ids.drop_last(), x) + if ids.last() < x {
            1int
        } else {
            0int
        }
    }
}

/// In a sorted sequence, the ids below `x` are exactly the first
/// `count_below` entries.
pub proof fn lemma_count_below_prefix(ids: Seq<u64>, x: u64)
    requires
        strictly_increasing(ids),
    ensures
        0 <= count_below(ids, x) <= ids.len(),
        forall|j: int| 0 <= j < ids.len() ==> (ids[j] < x <==> j < count_below(ids, x)),
    decreases ids.len(),
{
    if ids.len() == 0 {
    } else {
        let dl = ids.drop_last();
        assert(forall|j: int| 0 <= j < dl.len() ==> dl[j] == ids[j]);
        lemma_count_below_prefix(dl, x);
        let c = count_below(dl, x);
        if ids.last() < x {
            assert forall|j: int| 0 <= j < dl.len() implies dl[j] < x by {
                assert(ids[j] <= ids[ids.len() - 1]);
            }
            assert(c == dl.len());
        }
    }
}

/// The index of the node that owns identifier `t`: the first node whose id
/// is at or above `t`, wrapping to the first node when every id is below.
pub open spec fn owner_index(ids: Seq<u64>, t: u64) -> int {
    if count_below(ids, t) == ids.len() {
        0
    } else {
        count_below(ids, t)
    }
}

/// The index of the node clockwise-behind position `i`.
pub open spec fn pred_index(ids: Seq<u64>, i: int) -> int {
    if i == 0 {
        ids.len() - 1
    } else {
        i - 1
    }
}

/// Whether the node at position `i` owns identifier `t`: `t` lies in the
/// half-open interval from its predecessor's id to its own.
pub open spec fn owns(ids: Seq<u64>, i: int, t: u64) -> bool {
    in_half_open_interval(t, ids[pred_index(ids, i)], ids[i])
}

/// Unique ownership: on a stabilized ring, every identifier — in
/// particular, every key id — is owned by exactly one live node.
pub proof fn theorem_unique_ownership(ids: Seq<u64>, t: u64)
    requires
        strictly_increasing(ids),
        1 <= ids.len(),
    ensures
        0 <= owner_index(ids, t) < ids.len(),
        owns(ids, owner_index(ids, t), t),
        forall|i: int, j: int|
            0 <= i < ids.len() && 0 <= j < ids.len() && owns(ids, i, t) && owns(ids, j, t) ==> i
                == j,
{
    lemma_count_below_prefix(ids, t);
    let n = ids.len() as int;
    let b = count_below(ids, t);
    if n == 1 {
        assert(owns(ids, 0, t));
    } else {
        assert(ids[0] < ids[n - 1]);
        if b == n {
            assert(ids[n - 1] < t);
            assert(owns(ids, 0, t));
        } else if b == 0 {
            assert(t <= ids[0]);
            assert(owns(ids, 0, t));
        } else {
            assert(ids[b - 1] < t);
            assert(!(ids[b] < t));
            assert(ids[b - 1] < ids[b]);
            assert(owns(ids, b, t));
        }
    }
    assert forall|i: int, j: int|
        0 <= i < n && 0 <= j < n && owns(ids, i, t) && owns(ids, j, t) implies i == j by {
        if i != j {
            let lo = if i < j {
                i
            } else {
                j
            };
            let hi = if i < j {
                j
            } else {
                i
            };
            assert(owns(ids, lo, t) && owns(ids, hi, t) && 0 <= lo < hi < n);
            if lo == 0 {
                assert(in_half_open_interval(t, ids[n - 1], ids[0]));
                assert(in_half_open_interval(t, ids[hi - 1], ids[hi]));
                assert(ids[0] <= ids[hi - 1]);
                assert(ids[hi] <= ids[n - 1]);
            } else {
                assert(in_half_open_interval(t, ids[lo - 1], ids[lo]));
                assert(in_half_open_interval(t, ids[hi - 1], ids[hi]));
                assert(ids[lo] <= ids[hi - 1]);
            }
        }
    }
}

/// The position after `k` on a ring of `len` nodes.
pub open spec fn step_index(len: int, k: int) -> int {
    if k + 1 < len {
        k + 1
    } else {
        0
    }
}

/// The position reached from `k` after `n` successor hops.
pub open spec fn follow_index(len: int, k: int, n: nat) -> int
    decreases n,
{
    if n == 0 {
        k
    } else {
        follow_index(len, step_index(len, k), (n - 1) as nat)
    }
}

/// The id of the live node after the node with id `x`: the smallest live id
/// above `x`, wrapping to the smallest id overall. This is what
/// `successor_list[0]` converges to under stabilization.
pub open spec fn next_id(ids: Seq<u64>, x: u64) -> u64 {
    ids[owner_index(ids, (x as int + 1) as u64)]
}

/// The id reached from `x` after `n` hops along successor pointers.
pub open spec fn follow(ids: Seq<u64>, x: u64, n: nat) -> u64
    decreases n,
{
    if n == 0 {
        x
    } else {
        follow(ids, next_id(ids, x), (n - 1) as nat)
    }
}

/// The successor of a member node is the member at the next position.
pub proof fn lemma_next_of_member(ids: Seq<u64>, k: int)
    requires
        strictly_increasing(ids),
        0 <= k < ids.len(),
        ids[k] < u64::MAX,
    ensures
        next_id(ids, ids[k]) == ids[step_index(ids.len() as int, k)],
{
    let t = (ids[k] + 1) as u64;
    lemma_count_below_prefix(ids, t);
    let b = count_below(ids, t);
    assert(ids[k] < t);
    assert(k < b);
    if k + 1 < ids.len() {
        assert(ids[k] < ids[k + 1]);
        assert(!(ids[k + 1] < t));
        assert(b <= k + 1);
    }
    assert(b == k + 1);
}

/// Following `n` hops lands `n` positions ahead, wrapping once at most when
/// `n` does not exceed the ring size.
pub proof fn lemma_follow_index(len: int, k: int, n: nat)
    requires
        0 <= k < len,
        n <= len,
    ensures
        follow_index(len, k, n) == if k + n < len {
            k + n
        } else {
            k + n - len
        },
    decreases n,
{
    if n == 0 {
    } else {
        lemma_follow_index(len, step_index(len, k), (n - 1) as nat);
    }
}

/// Hops along the ideal successor pointers visit member positions in order.
pub proof fn lemma_follow_members(ids: Seq<u64>, k: int, n: nat)
    requires
        strictly_increasing(ids),
        0 <= k < ids.len(),
        forall|j: int| 0 <= j < ids.len() ==> ids[j] < u64::MAX,
    ensures
        follow(ids, ids[k], n) == ids[follow_index(ids.len() as int, k, n)],
        0 <= follow_index(ids.len() as int, k, n) < ids.len(),
    decreases n,
{
    if n == 0 {
    } else {
        lemma_next_of_member(ids, k);
        lemma_follow_members(ids, step_index(ids.len() as int, k), (n - 1) as nat);
    }
}

/// Ring closure: on a stabilized ring of `N` live nodes, following the
/// immediate successor pointer from any node returns to that node after
/// exactly `N` hops — `N` hops close the cycle, and no fewer do.
///
/// The ids are assumed below `u64::MAX` so that every id has a strict
/// clockwise follower in the identifier space; the hash providing the ids
/// makes the value `2^64 - 1` all but unreachable.
pub proof fn theorem_ring_closure(ids: Seq<u64>, k: int)
    requires
        strictly_increasing(ids),
        1 <= ids.len(),
        0 <= k < ids.len(),
        forall|j: int| 0 <= j < ids.len() ==> ids[j] < u64::MAX,
    ensures
        follow(ids, ids[k], ids.len() as nat) == ids[k],
        forall|m: int| 0 < m < ids.len() ==> #[trigger] follow(ids, ids[k], m as nat) != ids[k],
{
    let n = ids.len() as int;
    lemma_follow_members(ids, k, ids.len() as nat);
    lemma_follow_index(n, k, ids.len() as nat);
    assert forall|m: int| 0 < m < n implies #[trigger] follow(ids, ids[k], m as nat) != ids[k] by {
        lemma_follow_members(ids, k, m as nat);
        lemma_follow_index(n, k, m as nat);
        let idx = follow_index(n, k, m as nat);
        assert(idx != k);
        if idx < k {
            assert(ids[idx] < ids[k]);
        } else {
            assert(ids[k] < ids[idx]);
        }
    }
}

/// Durability under a single failure: with at least two live nodes, a key's
/// primary and the primary's immediate successor are distinct nodes, so
/// after both hold the key — as one round of replica maintenance ensures —
/// any single crash leaves at least one holder alive.
pub proof fn theorem_single_failure_durability(ids: Seq<u64>, k: int, crashed: u64)
    requires
        strictly_increasing(ids),
        2 <= ids.len(),
        0 <= k < ids.len(),
        ids[k] < u64::MAX,
    ensures
        next_id(ids, ids[k]) != ids[k],
        ids[k] != crashed || next_id(ids, ids[k]) != crashed,
{
    lemma_next_of_member(ids, k);
    let s = step_index(ids.len() as int, k);
    assert(s != k);
    if s < k {
        assert(ids[s] < ids[k]);
    } else {
        assert(ids[k] < ids[s]);
    }
}

} // verus!
