//! Laws of the key-movement protocol, stated over the store model.
//!
//! Each law relates the contracts of several store operations: what `notify`
//! computes for a new predecessor, what `transfer_keys` does on the
//! receiving node, what `transfer_ack` does on the sending node, and what
//! `put` and `get` do to one key.

use vstd::prelude::*;
use crate::digest::hash_of;
use crate::ident::in_half_open_interval;

verus! {

/// Idempotence of put: storing the same pair again changes nothing, and a
/// lookup after a put returns exactly the value put — whichever node's
/// store the routed put ended on.
pub proof fn theorem_put_idempotent(
    store: Map<Seq<char>, Seq<char>>,
    k: Seq<char>,
    v: Seq<char>,
)
    ensures
        store.insert(k, v).insert(k, v) =~= store.insert(k, v),
        store.insert(k, v).contains_key(k),
        store.insert(k, v)[k] == v,
{
}

/// Graceful leave preserves keys: when a leaving node's whole store is
/// merged into its successor's store — the successor applying
/// `transfer_keys` to the batch of `leave_plan` — every key the leaver held
/// is on the successor with the leaver's value.
pub proof fn theorem_leave_preserves_keys(
    leaver: Map<Seq<char>, Seq<char>>,
    succ: Map<Seq<char>, Seq<char>>,
    k: Seq<char>,
)
    requires
        leaver.contains_key(k),
    ensures
        succ.union_prefer_right(leaver).contains_key(k),
        succ.union_prefer_right(leaver)[k] == leaver[k],
{
}

/// A store after a batch of pairs is applied to it in order, each pair by
/// the replicate handler's insert.
pub open spec fn apply_pairs(
    m: Map<Seq<char>, Seq<char>>,
    pairs: Seq<(Seq<char>, Seq<char>)>,
) -> Map<Seq<char>, Seq<char>>
    decreases pairs.len(),
{
    if pairs.len() == 0 {
        m
    } else {
        apply_pairs(m, pairs.drop_last()).insert(pairs.last().0, pairs.last().1)
    }
}

/// A batch whose pairs all carry current values of `store`, and which holds
/// `k` somewhere, leaves `k` mapped to `store[k]` once applied.
proof fn lemma_apply_pairs_value(
    store: Map<Seq<char>, Seq<char>>,
    pairs: Seq<(Seq<char>, Seq<char>)>,
    replica: Map<Seq<char>, Seq<char>>,
    k: Seq<char>,
)
    requires
        forall|j: int|
            0 <= j < pairs.len() ==> store.contains_key((#[trigger] pairs[j]).0) && pairs[j].1
                == store[pairs[j].0],
        exists|j: int| 0 <= j < pairs.len() && (#[trigger] pairs[j]).0 == k,
        store.contains_key(k),
    ensures
        apply_pairs(replica, pairs).contains_key(k),
        apply_pairs(replica, pairs)[k] == store[k],
    decreases pairs.len(),
{
    if pairs.last().0 == k {
        assert(pairs.last().1 == store[k]);
    } else {
        let dl = pairs.drop_last();
        let j = choose|j: int| 0 <= j < pairs.len() && (#[trigger] pairs[j]).0 == k;
        assert(j < pairs.len() - 1);
        assert(dl[j] == pairs[j]);
        assert forall|j2: int| 0 <= j2 < dl.len() implies store.contains_key(
            (#[trigger] dl[j2]).0,
        ) && dl[j2].1 == store[dl[j2].0] by {
            assert(dl[j2] == pairs[j2]);
        }
        lemma_apply_pairs_value(store, dl, replica, k);
    }
}

/// Eventual replica coverage: a successor that applies a maintenance batch
/// ends up holding every key the batch's sender holds as primary — every
/// key id in the sender's ownership interval `(pred_id, self_id]` — with
/// the sender's value. The two premises on `pairs` are exactly what the
/// sender's batch computation ensures: each batched pair carries a current
/// value, and every primary key is batched.
pub proof fn theorem_replica_coverage(
    store: Map<Seq<char>, Seq<char>>,
    pairs: Seq<(Seq<char>, Seq<char>)>,
    replica: Map<Seq<char>, Seq<char>>,
    k: Seq<char>,
    pred_id: u64,
    self_id: u64,
)
    requires
        forall|j: int|
            0 <= j < pairs.len() ==> store.contains_key((#[trigger] pairs[j]).0) && pairs[j].1
                == store[pairs[j].0],
        forall|k2: Seq<char>|
            store.contains_key(k2) && in_half_open_interval(hash_of(k2), pred_id, self_id)
                ==> exists|j: int| 0 <= j < pairs.len() && (#[trigger] pairs[j]).0 == k2,
        store.contains_key(k),
        in_half_open_interval(hash_of(k), pred_id, self_id),
    ensures
        apply_pairs(replica, pairs).contains_key(k),
        apply_pairs(replica, pairs)[k] == store[k],
{
    lemma_apply_pairs_value(store, pairs, replica, k);
}

/// Key transfer on join: when the owner of a key adopts a new predecessor
/// that now owns the key — the key's id falls outside the owner's shrunken
/// interval `(p_id, self_id]` — the key is in the transferred batch with
/// its value; once the predecessor merges the batch and the owner drops the
/// acknowledged keys, the key sits on the new predecessor and no longer on
/// the previous owner.
///
/// The two premises on `moved` are exactly what `notify` ensures of the
/// batch it hands back; the conclusions speak of the stores after
/// `transfer_keys` on the predecessor and `transfer_ack` on the owner.
pub proof fn theorem_join_transfer(
    owner: Map<Seq<char>, Seq<char>>,
    moved: Map<Seq<char>, Seq<char>>,
    pred: Map<Seq<char>, Seq<char>>,
    k: Seq<char>,
    p_id: u64,
    self_id: u64,
)
    requires
        forall|k2: Seq<char>|
            moved.contains_key(k2) <==> owner.contains_key(k2) && !in_half_open_interval(
                hash_of(k2),
                p_id,
                self_id,
            ),
        forall|k2: Seq<char>| moved.contains_key(k2) ==> moved[k2] == owner[k2],
        owner.contains_key(k),
        !in_half_open_interval(hash_of(k), p_id, self_id),
    ensures
        moved.contains_key(k),
        moved[k] == owner[k],
        pred.union_prefer_right(moved).contains_key(k),
        pred.union_prefer_right(moved)[k] == owner[k],
        !owner.remove_keys(moved.dom()).contains_key(k),
{
}

} // verus!
