//! The periodic maintenance steps: successor repair, successor-list
//! propagation, finger refresh, predecessor liveness.
//!
//! Each remote exchange of a maintenance round is split at the call: the
//! transport asks the peer and hands the outcome to an apply function here,
//! which performs the whole local decision.

use vstd::prelude::*;
use crate::constants::{FINGER_TABLE_SIZE, SUCCESSOR_LIST_LIMIT};
use crate::ident::{compute_finger_target, finger_target, in_open_interval};
use crate::info::NodeInfo;
use crate::node::Node;

verus! {

/// The outcome of asking the observed successor for its predecessor.
pub enum PredecessorReply {
    /// The successor answered with a predecessor handle.
    Known(NodeInfo),
    /// The successor is alive but has no predecessor yet.
    Absent,
    /// The successor could not be reached: a transport error.
    Unreachable,
}

/// Whether a predecessor handle received over the wire is usable: an
/// all-default handle (id zero and empty address) stands for "none" and is
/// never adopted.
pub open spec fn usable_handle(x: NodeInfo) -> bool {
    x.id != 0 || x.address@.len() > 0
}

/// Whether a stabilize round promotes the reported predecessor `x` of the
/// observed successor to be this node's new immediate successor: the handle
/// is usable, lies strictly between this node and the observed successor,
/// and the successor list still has the observed successor at its head.
pub open spec fn promotes(n: Node, observed: NodeInfo, x: NodeInfo) -> bool {
    &&& usable_handle(x)
    &&& in_open_interval(x.id, n.id, observed.id)
    &&& n.state.successor_list[0].id == observed.id
}

impl Node {
    /// Applies the first half of a stabilize round, after the observed
    /// successor `observed` was asked for its predecessor and `reply` came
    /// back: a usable predecessor strictly between this node and `observed`
    /// becomes the new head; an unreachable successor is dropped from the
    /// list when a fallback exists. Returns whether the round goes on to
    /// notify (a round that dropped its successor retries at the next tick
    /// instead).
    pub fn stabilize_apply(&mut self, observed: &NodeInfo, reply: PredecessorReply) -> (proceed:
        bool)
        requires
            old(self).wf(),
        ensures
            final(self).wf(),
            final(self).id == old(self).id,
            final(self).addr == old(self).addr,
            final(self).state.predecessor == old(self).state.predecessor,
            final(self).state.finger_table == old(self).state.finger_table,
            final(self).state.store == old(self).state.store,
            match reply {
                PredecessorReply::Known(x) => {
                    &&& proceed == true
                    &&& if promotes(*old(self), *observed, x) {
                        final(self).state.successor_list@ =~= old(
                            self,
                        ).state.successor_list@.update(0, x)
                    } else {
                        final(self).state.successor_list == old(self).state.successor_list
                    }
                },
                PredecessorReply::Absent => {
                    &&& proceed == true
                    &&& final(self).state.successor_list == old(self).state.successor_list
                },
                PredecessorReply::Unreachable => {
                    if old(self).state.successor_list@.len() > 1 {
                        &&& proceed == false
                        &&& final(self).state.successor_list@ =~= old(
                            self,
                        ).state.successor_list@.drop_first()
                    } else {
                        &&& proceed == true
                        &&& final(self).state.successor_list == old(self).state.successor_list
                    }
                },
            },
    {
        match reply {
            PredecessorReply::Known(x) => {
                let usable = x.id != 0 || !x.address.as_str().is_empty();
                if usable && Self::is_in_range(x.id, self.id, observed.id) {
                    if self.state.successor_list[0].id == observed.id {
                        self.state.successor_list[0] = x;
                    }
                }
                true
            },
            PredecessorReply::Absent => true,
            PredecessorReply::Unreachable => {
                if self.state.successor_list.len() > 1 {
                    self.state.successor_list.remove(0);
                    proof {
                        assert(self.state.successor_list@ =~= old(
                            self,
                        ).state.successor_list@.drop_first());
                    }
                    false
                } else {
                    true
                }
            },
        }
    }

    /// Applies the second half of a stabilize round: the successor list
    /// becomes the current head followed by the successors the head
    /// reported, truncated to `SUCCESSOR_LIST_LIMIT`.
    #[verifier::loop_isolation(false)]
    pub fn apply_successor_list(&mut self, received: Vec<NodeInfo>)
        requires
            old(self).wf(),
        ensures
            final(self).wf(),
            final(self).id == old(self).id,
            final(self).addr == old(self).addr,
            final(self).state.predecessor == old(self).state.predecessor,
            final(self).state.finger_table == old(self).state.finger_table,
            final(self).state.store == old(self).state.store,
            final(self).state.successor_list@ =~= (seq![old(self).state.successor_list@[0]]
                + received@).take(
                if 1 + received@.len() < SUCCESSOR_LIST_LIMIT {
                    1 + received@.len() as int
                } else {
                    SUCCESSOR_LIST_LIMIT as int
                },
            ),
    {
        let head = self.state.successor_list[0].clone();
        let ghost concat = seq![old(self).state.successor_list@[0]] + received@;
        let mut new_list: Vec<NodeInfo> = Vec::new();
        new_list.push(head);
        proof {
            assert(new_list@ =~= concat.take(1));
        }
        let mut i: usize = 0;
        while i < received.len() && new_list.len() < SUCCESSOR_LIST_LIMIT
            invariant
                i <= received@.len(),
                1 <= new_list@.len() <= SUCCESSOR_LIST_LIMIT,
                new_list@.len() == if 1 + i < SUCCESSOR_LIST_LIMIT {
                    1 + i as int
                } else {
                    SUCCESSOR_LIST_LIMIT as int
                },
                new_list@ =~= concat.take(new_list@.len() as int),
            decreases received@.len() - i,
        {
            new_list.push(received[i].clone());
            proof {
                assert(new_list@ =~= concat.take(new_list@.len() as int));
            }
            i = i + 1;
        }
        self.state.successor_list = new_list;
    }

    /// The identifier whose successor belongs in finger-table entry `i`.
    pub fn fix_finger_target(&self, i: usize) -> (t: u64)
        requires
            i < FINGER_TABLE_SIZE,
        ensures
            t == finger_target(self.id, i as int),
    {
        compute_finger_target(self.id, i)
    }

    /// Writes the successor found for entry `i`'s target into the finger
    /// table.
    pub fn apply_fix_finger(&mut self, i: usize, info: NodeInfo)
        requires
            old(self).wf(),
            i < FINGER_TABLE_SIZE,
        ensures
            final(self).wf(),
            final(self).id == old(self).id,
            final(self).addr == old(self).addr,
            final(self).state.predecessor == old(self).state.predecessor,
            final(self).state.finger_table@ =~= old(self).state.finger_table@.update(
                i as int,
                info,
            ),
            final(self).state.successor_list == old(self).state.successor_list,
            final(self).state.store == old(self).state.store,
    {
        self.state.finger_table[i] = info;
    }
}

} // verus!
