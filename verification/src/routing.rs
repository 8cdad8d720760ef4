//! The routing engine: one local step of `find_successor`.
//!
//! A lookup for `target` either ends at this node — the target falls in the
//! half-open interval up to the immediate successor — or is forwarded. The
//! hops to try are the finger-table entries strictly between this node and
//! the target, one per id, closest preceding first; the transport tries them
//! in order and falls back to the successor list when all fail.

use vstd::prelude::*;
use crate::ident::{in_half_open_interval, in_open_interval};
use crate::info::NodeInfo;
use crate::node::Node;

verus! {

/// What a routing step decides.
pub enum RouteStep {
    /// The lookup ends: this handle is the best known successor of the
    /// target.
    Answer(NodeInfo),
    /// The lookup must be forwarded: the hops to try, in order.
    Forward(Vec<NodeInfo>),
}

/// Whether a finger-table entry is a usable hop toward `target`: it has an
/// address and lies strictly between this node and the target.
pub open spec fn qualifies(f: NodeInfo, self_id: u64, target: u64) -> bool {
    f.address@.len() > 0 && in_open_interval(f.id, self_id, target)
}

/// Hop ids strictly decrease along the list: closest preceding first, no id
/// twice.
pub open spec fn strictly_descending(s: Seq<NodeInfo>) -> bool {
    forall|a: int, b: int| 0 <= a < b < s.len() ==> s[a].id > s[b].id
}

/// `h` carries the id and address of some entry of `l`.
pub open spec fn drawn_from(l: Seq<NodeInfo>, h: NodeInfo) -> bool {
    exists|i: int| 0 <= i < l.len() && h.id == (#[trigger] l[i]).id && h.address@ == l[i].address@
}

/// Some entry of `l` has id `id`.
pub open spec fn covers_id(l: Seq<NodeInfo>, id: u64) -> bool {
    exists|i: int| 0 <= i < l.len() && (#[trigger] l[i]).id == id
}

impl Node {
    /// Collects every finger-table entry that is a usable hop toward
    /// `target`, in table order, duplicates included.
    #[verifier::loop_isolation(false)]
    fn collect_candidates(&self, target: u64) -> (raw: Vec<NodeInfo>)
        requires
            self.wf(),
        ensures
            forall|j: int| 0 <= j < raw@.len() ==> qualifies(#[trigger] raw@[j], self.id, target),
            forall|j: int|
                0 <= j < raw@.len() ==> drawn_from(self.state.finger_table@, #[trigger] raw@[j]),
            forall|i: int|
                0 <= i < self.state.finger_table@.len() && qualifies(
                    #[trigger] self.state.finger_table@[i],
                    self.id,
                    target,
                ) ==> covers_id(raw@, self.state.finger_table@[i].id),
    {
        let fingers = &self.state.finger_table;
        let mut raw: Vec<NodeInfo> = Vec::new();
        let ghost mut src: Seq<int> = Seq::empty();
        let mut i: usize = 0;
        while i < fingers.len()
            invariant
                i <= fingers@.len(),
                src.len() == raw@.len(),
                forall|j: int|
                    0 <= j < raw@.len() ==> {
                        &&& 0 <= #[trigger] src[j] < i
                        &&& raw@[j].id == fingers@[src[j]].id
                        &&& raw@[j].address@ == fingers@[src[j]].address@
                        &&& qualifies(fingers@[src[j]], self.id, target)
                    },
                forall|a: int|
                    0 <= a < i && qualifies(#[trigger] fingers@[a], self.id, target) ==> covers_id(
                        raw@,
                        fingers@[a].id,
                    ),
            decreases fingers@.len() - i,
        {
            let f = &fingers[i];
            let ghost prev = raw@;
            if !f.address.as_str().is_empty() && Self::is_in_range(f.id, self.id, target) {
                raw.push(f.clone());
                proof {
                    src = src.push(i as int);
                }
            }
            proof {
                assert forall|a: int|
                    0 <= a < i + 1 && qualifies(
                        #[trigger] fingers@[a],
                        self.id,
                        target,
                    ) implies covers_id(raw@, fingers@[a].id) by {
                    if a < i {
                        let j = choose|j: int|
                            0 <= j < prev.len() && (#[trigger] prev[j]).id == fingers@[a].id;
                        assert((#[trigger] raw@[j]).id == fingers@[a].id);
                        assert(covers_id(raw@, fingers@[a].id));
                    } else {
                        let j = raw@.len() - 1;
                        assert((#[trigger] raw@[j]).id == fingers@[a].id);
                        assert(covers_id(raw@, fingers@[a].id));
                    }
                }
            }
            i = i + 1;
        }
        proof {
            assert forall|j: int| 0 <= j < raw@.len() implies qualifies(
                #[trigger] raw@[j],
                self.id,
                target,
            ) by {
                assert(raw@[j].id == fingers@[src[j]].id && raw@[j].address@
                    == fingers@[src[j]].address@);
            }
            assert forall|j: int| 0 <= j < raw@.len() implies drawn_from(
                self.state.finger_table@,
                #[trigger] raw@[j],
            ) by {
                let i2 = src[j];
                assert(0 <= i2 < self.state.finger_table@.len() && raw@[j].id == (
                #[trigger] self.state.finger_table@[i2]).id && raw@[j].address@
                    == self.state.finger_table@[i2].address@);
            }
        }
        raw
    }

    /// Orders hops by descending id and keeps one entry per id.
    #[verifier::loop_isolation(false)]
    fn dedup_descending(raw: &Vec<NodeInfo>) -> (out: Vec<NodeInfo>)
        ensures
            strictly_descending(out@),
            forall|j: int| 0 <= j < out@.len() ==> drawn_from(raw@, #[trigger] out@[j]),
            forall|a: int| 0 <= a < raw@.len() ==> covers_id(out@, (#[trigger] raw@[a]).id),
    {
        let mut out: Vec<NodeInfo> = Vec::new();
        let ghost mut src: Seq<int> = Seq::empty();
        let ghost mut wit: Seq<int> = Seq::empty();
        let mut a: usize = 0;
        while a < raw.len()
            invariant
                a <= raw@.len(),
                strictly_descending(out@),
                src.len() == out@.len(),
                wit.len() == a,
                forall|j: int|
                    0 <= j < out@.len() ==> {
                        &&& 0 <= #[trigger] src[j] < a
                        &&& out@[j].id == raw@[src[j]].id
                        &&& out@[j].address@ == raw@[src[j]].address@
                    },
                forall|b: int|
                    0 <= b < a ==> {
                        &&& 0 <= #[trigger] wit[b] < out@.len()
                        &&& out@[wit[b]].id == raw@[b].id
                    },
            decreases raw@.len() - a,
        {
            let e = &raw[a];
            let ghost prev = out@;
            let mut p: usize = 0;
            while p < out.len() && out[p].id > e.id
                invariant
                    p <= out@.len(),
                    forall|q: int| 0 <= q < p ==> (#[trigger] out@[q]).id > e.id,
                decreases out@.len() - p,
            {
                p = p + 1;
            }
            if p < out.len() && out[p].id == e.id {
                proof {
                    wit = wit.push(p as int);
                }
            } else {
                out.insert(p, e.clone());
                proof {
                    prev.insert_ensures(p as int, raw@[a as int]);
                    assert(out@ =~= prev.insert(p as int, raw@[a as int]));
                    let ghost old_src = src;
                    let ghost old_wit = wit;
                    src = src.insert(p as int, a as int);
                    wit = Seq::new(
                        old_wit.len(),
                        |b: int|
                            if old_wit[b] >= p {
                                old_wit[b] + 1
                            } else {
                                old_wit[b]
                            },
                    ).push(p as int);
                    assert forall|a2: int, b2: int| 0 <= a2 < b2 < out@.len() implies out@[a2].id
                        > out@[b2].id by {
                        if a2 < p && b2 < p {
                            assert(out@[a2] == prev[a2] && out@[b2] == prev[b2]);
                        } else if a2 < p && b2 == p {
                            assert(out@[a2] == prev[a2]);
                        } else if a2 < p && b2 > p {
                            assert(out@[a2] == prev[a2] && out@[b2] == prev[b2 - 1]);
                        } else if a2 == p && b2 > p {
                            assert(out@[b2] == prev[b2 - 1]);
                            assert(p < prev.len());
                            assert(!(prev[p as int].id > e.id));
                            assert(prev[p as int].id != e.id);
                            assert(p <= b2 - 1 < prev.len());
                        } else {
                            assert(out@[a2] == prev[a2 - 1] && out@[b2] == prev[b2 - 1]);
                        }
                    }
                    assert forall|j: int| 0 <= j < out@.len() implies {
                        &&& 0 <= #[trigger] src[j] < a + 1
                        &&& out@[j].id == raw@[src[j]].id
                        &&& out@[j].address@ == raw@[src[j]].address@
                    } by {
                        old_src.insert_ensures(p as int, a as int);
                        if j < p {
                            assert(out@[j] == prev[j] && src[j] == old_src[j]);
                        } else if j == p {
                            assert(src[j] == a as int);
                        } else {
                            assert(out@[j] == prev[j - 1] && src[j] == old_src[j - 1]);
                        }
                    }
                    assert forall|b: int| 0 <= b < a + 1 implies {
                        &&& 0 <= #[trigger] wit[b] < out@.len()
                        &&& out@[wit[b]].id == raw@[b].id
                    } by {
                        if b < a {
                            if old_wit[b] >= p {
                                assert(wit[b] == old_wit[b] + 1);
                                assert(out@[old_wit[b] + 1] == prev[old_wit[b]]);
                            } else {
                                assert(wit[b] == old_wit[b]);
                                assert(out@[old_wit[b]] == prev[old_wit[b]]);
                            }
                        } else {
                            assert(wit[b] == p as int);
                            assert(out@[p as int] == raw@[a as int]);
                        }
                    }
                }
            }
            a = a + 1;
        }
        proof {
            assert forall|j: int| 0 <= j < out@.len() implies drawn_from(
                raw@,
                #[trigger] out@[j],
            ) by {
                let a2 = src[j];
                assert(0 <= a2 < raw@.len() && out@[j].id == (#[trigger] raw@[a2]).id
                    && out@[j].address@ == raw@[a2].address@);
            }
            assert forall|a2: int| 0 <= a2 < raw@.len() implies covers_id(
                out@,
                (#[trigger] raw@[a2]).id,
            ) by {
                let j = wit[a2];
                assert(0 <= j < out@.len() && (#[trigger] out@[j]).id == raw@[a2].id);
            }
        }
        out
    }

    /// One local routing step for `target`. Ends with the immediate
    /// successor when the target falls in `(self.id, successor.id]`, or when
    /// no finger is a usable hop; otherwise forwards along the qualifying
    /// finger entries, deduplicated by id in descending order.
    #[verifier::rlimit(50)]
    pub fn find_successor_step(&self, target: u64) -> (r: RouteStep)
        requires
            self.wf(),
        ensures
            in_half_open_interval(target, self.id, self.state.successor_list@[0].id) ==> (r
                matches RouteStep::Answer(a) && a == self.state.successor_list@[0]),
            match r {
                RouteStep::Answer(a) => {
                    &&& a == self.state.successor_list@[0]
                    &&& !in_half_open_interval(target, self.id, self.state.successor_list@[0].id)
                        ==> forall|i: int|
                        0 <= i < self.state.finger_table@.len() ==> !qualifies(
                            #[trigger] self.state.finger_table@[i],
                            self.id,
                            target,
                        )
                },
                RouteStep::Forward(hops) => {
                    &&& !in_half_open_interval(target, self.id, self.state.successor_list@[0].id)
                    &&& hops@.len() > 0
                    &&& strictly_descending(hops@)
                    &&& forall|j: int|
                        0 <= j < hops@.len() ==> qualifies(#[trigger] hops@[j], self.id, target)
                    &&& forall|j: int|
                        0 <= j < hops@.len() ==> drawn_from(
                            self.state.finger_table@,
                            #[trigger] hops@[j],
                        )
                    &&& forall|i: int|
                        0 <= i < self.state.finger_table@.len() && qualifies(
                            #[trigger] self.state.finger_table@[i],
                            self.id,
                            target,
                        ) ==> covers_id(hops@, self.state.finger_table@[i].id)
                },
            },
    {
        let successor = self.state.successor_list[0].clone();
        if Self::is_in_range_inclusive(target, self.id, successor.id) {
            return RouteStep::Answer(successor);
        }
        let raw = self.collect_candidates(target);
        if raw.len() == 0 {
            proof {
                assert forall|i: int| 0 <= i < self.state.finger_table@.len() implies !qualifies(
                    #[trigger] self.state.finger_table@[i],
                    self.id,
                    target,
                ) by {
                    if qualifies(self.state.finger_table@[i], self.id, target) {
                        assert(covers_id(raw@, self.state.finger_table@[i].id));
                        let j = choose|j: int|
                            0 <= j < raw@.len() && (#[trigger] raw@[j]).id
                                == self.state.finger_table@[i].id;
                    }
                }
            }
            return RouteStep::Answer(successor);
        }
        let hops = Self::dedup_descending(&raw);
        proof {
            assert(covers_id(hops@, raw@[0].id));
            let j0 = choose|j: int| 0 <= j < hops@.len() && (#[trigger] hops@[j]).id == raw@[0].id;
            assert(hops@.len() > 0);
            assert forall|j: int| 0 <= j < hops@.len() implies qualifies(
                #[trigger] hops@[j],
                self.id,
                target,
            ) by {
                assert(drawn_from(raw@, hops@[j]));
                let a = choose|a: int|
                    0 <= a < raw@.len() && hops@[j].id == (#[trigger] raw@[a]).id
                        && hops@[j].address@ == raw@[a].address@;
                assert(qualifies(raw@[a], self.id, target));
            }
            assert forall|j: int| 0 <= j < hops@.len() implies drawn_from(
                self.state.finger_table@,
                #[trigger] hops@[j],
            ) by {
                assert(drawn_from(raw@, hops@[j]));
                let a = choose|a: int|
                    0 <= a < raw@.len() && hops@[j].id == (#[trigger] raw@[a]).id
                        && hops@[j].address@ == raw@[a].address@;
                assert(drawn_from(self.state.finger_table@, raw@[a]));
                let i = choose|i: int|
                    0 <= i < self.state.finger_table@.len() && raw@[a].id == (
                    #[trigger] self.state.finger_table@[i]).id && raw@[a].address@
                        == self.state.finger_table@[i].address@;
                assert(hops@[j].id == self.state.finger_table@[i].id && hops@[j].address@
                    == self.state.finger_table@[i].address@);
            }
            assert forall|i: int|
                0 <= i < self.state.finger_table@.len() && qualifies(
                    #[trigger] self.state.finger_table@[i],
                    self.id,
                    target,
                ) implies covers_id(hops@, self.state.finger_table@[i].id) by {
                assert(covers_id(raw@, self.state.finger_table@[i].id));
                let a = choose|a: int|
                    0 <= a < raw@.len() && (#[trigger] raw@[a]).id
                        == self.state.finger_table@[i].id;
                assert(covers_id(hops@, raw@[a].id));
            }
        }
        RouteStep::Forward(hops)
    }
}

} // verus!
