//! The observer's view of the ring.
//!
//! Every node periodically reports a snapshot of itself. The monitor keeps
//! the latest snapshot per node id, hands out entry points for client
//! requests, and allocates ports for nodes it spawns. The registry is a map
//! from node id to snapshot, held as an entry list with unique ids.

use vstd::prelude::*;
use crate::info::NodeInfo;
use crate::node::Node;
use crate::rng::random_below;

verus! {

/// A snapshot of one node's state, as reported to the monitor.
pub struct NodeSummary {
    pub id: u64,
    pub address: String,
    pub predecessor: Option<NodeInfo>,
    pub successors: Vec<NodeInfo>,
    pub finger_table: Vec<NodeInfo>,
    pub stored_keys: Vec<String>,
}

impl Node {
    /// The snapshot this node reports to the monitor.
    pub fn summary(&self) -> (s: NodeSummary)
        requires
            self.wf(),
        ensures
            s.id == self.id,
            s.address@ == self.addr@,
            s.predecessor == self.state.predecessor,
            s.successors@ =~= self.state.successor_list@,
            s.finger_table@ =~= self.state.finger_table@,
            s.stored_keys@.len() == self.state.store.pairs().len(),
            forall|i: int|
                0 <= i < s.stored_keys@.len() ==> s.stored_keys@[i]@
                    == self.state.store.pairs()[i].0,
    {
        let predecessor = match &self.state.predecessor {
            Some(q) => Some(q.clone()),
            None => None,
        };
        NodeSummary {
            id: self.id,
            address: self.addr.clone(),
            predecessor,
            successors: crate::info::clone_info_list(&self.state.successor_list),
            finger_table: crate::info::clone_info_list(&self.state.finger_table),
            stored_keys: self.state.store.keys(),
        }
    }
}

/// No node id occurs twice in the entry list.
pub open spec fn unique_ids(s: Seq<(u64, NodeSummary)>) -> bool {
    forall|i: int, j: int| 0 <= i < j < s.len() ==> s[i].0 != s[j].0
}

/// The map that a registry entry list denotes; a later entry for the same id
/// wins.
pub closed spec fn registry_of(s: Seq<(u64, NodeSummary)>) -> Map<u64, NodeSummary>
    decreases s.len(),
{
    if s.len() == 0 {
        Map::empty()
    } else {
        registry_of(s.drop_last()).insert(s.last().0, s.last().1)
    }
}

pub proof fn lemma_registry_of_contains(s: Seq<(u64, NodeSummary)>, id: u64)
    ensures
        registry_of(s).contains_key(id) <==> exists|i: int| 0 <= i < s.len() && s[i].0 == id,
    decreases s.len(),
{
    if s.len() == 0 {
    } else {
        lemma_registry_of_contains(s.drop_last(), id);
        if s.last().0 == id {
            assert(s[s.len() - 1].0 == id);
        } else {
            if exists|i: int| 0 <= i < s.len() && s[i].0 == id {
                let i = choose|i: int| 0 <= i < s.len() && s[i].0 == id;
                assert(s.drop_last()[i] == s[i]);
            }
        }
    }
}

pub proof fn lemma_registry_of_value(s: Seq<(u64, NodeSummary)>, i: int)
    requires
        unique_ids(s),
        0 <= i < s.len(),
    ensures
        registry_of(s).contains_key(s[i].0),
        registry_of(s)[s[i].0] == s[i].1,
    decreases s.len(),
{
    if i == s.len() - 1 {
    } else {
        assert(s[i].0 != s.last().0);
        assert(s.drop_last()[i] == s[i]);
        lemma_registry_of_value(s.drop_last(), i);
    }
}

pub proof fn lemma_registry_of_remove_at(s: Seq<(u64, NodeSummary)>, idx: int)
    requires
        unique_ids(s),
        0 <= idx < s.len(),
    ensures
        registry_of(s.remove(idx)) =~= registry_of(s).remove(s[idx].0),
    decreases s.len(),
{
    if idx == s.len() - 1 {
        assert(s.remove(idx) =~= s.drop_last());
        lemma_registry_of_contains(s.drop_last(), s[idx].0);
        assert(!registry_of(s.drop_last()).contains_key(s[idx].0));
    } else {
        let dl = s.drop_last();
        assert(s.remove(idx).last() == s.last());
        assert(s.remove(idx).drop_last() =~= dl.remove(idx));
        lemma_registry_of_remove_at(dl, idx);
        assert(dl[idx] == s[idx]);
        assert(s[idx].0 != s.last().0);
    }
}

/// The monitor's registry of node snapshots, and the next port it will give
/// to a spawned node.
pub struct MonitorState {
    nodes: Vec<(u64, NodeSummary)>,
    next_port: u16,
}

impl MonitorState {
    /// Each node id is registered at most once, under its own id.
    pub closed spec fn wf(self) -> bool {
        &&& unique_ids(self.nodes@)
        &&& forall|i: int|
            0 <= i < self.nodes@.len() ==> (#[trigger] self.nodes@[i]).0 == self.nodes@[i].1.id
    }

    /// The registered snapshots, by node id.
    pub closed spec fn registry(self) -> Map<u64, NodeSummary> {
        registry_of(self.nodes@)
    }

    /// The registered entries in storage order.
    pub closed spec fn entries(self) -> Seq<(u64, NodeSummary)> {
        self.nodes@
    }

    /// The port the next spawned node will be given.
    pub closed spec fn upcoming_port(self) -> u16 {
        self.next_port
    }

    /// Reads the port the next spawned node will be given.
    pub fn peek_next_port(&self) -> (p: u16)
        ensures
            p == self.upcoming_port(),
    {
        self.next_port
    }

    /// A fresh monitor: nothing registered, ports handed out from 5010
    /// upward to avoid clashing with hand-started nodes.
    pub fn new() -> (s: MonitorState)
        ensures
            s.wf(),
            s.registry() =~= Map::<u64, NodeSummary>::empty(),
            s.entries() =~= Seq::<(u64, NodeSummary)>::empty(),
            s.upcoming_port() == 5010,
    {
        MonitorState { nodes: Vec::new(), next_port: 5010 }
    }

    /// The index of the entry for `id`, if one is registered.
    fn find_index(&self, id: u64) -> (r: Option<usize>)
        ensures
            match r {
                Some(i) => i < self.nodes@.len() && self.nodes@[i as int].0 == id,
                None => forall|i: int|
                    0 <= i < self.nodes@.len() ==> (#[trigger] self.nodes@[i]).0 != id,
            },
    {
        let mut i: usize = 0;
        while i < self.nodes.len()
            invariant
                i <= self.nodes@.len(),
                forall|j: int| 0 <= j < i ==> (#[trigger] self.nodes@[j]).0 != id,
            decreases self.nodes@.len() - i,
        {
            if self.nodes[i].0 == id {
                return Some(i);
            }
            i = i + 1;
        }
        None
    }

    /// Records a node's latest snapshot, replacing any earlier one.
    pub fn report_state(&mut self, summary: NodeSummary)
        requires
            old(self).wf(),
        ensures
            final(self).wf(),
            final(self).registry() =~= old(self).registry().insert(summary.id, summary),
            final(self).upcoming_port() == old(self).upcoming_port(),
    {
        let ghost s0 = self.nodes@;
        match self.find_index(summary.id) {
            Some(i) => {
                proof {
                    lemma_registry_of_remove_at(s0, i as int);
                }
                self.nodes.remove(i);
                proof {
                    lemma_registry_of_contains(self.nodes@, summary.id);
                    assert forall|a: int, b: int| 0 <= a < b < self.nodes@.len() implies (
                    #[trigger] self.nodes@[a]).0 != (#[trigger] self.nodes@[b]).0 by {
                        let c = if a < i { a } else { a + 1 };
                        let d = if b < i { b } else { b + 1 };
                        assert(s0[c] == self.nodes@[a] && s0[d] == self.nodes@[b]);
                    }
                }
                let ghost s1 = self.nodes@;
                self.nodes.push((summary.id, summary));
                proof {
                    assert(self.nodes@.drop_last() =~= s1);
                }
            },
            None => {
                self.nodes.push((summary.id, summary));
                proof {
                    assert(self.nodes@.drop_last() =~= s0);
                    lemma_registry_of_contains(s0, self.nodes@.last().0);
                }
            },
        }
    }

    /// Forgets a node, for instance after telling it to leave.
    pub fn remove_node(&mut self, id: u64)
        requires
            old(self).wf(),
        ensures
            final(self).wf(),
            final(self).registry() =~= old(self).registry().remove(id),
            final(self).upcoming_port() == old(self).upcoming_port(),
    {
        let ghost s0 = self.nodes@;
        match self.find_index(id) {
            Some(i) => {
                proof {
                    lemma_registry_of_remove_at(s0, i as int);
                }
                self.nodes.remove(i);
                proof {
                    assert forall|a: int, b: int| 0 <= a < b < self.nodes@.len() implies (
                    #[trigger] self.nodes@[a]).0 != (#[trigger] self.nodes@[b]).0 by {
                        let c = if a < i { a } else { a + 1 };
                        let d = if b < i { b } else { b + 1 };
                        assert(s0[c] == self.nodes@[a] && s0[d] == self.nodes@[b]);
                    }
                }
            },
            None => {
                proof {
                    lemma_registry_of_contains(s0, id);
                    assert(self.registry() =~= old(self).registry().remove(id));
                }
            },
        }
    }

    /// The address a registered node can be reached at.
    pub fn address_of(&self, id: u64) -> (r: Option<String>)
        requires
            self.wf(),
        ensures
            match r {
                Some(addr) => self.registry().contains_key(id) && addr@
                    == self.registry()[id].address@,
                None => !self.registry().contains_key(id),
            },
    {
        proof {
            lemma_registry_of_contains(self.nodes@, id);
        }
        match self.find_index(id) {
            Some(i) => {
                proof {
                    lemma_registry_of_value(self.nodes@, i as int);
                }
                Some(self.nodes[i].1.address.clone())
            },
            None => None,
        }
    }

    /// How many nodes are registered.
    pub fn node_count(&self) -> (n: usize)
        ensures
            n == self.entries().len(),
    {
        self.nodes.len()
    }

    /// The snapshot at a registry position, for walking all registered
    /// nodes.
    pub fn summary_at(&self, i: usize) -> (s: &NodeSummary)
        requires
            self.wf(),
            i < self.entries().len(),
        ensures
            *s == self.entries()[i as int].1,
            s.id == self.entries()[i as int].0,
    {
        &self.nodes[i].1
    }

    /// The address of some registered node, to serve as the entry point of a
    /// routed request; which one is drawn at random. `None` exactly when no
    /// node is registered.
    pub fn any_node_address(&self) -> (r: Option<String>)
        requires
            self.wf(),
        ensures
            match r {
                Some(addr) => exists|i: int|
                    0 <= i < self.entries().len() && addr@ == (
                    #[trigger] self.entries()[i]).1.address@,
                None => self.entries().len() == 0,
            },
    {
        if self.nodes.len() == 0 {
            return None;
        }
        let i = random_below(self.nodes.len());
        proof {
            assert(self.entries()[i as int] == self.nodes@[i as int]);
        }
        Some(self.nodes[i].1.address.clone())
    }

    /// Hands out the next port for a spawned node.
    pub fn allocate_port(&mut self) -> (p: u16)
        requires
            old(self).wf(),
            old(self).upcoming_port() < 0xffff,
        ensures
            final(self).wf(),
            p == old(self).upcoming_port(),
            final(self).upcoming_port() == old(self).upcoming_port() + 1,
            final(self).registry() == old(self).registry(),
            final(self).entries() == old(self).entries(),
    {
        let p = self.next_port;
        self.next_port = p + 1;
        p
    }
}

} // verus!
