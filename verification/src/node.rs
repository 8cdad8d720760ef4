//! A Chord node and its local protocol decisions.
//!
//! `Node` holds the mutable per-node state. Every method is a local step of
//! the protocol: it reads and updates this node's state and returns what the
//! transport must carry to peers — the hops to try, the keys to hand over,
//! the successors to replicate to. The transport performs the remote calls
//! and feeds their outcomes back in; no method here performs I/O.

use vstd::prelude::*;
use crate::constants::{FINGER_TABLE_SIZE, REPLICATION_COUNT, SUCCESSOR_LIST_LIMIT};
use crate::digest::hash_of;
use crate::ident::{
    half_open_interval_contains, in_half_open_interval, in_open_interval, open_interval_contains,
};
use crate::info::NodeInfo;
use crate::store::KvStore;

verus! {

/// The mutable state of a node.
pub struct NodeState {
    /// The nearest node counter-clockwise behind this one, once known.
    pub predecessor: Option<NodeInfo>,
    /// Entry `i` is the best known successor of `self.id + 2^i`.
    pub finger_table: Vec<NodeInfo>,
    /// The next live successors clockwise; the head is the immediate one.
    pub successor_list: Vec<NodeInfo>,
    /// The key/value pairs held locally, primary and replica copies alike.
    pub store: KvStore,
}

impl NodeState {
    /// The structural invariant every reachable state satisfies: the finger
    /// table is full-size, the successor list is non-empty and bounded, and
    /// the store holds each key once.
    pub open spec fn wf(self) -> bool {
        &&& self.finger_table@.len() == FINGER_TABLE_SIZE
        &&& 1 <= self.successor_list@.len() <= SUCCESSOR_LIST_LIMIT
        &&& self.store.wf()
    }
}

/// A node: its own identity and its protocol state.
pub struct Node {
    pub id: u64,
    pub addr: String,
    pub state: NodeState,
}

/// Whether a node whose predecessor is `pred` adopts a notifier with id
/// `p_id`: always when it has none, otherwise only when the notifier lies
/// strictly between the current predecessor and the node itself.
pub open spec fn should_adopt(pred: Option<NodeInfo>, p_id: u64, self_id: u64) -> bool {
    match pred {
        None => true,
        Some(q) => in_open_interval(p_id, q.id, self_id),
    }
}

/// The entries of `list`, in order, whose id is not `self_id`.
pub open spec fn other_nodes(list: Seq<NodeInfo>, self_id: u64) -> Seq<NodeInfo>
    decreases list.len(),
{
    if list.len() == 0 {
        Seq::empty()
    } else {
        let rest = other_nodes(list.drop_last(), self_id);
        if list.last().id != self_id {
            rest.push(list.last())
        } else {
            rest
        }
    }
}

/// The successors that receive a replica of a freshly put key: the first
/// `REPLICATION_COUNT` entries of the successor list, excluding the node
/// itself.
pub open spec fn replication_targets(list: Seq<NodeInfo>, self_id: u64) -> Seq<NodeInfo> {
    let n = if list.len() < REPLICATION_COUNT {
        list.len() as int
    } else {
        REPLICATION_COUNT as int
    };
    other_nodes(list.take(n), self_id)
}

/// The keys a node is obliged to hand to a newly adopted predecessor `p`:
/// every stored key whose id falls outside this node's own half-open
/// ownership interval `(p.id, self_id]`.
pub struct TransferPlan {
    /// The node the keys go to.
    pub target: NodeInfo,
    /// The pairs to send; they leave the local store only once the send is
    /// acknowledged.
    pub keys: KvStore,
}

/// The answer a node gives to a local lookup.
pub struct GetResponse {
    pub value: String,
    pub found: bool,
}

impl Node {
    pub open spec fn wf(self) -> bool {
        self.state.wf()
    }

    /// The id ownership is decided against when this node is primary: its
    /// predecessor's id, or its own id when it has no predecessor (which
    /// makes the ownership interval the whole ring).
    pub open spec fn effective_pred_id(self) -> u64 {
        match self.state.predecessor {
            Some(q) => q.id,
            None => self.id,
        }
    }

    /// A fresh node: no predecessor, every finger pointing at itself, the
    /// successor list holding only itself, an empty store.
    pub fn new(id: u64, addr: String) -> (n: Node)
        ensures
            n.wf(),
            n.id == id,
            n.addr@ == addr@,
            n.state.predecessor is None,
            forall|i: int|
                0 <= i < FINGER_TABLE_SIZE ==> (#[trigger] n.state.finger_table@[i]).id == id
                    && n.state.finger_table@[i].address@ == addr@,
            n.state.successor_list@.len() == 1,
            n.state.successor_list@[0].id == id,
            n.state.successor_list@[0].address@ == addr@,
            n.state.store@ =~= Map::<Seq<char>, Seq<char>>::empty(),
    {
        let self_info = NodeInfo { id, address: addr.clone() };
        let mut finger_table: Vec<NodeInfo> = Vec::new();
        let mut i: usize = 0;
        while i < FINGER_TABLE_SIZE
            invariant
                i <= FINGER_TABLE_SIZE,
                finger_table@.len() == i,
                self_info.id == id,
                self_info.address@ == addr@,
                forall|j: int|
                    0 <= j < i ==> (#[trigger] finger_table@[j]).id == id
                        && finger_table@[j].address@ == addr@,
            decreases FINGER_TABLE_SIZE - i,
        {
            finger_table.push(self_info.clone());
            i = i + 1;
        }
        let mut successor_list: Vec<NodeInfo> = Vec::new();
        successor_list.push(self_info);
        Node {
            id,
            addr,
            state: NodeState {
                predecessor: None,
                finger_table,
                successor_list,
                store: KvStore::new(),
            },
        }
    }

    /// Decides membership in the open circular interval `(start, end)`.
    pub(crate) fn is_in_range(id: u64, start: u64, end: u64) -> (r: bool)
        ensures
            r == in_open_interval(id, start, end),
    {
        open_interval_contains(id, start, end)
    }

    /// Decides membership in the half-open circular interval `(start, end]`.
    pub fn is_in_range_inclusive(id: u64, start: u64, end: u64) -> (r: bool)
        ensures
            r == in_half_open_interval(id, start, end),
    {
        half_open_interval_contains(id, start, end)
    }

    /// The immediate successor.
    pub fn get_successor(&self) -> (s: NodeInfo)
        requires
            self.wf(),
        ensures
            s == self.state.successor_list@[0],
    {
        self.state.successor_list[0].clone()
    }

    /// The current predecessor, if any.
    pub fn get_predecessor(&self) -> (p: Option<NodeInfo>)
        ensures
            p == self.state.predecessor,
    {
        match &self.state.predecessor {
            Some(q) => Some(q.clone()),
            None => None,
        }
    }

    /// The whole successor list.
    pub fn get_successor_list(&self) -> (l: Vec<NodeInfo>)
        ensures
            l@ =~= self.state.successor_list@,
    {
        crate::info::clone_info_list(&self.state.successor_list)
    }

    /// Adopts the successor found for this node's own id when it joins an
    /// existing ring through a peer: the head of the successor list is
    /// replaced, everything else is untouched.
    pub fn join(&mut self, succ: NodeInfo)
        requires
            old(self).wf(),
        ensures
            final(self).wf(),
            final(self).id == old(self).id,
            final(self).addr == old(self).addr,
            final(self).state.successor_list@ =~= old(self).state.successor_list@.update(0, succ),
            final(self).state.predecessor == old(self).state.predecessor,
            final(self).state.finger_table == old(self).state.finger_table,
            final(self).state.store == old(self).state.store,
    {
        self.state.successor_list[0] = succ;
    }

    /// Handles a peer announcing itself as a possible predecessor: adopts it
    /// exactly when `should_adopt` says so, and on adoption computes the
    /// pairs that now belong behind this node. The returned plan names those
    /// pairs and their destination; the store itself only shrinks later,
    /// through `transfer_ack`, once the transfer is acknowledged.
    pub fn notify(&mut self, p: NodeInfo) -> (plan: Option<TransferPlan>)
        requires
            old(self).wf(),
        ensures
            final(self).wf(),
            final(self).id == old(self).id,
            final(self).addr == old(self).addr,
            final(self).state.finger_table == old(self).state.finger_table,
            final(self).state.successor_list == old(self).state.successor_list,
            final(self).state.store == old(self).state.store,
            !should_adopt(old(self).state.predecessor, p.id, old(self).id) ==> {
                &&& final(self).state.predecessor == old(self).state.predecessor
                &&& plan is None
            },
            should_adopt(old(self).state.predecessor, p.id, old(self).id) ==> {
                &&& final(self).state.predecessor == Some(p)
                &&& match plan {
                    Some(tp) => {
                        &&& tp.target == p
                        &&& tp.keys.wf()
                        &&& tp.keys@.dom().len() > 0
                        &&& forall|k: Seq<char>|
                            tp.keys@.contains_key(k) <==> old(self).state.store@.contains_key(k)
                                && !in_half_open_interval(hash_of(k), p.id, old(self).id)
                        &&& forall|k: Seq<char>|
                            tp.keys@.contains_key(k) ==> tp.keys@[k]
                                == old(self).state.store@[k]
                    },
                    None => forall|k: Seq<char>|
                        old(self).state.store@.contains_key(k) ==> in_half_open_interval(
                            hash_of(k),
                            p.id,
                            old(self).id,
                        ),
                }
            },
    {
        let adopt = match &self.state.predecessor {
            None => true,
            Some(q) => Self::is_in_range(p.id, q.id, self.id),
        };
        if !adopt {
            return None;
        }
        let (moved, _kept) = self.state.store.partition_out_of_interval(p.id, self.id);
        self.state.predecessor = Some(p.clone());
        if moved.len() == 0 {
            proof {
                moved.lemma_dom_finite();
                vstd::set_lib::lemma_set_empty_equivalency_len(moved@.dom());
            }
            None
        } else {
            Some(TransferPlan { target: p, keys: moved })
        }
    }

    /// Takes a batch of transferred pairs into the local store; a pair
    /// overwrites any value this node already held for its key.
    pub fn transfer_keys(&mut self, keys: &KvStore)
        requires
            old(self).wf(),
            keys.wf(),
        ensures
            final(self).wf(),
            final(self).id == old(self).id,
            final(self).addr == old(self).addr,
            final(self).state.predecessor == old(self).state.predecessor,
            final(self).state.finger_table == old(self).state.finger_table,
            final(self).state.successor_list == old(self).state.successor_list,
            final(self).state.store@ =~= old(self).state.store@.union_prefer_right(keys@),
    {
        self.state.store.merge_from(keys);
    }

    /// Drops the keys of an acknowledged transfer from the local store:
    /// exactly the handed-over keys leave, whatever their current values.
    pub fn transfer_ack(&mut self, sent: &KvStore)
        requires
            old(self).wf(),
            sent.wf(),
        ensures
            final(self).wf(),
            final(self).id == old(self).id,
            final(self).addr == old(self).addr,
            final(self).state.predecessor == old(self).state.predecessor,
            final(self).state.finger_table == old(self).state.finger_table,
            final(self).state.successor_list == old(self).state.successor_list,
            final(self).state.store@ =~= old(self).state.store@.remove_keys(sent@.dom()),
    {
        self.state.store.remove_all(sent);
    }

    /// Stores a pair on the node that owns it and names the successors that
    /// must receive a replica.
    pub fn put_local(&mut self, key: String, value: String) -> (targets: Vec<NodeInfo>)
        requires
            old(self).wf(),
        ensures
            final(self).wf(),
            final(self).id == old(self).id,
            final(self).addr == old(self).addr,
            final(self).state.predecessor == old(self).state.predecessor,
            final(self).state.finger_table == old(self).state.finger_table,
            final(self).state.successor_list == old(self).state.successor_list,
            final(self).state.store@ =~= old(self).state.store@.insert(key@, value@),
            targets@ =~= replication_targets(old(self).state.successor_list@, old(self).id),
    {
        self.state.store.insert(key, value);
        self.replicate_target_list()
    }

    /// Stores a replica pushed by a primary; indistinguishable from a
    /// primary pair once stored.
    pub fn replicate(&mut self, key: String, value: String)
        requires
            old(self).wf(),
        ensures
            final(self).wf(),
            final(self).id == old(self).id,
            final(self).addr == old(self).addr,
            final(self).state.predecessor == old(self).state.predecessor,
            final(self).state.finger_table == old(self).state.finger_table,
            final(self).state.successor_list == old(self).state.successor_list,
            final(self).state.store@ =~= old(self).state.store@.insert(key@, value@),
    {
        self.state.store.insert(key, value);
    }

    /// Answers a lookup from the local store: the value and `found == true`
    /// exactly when the key is held, the empty string and `false` otherwise.
    pub fn get_local(&self, key: &String) -> (r: GetResponse)
        requires
            self.wf(),
        ensures
            r.found == self.state.store@.contains_key(key@),
            r.found ==> r.value@ == self.state.store@[key@],
            !r.found ==> r.value@ == Seq::<char>::empty(),
    {
        match self.state.store.get(key) {
            Some(v) => GetResponse { value: v.clone(), found: true },
            None => GetResponse { value: String::new(), found: false },
        }
    }

    /// The first `REPLICATION_COUNT` successors other than this node itself.
    fn replicate_target_list(&self) -> (targets: Vec<NodeInfo>)
        ensures
            targets@ =~= replication_targets(self.state.successor_list@, self.id),
    {
        let list = &self.state.successor_list;
        let n = if list.len() < REPLICATION_COUNT {
            list.len()
        } else {
            REPLICATION_COUNT
        };
        let mut out: Vec<NodeInfo> = Vec::new();
        let mut i: usize = 0;
        while i < n
            invariant
                i <= n,
                n as int == (if list@.len() < REPLICATION_COUNT {
                    list@.len() as int
                } else {
                    REPLICATION_COUNT as int
                }),
                out@ =~= other_nodes(list@.take(i as int), self.id),
            decreases n - i,
        {
            let ghost prev = out@;
            if list[i].id != self.id {
                out.push(list[i].clone());
            }
            proof {
                let t1 = list@.take(i + 1);
                assert(t1.drop_last() =~= list@.take(i as int));
                assert(t1.last() == list@[i as int]);
                assert(out@ =~= other_nodes(t1, self.id));
            }
            i = i + 1;
        }
        proof {
            assert(list@.take(n as int) =~= list@.take(
                if list@.len() < REPLICATION_COUNT {
                    list@.len() as int
                } else {
                    REPLICATION_COUNT as int
                },
            ));
        }
        out
    }

    /// The pairs the periodic replica-maintenance round must push: exactly
    /// those this node holds as primary, each with its current value.
    pub fn replication_pairs(&self) -> (pairs: Vec<(String, String)>)
        requires
            self.wf(),
        ensures
            forall|j: int|
                0 <= j < pairs@.len() ==> {
                    &&& self.state.store@.contains_key((#[trigger] pairs@[j]).0@)
                    &&& pairs@[j].1@ == self.state.store@[pairs@[j].0@]
                    &&& in_half_open_interval(
                        hash_of(pairs@[j].0@),
                        self.effective_pred_id(),
                        self.id,
                    )
                },
            forall|k: Seq<char>|
                self.state.store@.contains_key(k) && in_half_open_interval(
                    hash_of(k),
                    self.effective_pred_id(),
                    self.id,
                ) ==> exists|j: int| 0 <= j < pairs@.len() && (#[trigger] pairs@[j]).0@ == k,
    {
        let pred_id = match &self.state.predecessor {
            Some(q) => q.id,
            None => self.id,
        };
        self.state.store.primary_pairs(pred_id, self.id)
    }

    /// The successors the replica-maintenance round pushes to: the first
    /// `REPLICATION_COUNT` entries of the successor list.
    pub fn replication_push_targets(&self) -> (targets: Vec<NodeInfo>)
        requires
            self.wf(),
        ensures
            targets@ =~= self.state.successor_list@.take(
                if self.state.successor_list@.len() < REPLICATION_COUNT {
                    self.state.successor_list@.len() as int
                } else {
                    REPLICATION_COUNT as int
                },
            ),
    {
        let list = &self.state.successor_list;
        let n = if list.len() < REPLICATION_COUNT {
            list.len()
        } else {
            REPLICATION_COUNT
        };
        let mut targets: Vec<NodeInfo> = Vec::new();
        let mut i: usize = 0;
        while i < n
            invariant
                i <= n <= list@.len(),
                targets@ =~= list@.take(i as int),
            decreases n - i,
        {
            targets.push(list[i].clone());
            proof {
                assert(targets@ =~= list@.take(i + 1));
            }
            i = i + 1;
        }
        targets
    }

    /// What a graceful departure must do before the process exits: when this
    /// node is not its own successor, every local pair goes to the immediate
    /// successor; a node alone on its ring has nowhere to send them.
    pub fn leave_plan(&self) -> (r: Option<(NodeInfo, KvStore)>)
        requires
            self.wf(),
        ensures
            match r {
                Some(t) => {
                    &&& self.state.successor_list@[0].id != self.id
                    &&& t.0 == self.state.successor_list@[0]
                    &&& t.1.wf()
                    &&& t.1@ =~= self.state.store@
                },
                None => self.state.successor_list@[0].id == self.id,
            },
    {
        if self.state.successor_list[0].id != self.id {
            Some((self.state.successor_list[0].clone(), self.state.store.duplicate()))
        } else {
            None
        }
    }

    /// Forgets a predecessor that stopped answering pings.
    pub fn predecessor_failed(&mut self)
        requires
            old(self).wf(),
        ensures
            final(self).wf(),
            final(self).id == old(self).id,
            final(self).addr == old(self).addr,
            final(self).state.predecessor is None,
            final(self).state.finger_table == old(self).state.finger_table,
            final(self).state.successor_list == old(self).state.successor_list,
            final(self).state.store == old(self).state.store,
    {
        self.state.predecessor = None;
    }
}

} // verus!
