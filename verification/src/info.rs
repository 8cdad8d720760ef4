//! Node handles.
//!
//! A `NodeInfo` is an opaque, freely copied handle to a node: its ring
//! identifier and its network address. The id is derived deterministically
//! from the address by the shared hash, but a handle received from a peer is
//! taken as it stands.

use vstd::prelude::*;

verus! {

/// A handle to a node: its identifier on the ring and its network address.
pub struct NodeInfo {
    pub id: u64,
    pub address: String,
}

impl Clone for NodeInfo {
    fn clone(&self) -> (res: Self)
        ensures
            res == *self,
    {
        NodeInfo { id: self.id, address: self.address.clone() }
    }
}

/// Copies a list of handles.
pub fn clone_info_list(v: &Vec<NodeInfo>) -> (res: Vec<NodeInfo>)
    ensures
        res@ =~= v@,
{
    let mut out: Vec<NodeInfo> = Vec::new();
    let mut i: usize = 0;
    while i < v.len()
        invariant
            i <= v@.len(),
            out@ =~= v@.take(i as int),
        decreases v@.len() - i,
    {
        out.push(v[i].clone());
        assert(out@ =~= v@.take(i as int).push(v@[i as int]));
        assert(v@.take(i as int).push(v@[i as int]) =~= v@.take(i + 1));
        i = i + 1;
    }
    assert(v@.take(v@.len() as int) =~= v@);
    out
}

} // verus!
