//! The local key/value store of a node.
//!
//! A node holds the string pairs it stores — primary copies and replica
//! copies alike — in one flat store. The store is modelled as a map from the
//! key's characters to the value's characters; every operation's contract is
//! stated against that map.

use vstd::prelude::*;
use crate::digest::{hash_addr, hash_of};
use crate::ident::{half_open_interval_contains, in_half_open_interval};

verus! {

/// No key occurs twice in the entry list.
pub open spec fn unique_keys(s: Seq<(String, String)>) -> bool {
    forall|i: int, j: int| 0 <= i < j < s.len() ==> s[i].0@ != s[j].0@
}

/// The map that an entry list denotes; a later entry for the same key wins.
pub closed spec fn map_of(s: Seq<(String, String)>) -> Map<Seq<char>, Seq<char>>
    decreases s.len(),
{
    if s.len() == 0 {
        Map::empty()
    } else {
        map_of(s.drop_last()).insert(s.last().0@, s.last().1@)
    }
}

pub proof fn lemma_map_of_contains(s: Seq<(String, String)>, k: Seq<char>)
    ensures
        map_of(s).contains_key(k) <==> exists|i: int| 0 <= i < s.len() && s[i].0@ == k,
    decreases s.len(),
{
    if s.len() == 0 {
    } else {
        lemma_map_of_contains(s.drop_last(), k);
        if s.last().0@ == k {
            assert(s[s.len() - 1].0@ == k);
        } else {
            if exists|i: int| 0 <= i < s.len() && s[i].0@ == k {
                let i = choose|i: int| 0 <= i < s.len() && s[i].0@ == k;
                assert(s.drop_last()[i] == s[i]);
            }
        }
    }
}

pub proof fn lemma_map_of_value(s: Seq<(String, String)>, i: int)
    requires
        unique_keys(s),
        0 <= i < s.len(),
    ensures
        map_of(s).contains_key(s[i].0@),
        map_of(s)[s[i].0@] == s[i].1@,
    decreases s.len(),
{
    if i == s.len() - 1 {
    } else {
        assert(s[i].0@ != s.last().0@);
        assert(s.drop_last()[i] == s[i]);
        lemma_map_of_value(s.drop_last(), i);
    }
}

pub proof fn lemma_map_of_remove_at(s: Seq<(String, String)>, idx: int)
    requires
        unique_keys(s),
        0 <= idx < s.len(),
    ensures
        map_of(s.remove(idx)) =~= map_of(s).remove(s[idx].0@),
    decreases s.len(),
{
    if idx == s.len() - 1 {
        assert(s.remove(idx) =~= s.drop_last());
        lemma_map_of_contains(s.drop_last(), s[idx].0@);
        assert(!map_of(s.drop_last()).contains_key(s[idx].0@));
    } else {
        let dl = s.drop_last();
        assert(s.remove(idx).last() == s.last());
        assert(s.remove(idx).drop_last() =~= dl.remove(idx));
        lemma_map_of_remove_at(dl, idx);
        assert(dl[idx] == s[idx]);
        assert(s[idx].0@ != s.last().0@);
    }
}

pub proof fn lemma_map_of_dom_finite(s: Seq<(String, String)>)
    ensures
        map_of(s).dom().finite(),
    decreases s.len(),
{
    if s.len() == 0 {
    } else {
        lemma_map_of_dom_finite(s.drop_last());
    }
}

pub proof fn lemma_map_of_dom_len(s: Seq<(String, String)>)
    requires
        unique_keys(s),
    ensures
        map_of(s).dom().finite(),
        map_of(s).dom().len() == s.len(),
    decreases s.len(),
{
    if s.len() == 0 {
    } else {
        let dl = s.drop_last();
        lemma_map_of_dom_len(dl);
        lemma_map_of_contains(dl, s.last().0@);
        assert(forall|i: int| 0 <= i < dl.len() ==> dl[i] == s[i]);
        assert(!map_of(dl).contains_key(s.last().0@));
        assert(map_of(s).dom() =~= map_of(dl).dom().insert(s.last().0@));
    }
}

/// A node's local store of key/value pairs, with at most one entry per key.
pub struct KvStore {
    entries: Vec<(String, String)>,
}

impl View for KvStore {
    type V = Map<Seq<char>, Seq<char>>;

    closed spec fn view(&self) -> Map<Seq<char>, Seq<char>> {
        map_of(self.entries@)
    }
}

impl KvStore {
    /// Every key occurs at most once in the underlying entry list.
    pub closed spec fn wf(self) -> bool {
        unique_keys(self.entries@)
    }

    /// The stored pairs, as character sequences, in storage order.
    pub closed spec fn pairs(self) -> Seq<(Seq<char>, Seq<char>)> {
        self.entries@.map(|i: int, e: (String, String)| (e.0@, e.1@))
    }

    /// The domain of the denoted map is finite.
    pub proof fn lemma_dom_finite(self)
        ensures
            self@.dom().finite(),
    {
        lemma_map_of_dom_finite(self.entries@);
    }

    /// An empty store.
    pub fn new() -> (r: KvStore)
        ensures
            r.wf(),
            r@ =~= Map::<Seq<char>, Seq<char>>::empty(),
            r.pairs() =~= Seq::<(Seq<char>, Seq<char>)>::empty(),
    {
        KvStore { entries: Vec::new() }
    }

    /// The index of the entry holding `key`, if there is one.
    fn find_index(&self, key: &String) -> (r: Option<usize>)
        ensures
            match r {
                Some(i) => i < self.entries@.len() && self.entries@[i as int].0@ == key@,
                None => forall|i: int|
                    0 <= i < self.entries@.len() ==> (#[trigger] self.entries@[i]).0@ != key@,
            },
    {
        let mut i: usize = 0;
        while i < self.entries.len()
            invariant
                i <= self.entries@.len(),
                forall|j: int| 0 <= j < i ==> (#[trigger] self.entries@[j]).0@ != key@,
            decreases self.entries@.len() - i,
        {
            if self.entries[i].0 == *key {
                return Some(i);
            }
            i = i + 1;
        }
        None
    }

    /// Number of stored pairs.
    pub fn num_pairs(&self) -> (n: usize)
        ensures
            n == self.pairs().len(),
    {
        self.entries.len()
    }

    /// Number of distinct keys in the store.
    pub fn len(&self) -> (n: usize)
        requires
            self.wf(),
        ensures
            n == self@.dom().len(),
    {
        proof {
            lemma_map_of_dom_len(self.entries@);
        }
        self.entries.len()
    }

    /// The pair stored at position `i`.
    pub fn pair_at(&self, i: usize) -> (kv: (&String, &String))
        requires
            i < self.pairs().len(),
        ensures
            kv.0@ == self.pairs()[i as int].0,
            kv.1@ == self.pairs()[i as int].1,
    {
        let e = &self.entries[i];
        (&e.0, &e.1)
    }

    /// Looks a key up: returns its value exactly when the store holds the key.
    pub fn get(&self, key: &String) -> (r: Option<&String>)
        requires
            self.wf(),
        ensures
            match r {
                Some(v) => self@.contains_key(key@) && v@ == self@[key@],
                None => !self@.contains_key(key@),
            },
    {
        proof {
            lemma_map_of_contains(self.entries@, key@);
        }
        match self.find_index(key) {
            Some(i) => {
                proof {
                    lemma_map_of_value(self.entries@, i as int);
                }
                Some(&self.entries[i].1)
            },
            None => None,
        }
    }

    /// Inserts a pair, overwriting any previous value of the key.
    pub fn insert(&mut self, key: String, value: String)
        requires
            old(self).wf(),
        ensures
            final(self).wf(),
            final(self)@ =~= old(self)@.insert(key@, value@),
    {
        let ghost s0 = self.entries@;
        match self.find_index(&key) {
            Some(i) => {
                proof {
                    lemma_map_of_remove_at(s0, i as int);
                }
                self.entries.remove(i);
                proof {
                    lemma_map_of_contains(self.entries@, key@);
                    assert forall|a: int, b: int| 0 <= a < b < self.entries@.len() implies (
                    #[trigger] self.entries@[a]).0@ != (#[trigger] self.entries@[b]).0@ by {
                        let c = if a < i { a } else { a + 1 };
                        let d = if b < i { b } else { b + 1 };
                        assert(s0[c] == self.entries@[a] && s0[d] == self.entries@[b]);
                    }
                }
                let ghost s1 = self.entries@;
                self.entries.push((key, value));
                proof {
                    assert(self.entries@.drop_last() =~= s1);
                }
            },
            None => {
                self.entries.push((key, value));
                proof {
                    assert(self.entries@.drop_last() =~= s0);
                    lemma_map_of_contains(s0, key@);
                }
            },
        }
    }

    /// Removes a key; a store without the key is unchanged.
    pub fn remove(&mut self, key: &String)
        requires
            old(self).wf(),
        ensures
            final(self).wf(),
            final(self)@ =~= old(self)@.remove(key@),
    {
        let ghost s0 = self.entries@;
        match self.find_index(key) {
            Some(i) => {
                proof {
                    lemma_map_of_remove_at(s0, i as int);
                }
                self.entries.remove(i);
                proof {
                    assert forall|a: int, b: int| 0 <= a < b < self.entries@.len() implies (
                    #[trigger] self.entries@[a]).0@ != (#[trigger] self.entries@[b]).0@ by {
                        let c = if a < i { a } else { a + 1 };
                        let d = if b < i { b } else { b + 1 };
                        assert(s0[c] == self.entries@[a] && s0[d] == self.entries@[b]);
                    }
                }
            },
            None => {
                proof {
                    lemma_map_of_contains(s0, key@);
                    assert(self@ =~= old(self)@.remove(key@));
                }
            },
        }
    }

    /// A copy of this store, holding the same map.
    pub fn duplicate(&self) -> (r: KvStore)
        requires
            self.wf(),
        ensures
            r.wf(),
            r@ =~= self@,
            r.pairs() =~= self.pairs(),
    {
        let mut out: Vec<(String, String)> = Vec::new();
        let mut i: usize = 0;
        while i < self.entries.len()
            invariant
                i <= self.entries@.len(),
                out@.len() == i,
                forall|j: int| 0 <= j < i ==> out@[j] == self.entries@[j],
            decreases self.entries@.len() - i,
        {
            let e = &self.entries[i];
            out.push((e.0.clone(), e.1.clone()));
            i = i + 1;
        }
        let r = KvStore { entries: out };
        proof {
            assert(r.entries@ =~= self.entries@);
        }
        r
    }

    /// The stored keys, in storage order.
    pub fn keys(&self) -> (r: Vec<String>)
        ensures
            r@.len() == self.pairs().len(),
            forall|i: int| 0 <= i < r@.len() ==> r@[i]@ == self.pairs()[i].0,
    {
        let mut out: Vec<String> = Vec::new();
        let mut i: usize = 0;
        while i < self.entries.len()
            invariant
                i <= self.entries@.len(),
                out@.len() == i,
                forall|j: int| 0 <= j < i ==> out@[j]@ == self.pairs()[j].0,
            decreases self.entries@.len() - i,
        {
            out.push(self.entries[i].0.clone());
            i = i + 1;
        }
        out
    }

    /// Takes every pair of `other` into this store, overwriting values of
    /// keys held by both. Used by the transfer-keys handler: the receiving
    /// node's store becomes the union, the sender's copy winning.
    pub fn merge_from(&mut self, other: &KvStore)
        requires
            old(self).wf(),
            other.wf(),
        ensures
            final(self).wf(),
            final(self)@ =~= old(self)@.union_prefer_right(other@),
    {
        let ghost m0 = self@;
        let mut i: usize = 0;
        while i < other.entries.len()
            invariant
                i <= other.entries@.len(),
                self.wf(),
                self@ =~= m0.union_prefer_right(map_of(other.entries@.take(i as int))),
            decreases other.entries@.len() - i,
        {
            let e = &other.entries[i];
            self.insert(e.0.clone(), e.1.clone());
            proof {
                let t1 = other.entries@.take(i + 1);
                assert(t1.drop_last() =~= other.entries@.take(i as int));
                assert(map_of(t1) == map_of(other.entries@.take(i as int)).insert(
                    other.entries@[i as int].0@,
                    other.entries@[i as int].1@,
                ));
                assert(self@ =~= m0.union_prefer_right(map_of(t1)));
            }
            i = i + 1;
        }
        proof {
            assert(other.entries@.take(other.entries@.len() as int) =~= other.entries@);
        }
    }

    /// Drops every key that `other` holds from this store. Used after a key
    /// transfer is acknowledged: exactly the keys that were handed over leave
    /// the local store, whatever their current values.
    pub fn remove_all(&mut self, other: &KvStore)
        requires
            old(self).wf(),
            other.wf(),
        ensures
            final(self).wf(),
            final(self)@ =~= old(self)@.remove_keys(other@.dom()),
    {
        let ghost m0 = self@;
        let mut i: usize = 0;
        while i < other.entries.len()
            invariant
                i <= other.entries@.len(),
                self.wf(),
                self@ =~= m0.remove_keys(map_of(other.entries@.take(i as int)).dom()),
            decreases other.entries@.len() - i,
        {
            let e = &other.entries[i];
            self.remove(&e.0);
            proof {
                let t1 = other.entries@.take(i + 1);
                assert(t1.drop_last() =~= other.entries@.take(i as int));
                assert(map_of(t1) == map_of(other.entries@.take(i as int)).insert(
                    other.entries@[i as int].0@,
                    other.entries@[i as int].1@,
                ));
                assert(self@ =~= m0.remove_keys(map_of(t1).dom()));
            }
            i = i + 1;
        }
        proof {
            assert(other.entries@.take(other.entries@.len() as int) =~= other.entries@);
        }
    }

    /// Splits the store around the half-open ownership interval
    /// `(start, end]`: the first store holds every pair whose key id falls
    /// outside the interval, the second every pair whose key id falls inside.
    /// A node whose predecessor is `start` and whose own id is `end` keeps
    /// the second part and hands the first to the predecessor.
    pub fn partition_out_of_interval(&self, start: u64, end: u64) -> (r: (KvStore, KvStore))
        requires
            self.wf(),
        ensures
            r.0.wf(),
            r.1.wf(),
            forall|k: Seq<char>|
                r.0@.contains_key(k) <==> self@.contains_key(k) && !in_half_open_interval(
                    hash_of(k),
                    start,
                    end,
                ),
            forall|k: Seq<char>| r.0@.contains_key(k) ==> r.0@[k] == self@[k],
            forall|k: Seq<char>|
                r.1@.contains_key(k) <==> self@.contains_key(k) && in_half_open_interval(
                    hash_of(k),
                    start,
                    end,
                ),
            forall|k: Seq<char>| r.1@.contains_key(k) ==> r.1@[k] == self@[k],
    {
        let mut moved = KvStore::new();
        let mut kept = KvStore::new();
        let mut i: usize = 0;
        while i < self.entries.len()
            invariant
                i <= self.entries@.len(),
                moved.wf(),
                kept.wf(),
                forall|k: Seq<char>|
                    moved@.contains_key(k) <==> map_of(self.entries@.take(i as int)).contains_key(k)
                        && !in_half_open_interval(hash_of(k), start, end),
                forall|k: Seq<char>|
                    moved@.contains_key(k) ==> moved@[k] == map_of(self.entries@.take(i as int))[k],
                forall|k: Seq<char>|
                    kept@.contains_key(k) <==> map_of(self.entries@.take(i as int)).contains_key(k)
                        && in_half_open_interval(hash_of(k), start, end),
                forall|k: Seq<char>|
                    kept@.contains_key(k) ==> kept@[k] == map_of(self.entries@.take(i as int))[k],
            decreases self.entries@.len() - i,
        {
            let e = &self.entries[i];
            let key_id = hash_addr(e.0.as_str());
            if half_open_interval_contains(key_id, start, end) {
                kept.insert(e.0.clone(), e.1.clone());
            } else {
                moved.insert(e.0.clone(), e.1.clone());
            }
            proof {
                let t1 = self.entries@.take(i + 1);
                assert(t1.drop_last() =~= self.entries@.take(i as int));
                assert(map_of(t1) == map_of(self.entries@.take(i as int)).insert(
                    self.entries@[i as int].0@,
                    self.entries@[i as int].1@,
                ));
            }
            i = i + 1;
        }
        proof {
            assert(self.entries@.take(self.entries@.len() as int) =~= self.entries@);
        }
        (moved, kept)
    }

    /// The pairs this node holds as primary: those whose key id lies in the
    /// half-open interval `(pred_id, self_id]`. These are the pairs pushed to
    /// the replica successors by the maintenance activity.
    pub fn primary_pairs(&self, pred_id: u64, self_id: u64) -> (r: Vec<(String, String)>)
        requires
            self.wf(),
        ensures
            forall|j: int|
                0 <= j < r@.len() ==> {
                    &&& self@.contains_key((#[trigger] r@[j]).0@)
                    &&& r@[j].1@ == self@[r@[j].0@]
                    &&& in_half_open_interval(hash_of(r@[j].0@), pred_id, self_id)
                },
            forall|k: Seq<char>|
                self@.contains_key(k) && in_half_open_interval(hash_of(k), pred_id, self_id)
                    ==> exists|j: int| 0 <= j < r@.len() && (#[trigger] r@[j]).0@ == k,
    {
        let mut out: Vec<(String, String)> = Vec::new();
        let ghost mut src: Seq<int> = Seq::empty();
        let mut i: usize = 0;
        while i < self.entries.len()
            invariant
                i <= self.entries@.len(),
                src.len() == out@.len(),
                forall|j: int|
                    0 <= j < out@.len() ==> {
                        &&& 0 <= #[trigger] src[j] < i
                        &&& out@[j].0@ == self.entries@[src[j]].0@
                        &&& out@[j].1@ == self.entries@[src[j]].1@
                        &&& in_half_open_interval(hash_of(self.entries@[src[j]].0@), pred_id, self_id)
                    },
                forall|a: int|
                    0 <= a < i && in_half_open_interval(
                        hash_of((#[trigger] self.entries@[a]).0@),
                        pred_id,
                        self_id,
                    ) ==> exists|j: int| 0 <= j < out@.len() && out@[j].0@ == self.entries@[a].0@,
            decreases self.entries@.len() - i,
        {
            let e = &self.entries[i];
            let key_id = hash_addr(e.0.as_str());
            let ghost prev = out@;
            let took = half_open_interval_contains(key_id, pred_id, self_id);
            if took {
                out.push((e.0.clone(), e.1.clone()));
                proof {
                    src = src.push(i as int);
                }
            }
            proof {
                assert forall|a: int|
                    0 <= a < i + 1 && in_half_open_interval(
                        hash_of((#[trigger] self.entries@[a]).0@),
                        pred_id,
                        self_id,
                    ) implies exists|j: int| 0 <= j < out@.len() && out@[j].0@
                    == self.entries@[a].0@ by {
                    if a < i {
                        let j = choose|j: int|
                            0 <= j < prev.len() && prev[j].0@ == self.entries@[a].0@;
                        assert(out@[j] == prev[j]);
                    } else {
                        let j = out@.len() - 1;
                        assert(out@[j].0@ == self.entries@[a].0@);
                    }
                }
            }
            i = i + 1;
        }
        proof {
            assert forall|j: int| 0 <= j < out@.len() implies {
                &&& self@.contains_key((#[trigger] out@[j]).0@)
                &&& out@[j].1@ == self@[out@[j].0@]
                &&& in_half_open_interval(hash_of(out@[j].0@), pred_id, self_id)
            } by {
                lemma_map_of_value(self.entries@, src[j]);
            }
            assert forall|k: Seq<char>|
                self@.contains_key(k) && in_half_open_interval(
                    hash_of(k),
                    pred_id,
                    self_id,
                ) implies exists|j: int| 0 <= j < out@.len() && (#[trigger] out@[j]).0@ == k by {
                lemma_map_of_contains(self.entries@, k);
                let a = choose|a: int| 0 <= a < self.entries@.len() && self.entries@[a].0@ == k;
            }
        }
        out
    }
}

} // verus!
