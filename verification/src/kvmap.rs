//! A key-value store from 64-bit ids to copyable values, backed by parallel
//! vectors with pairwise-distinct keys. It models the per-account and
//! per-sample cells of the ledger's persistent storage.

use vstd::prelude::*;

verus! {

/// The map a keys/values pair of sequences holds: later entries win, though
/// under the distinct-keys invariant every key occurs at most once.
pub open spec fn entries_map<K, V>(keys: Seq<K>, vals: Seq<V>) -> Map<K, V>
    decreases keys.len(),
{
    if keys.len() == 0 || keys.len() != vals.len() {
        Map::empty()
    } else {
        entries_map(keys.drop_last(), vals.drop_last()).insert(keys.last(), vals.last())
    }
}

pub struct KvMap<V> {
    keys: Vec<u64>,
    vals: Vec<V>,
}

pub(crate) proof fn lemma_entries_contains<K, V>(keys: Seq<K>, vals: Seq<V>, k: K)
    requires
        keys.len() == vals.len(),
    ensures
        entries_map(keys, vals).dom().contains(k) <==> (exists|i: int|
            0 <= i < keys.len() && keys[i] == k),
    decreases keys.len(),
{
    if keys.len() > 0 {
        lemma_entries_contains(keys.drop_last(), vals.drop_last(), k);
        if entries_map(keys, vals).dom().contains(k) {
            if keys.last() == k {
                assert(keys[keys.len() - 1] == k);
            } else {
                let i = choose|i: int| 0 <= i < keys.len() - 1 && keys.drop_last()[i] == k;
                assert(keys[i] == k);
            }
        }
        if exists|i: int| 0 <= i < keys.len() && keys[i] == k {
            let i = choose|i: int| 0 <= i < keys.len() && keys[i] == k;
            if i < keys.len() - 1 {
                assert(keys.drop_last()[i] == k);
            }
        }
    }
}

pub(crate) proof fn lemma_entries_at<K, V>(keys: Seq<K>, vals: Seq<V>, i: int)
    requires
        keys.len() == vals.len(),
        forall|p: int, q: int| 0 <= p < q < keys.len() ==> keys[p] != keys[q],
        0 <= i < keys.len(),
    ensures
        entries_map(keys, vals).dom().contains(keys[i]),
        entries_map(keys, vals)[keys[i]] == vals[i],
    decreases keys.len(),
{
    if i < keys.len() - 1 {
        lemma_entries_at(keys.drop_last(), vals.drop_last(), i);
        assert(keys.drop_last()[i] == keys[i]);
        assert(keys.last() != keys[i]);
    }
}

pub(crate) proof fn lemma_entries_update<K, V>(keys: Seq<K>, vals: Seq<V>, i: int, v: V)
    requires
        keys.len() == vals.len(),
        forall|p: int, q: int| 0 <= p < q < keys.len() ==> keys[p] != keys[q],
        0 <= i < keys.len(),
    ensures
        entries_map(keys, vals.update(i, v)) == entries_map(keys, vals).insert(keys[i], v),
    decreases keys.len(),
{
    let lhs = entries_map(keys, vals.update(i, v));
    let rhs = entries_map(keys, vals).insert(keys[i], v);
    if i == keys.len() - 1 {
        assert(vals.update(i, v).drop_last() =~= vals.drop_last());
        assert(vals.update(i, v).last() == v);
        assert(lhs =~= rhs);
    } else {
        lemma_entries_update(keys.drop_last(), vals.drop_last(), i, v);
        assert(vals.update(i, v).drop_last() =~= vals.drop_last().update(i, v));
        assert(keys.drop_last()[i] == keys[i]);
        assert(vals.update(i, v).last() == vals.last());
        assert(keys.last() != keys[i]);
        assert(lhs =~= rhs);
    }
}

impl<V> KvMap<V> {
    pub closed spec fn view(&self) -> Map<u64, V> {
        entries_map(self.keys@, self.vals@)
    }

    /// The representation invariant: parallel vectors, keys pairwise distinct.
    pub closed spec fn wf(&self) -> bool {
        &&& self.keys@.len() == self.vals@.len()
        &&& forall|p: int, q: int| 0 <= p < q < self.keys@.len() ==> self.keys@[p] != self.keys@[q]
    }
}

impl<V: Copy> KvMap<V> {
    pub fn new() -> (r: Self)
        ensures
            r@ == Map::<u64, V>::empty(),
            r.wf(),
    {
        Self { keys: Vec::new(), vals: Vec::new() }
    }

    /// The stored value under `k`, or `dflt` where none is stored.
    pub fn get_or(&self, k: u64, dflt: V) -> (r: V)
        requires
            self.wf(),
        ensures
            r == if self@.contains_key(k) {
                self@[k]
            } else {
                dflt
            },
    {
        proof {
            lemma_entries_contains(self.keys@, self.vals@, k);
        }
        let n = self.keys.len();
        let mut i: usize = 0;
        while i < n
            invariant
                n == self.keys@.len(),
                self.wf(),
                0 <= i <= n,
                forall|j: int| 0 <= j < i ==> self.keys@[j] != k,
                self@ == entries_map(self.keys@, self.vals@),
                self@.contains_key(k) <==> (exists|j: int| 0 <= j < n && self.keys@[j] == k),
            decreases n - i,
        {
            if self.keys[i] == k {
                proof {
                    lemma_entries_at(self.keys@, self.vals@, i as int);
                }
                return self.vals[i];
            }
            i += 1;
        }
        dflt
    }

    /// Whether any value is stored under `k`.
    pub fn contains(&self, k: u64) -> (r: bool)
        requires
            self.wf(),
        ensures
            r == self@.contains_key(k),
    {
        proof {
            lemma_entries_contains(self.keys@, self.vals@, k);
        }
        let n = self.keys.len();
        let mut i: usize = 0;
        while i < n
            invariant
                n == self.keys@.len(),
                0 <= i <= n,
                forall|j: int| 0 <= j < i ==> self.keys@[j] != k,
                self@.contains_key(k) <==> (exists|j: int| 0 <= j < n && self.keys@[j] == k),
            decreases n - i,
        {
            if self.keys[i] == k {
                return true;
            }
            i += 1;
        }
        false
    }

    /// Stores `v` under `k`, replacing any earlier value.
    pub fn set(&mut self, k: u64, v: V)
        requires
            old(self).wf(),
        ensures
            final(self).wf(),
            final(self)@ == old(self)@.insert(k, v),
    {
        proof {
            lemma_entries_contains(self.keys@, self.vals@, k);
        }
        let n = self.keys.len();
        let mut i: usize = 0;
        while i < n
            invariant
                n == self.keys@.len(),
                self.wf(),
                0 <= i <= n,
                forall|j: int| 0 <= j < i ==> self.keys@[j] != k,
                self == old(self),
            decreases n - i,
        {
            if self.keys[i] == k {
                proof {
                    lemma_entries_update(self.keys@, self.vals@, i as int, v);
                }
                self.vals[i] = v;
                return ;
            }
            i += 1;
        }
        self.keys.push(k);
        self.vals.push(v);
        proof {
            assert(self.keys@.drop_last() =~= old(self).keys@);
            assert(self.vals@.drop_last() =~= old(self).vals@);
        }
    }
}

} // verus!
