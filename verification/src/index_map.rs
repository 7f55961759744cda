//! Per-key ordered index lists: for each account or sample, the append-only
//! sequence of license ids acquired under it. A removal never shrinks a list;
//! the slot is tombstoned with the sentinel id `0`, which no license carries.

use vstd::prelude::*;
use crate::kvmap::entries_map;
use crate::kvmap::lemma_entries_at;
use crate::kvmap::lemma_entries_contains;
use crate::kvmap::lemma_entries_update;

verus! {

/// The list stored under `k`, or the empty list where none is stored.
pub open spec fn list_of(m: Map<u64, Seq<u64>>, k: u64) -> Seq<u64> {
    if m.contains_key(k) {
        m[k]
    } else {
        Seq::empty()
    }
}

/// `s` with its first occurrence of `id` replaced by the tombstone sentinel,
/// or `s` itself where `id` does not occur.
pub open spec fn tomb_first(s: Seq<u64>, id: u64) -> Seq<u64> {
    match s.index_of_first(id) {
        Some(j) => s.update(j, 0u64),
        None => s,
    }
}

pub struct IndexMap {
    keys: Vec<u64>,
    lists: Vec<Vec<u64>>,
}

impl IndexMap {
    pub closed spec fn view(&self) -> Map<u64, Seq<u64>> {
        entries_map(self.keys@, self.lists.deep_view())
    }

    /// The representation invariant: parallel vectors, keys pairwise distinct.
    pub closed spec fn wf(&self) -> bool {
        &&& self.keys@.len() == self.lists@.len()
        &&& forall|p: int, q: int| 0 <= p < q < self.keys@.len() ==> self.keys@[p] != self.keys@[q]
    }

    pub fn new() -> (r: Self)
        ensures
            r@ == Map::<u64, Seq<u64>>::empty(),
            r.wf(),
    {
        let r = Self { keys: Vec::new(), lists: Vec::new() };
        proof {
            assert(r.lists.deep_view() =~= Seq::<Seq<u64>>::empty());
        }
        r
    }

    /// The index of `k` among the stored keys, with what the view says of it.
    fn find(&self, k: u64) -> (r: Option<usize>)
        requires
            self.wf(),
        ensures
            match r {
                Some(i) => {
                    &&& i < self.keys@.len()
                    &&& self.keys@[i as int] == k
                    &&& self@.contains_key(k)
                    &&& self@[k] == self.lists.deep_view()[i as int]
                },
                None => !self@.contains_key(k),
            },
    {
        proof {
            lemma_entries_contains(self.keys@, self.lists.deep_view(), k);
        }
        let n = self.keys.len();
        let mut i: usize = 0;
        while i < n
            invariant
                n == self.keys@.len(),
                self.wf(),
                0 <= i <= n,
                forall|j: int| 0 <= j < i ==> self.keys@[j] != k,
                self@.contains_key(k) <==> (exists|j: int| 0 <= j < n && self.keys@[j] == k),
            decreases n - i,
        {
            if self.keys[i] == k {
                proof {
                    lemma_entries_at(self.keys@, self.lists.deep_view(), i as int);
                }
                return Some(i);
            }
            i += 1;
        }
        None
    }

    /// Appends `id` at the end of the list under `k`, creating the list where
    /// none is stored yet.
    pub fn append(&mut self, k: u64, id: u64)
        requires
            old(self).wf(),
        ensures
            final(self).wf(),
            final(self)@ == old(self)@.insert(k, list_of(old(self)@, k).push(id)),
    {
        let found = self.find(k);
        match found {
            Some(i) => {
                proof {
                    lemma_entries_update(
                        self.keys@,
                        self.lists.deep_view(),
                        i as int,
                        self.lists.deep_view()[i as int].push(id),
                    );
                }
                self.lists[i].push(id);
                proof {
                    assert(self.keys@ == old(self).keys@);
                    assert(self.lists@.len() == old(self).lists@.len());
                    assert(self.lists.deep_view() =~~= old(self).lists.deep_view().update(
                        i as int,
                        old(self).lists.deep_view()[i as int].push(id),
                    ));
                }
            },
            None => {
                proof {
                    lemma_entries_contains(self.keys@, self.lists.deep_view(), k);
                }
                let mut l: Vec<u64> = Vec::new();
                l.push(id);
                self.keys.push(k);
                self.lists.push(l);
                proof {
                    assert(self.keys@.drop_last() =~= old(self).keys@);
                    assert(self.lists.deep_view().drop_last() =~~= old(self).lists.deep_view());
                    assert(self.lists.deep_view().last() =~= list_of(old(self)@, k).push(id));
                }
            },
        }
    }

    /// The length of the list under `k`.
    pub fn len_of(&self, k: u64) -> (r: usize)
        requires
            self.wf(),
        ensures
            r == list_of(self@, k).len(),
    {
        match self.find(k) {
            Some(i) => self.lists[i].len(),
            None => 0,
        }
    }

    /// The entry at position `i` of the list under `k`.
    pub fn at(&self, k: u64, i: usize) -> (r: u64)
        requires
            self.wf(),
            i < list_of(self@, k).len(),
        ensures
            r == list_of(self@, k)[i as int],
    {
        let found = self.find(k);
        match found {
            Some(p) => self.lists[p][i],
            None => {
                proof {
                    assert(false);
                }
                0
            },
        }
    }

    /// Tombstones the first occurrence of `id` in the list under `k`, if any:
    /// the slot is set to the sentinel `0`, the list keeps its length.
    pub fn tombstone_first(&mut self, k: u64, id: u64)
        requires
            old(self).wf(),
            id != 0,
        ensures
            final(self).wf(),
            final(self)@ == if old(self)@.contains_key(k) {
                old(self)@.insert(k, tomb_first(old(self)@[k], id))
            } else {
                old(self)@
            },
    {
        let found = self.find(k);
        match found {
            Some(i) => {
                let ghost s = self.lists.deep_view()[i as int];
                proof {
                    s.index_of_first_ensures(id);
                }
                let n = self.lists[i].len();
                let mut j: usize = 0;
                while j < n
                    invariant
                        self == old(self),
                        self.wf(),
                        id != 0,
                        i < self.lists@.len(),
                        i < self.keys@.len(),
                        self.keys@[i as int] == k,
                        self@.contains_key(k),
                        self@[k] == s,
                        s == self.lists.deep_view()[i as int],
                        n == s.len(),
                        0 <= j <= n,
                        forall|p: int| 0 <= p < j ==> s[p] != id,
                    decreases n - j,
                {
                    if self.lists[i][j] == id {
                        proof {
                            assert(s[j as int] == id);
                            assert(s.contains(id));
                            s.index_of_first_ensures(id);
                            let fi = s.index_of_first(id)->Some_0;
                            assert(fi == j as int) by {
                                if fi < j as int {
                                    assert(s[fi] == id);
                                }
                            }
                            lemma_entries_update(
                                self.keys@,
                                self.lists.deep_view(),
                                i as int,
                                s.update(j as int, 0u64),
                            );
                        }
                        self.lists[i][j] = 0;
                        proof {
                            assert(self.keys@ == old(self).keys@);
                            assert(self.lists@.len() == old(self).lists@.len());
                            assert(self.lists.deep_view() =~~= old(self).lists.deep_view().update(
                                i as int,
                                s.update(j as int, 0u64),
                            ));
                            assert(tomb_first(s, id) == s.update(j as int, 0u64));
                        }
                        return ;
                    }
                    j += 1;
                }
                proof {
                    assert(!s.contains(id));
                    assert(tomb_first(s, id) == s);
                    assert(old(self)@.insert(k, s) =~= old(self)@);
                }
            },
            None => {},
        }
    }
}

} // verus!
