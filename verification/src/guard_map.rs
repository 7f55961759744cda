//! The duplicate-license guard: for each (account, sample, license-type kind)
//! triple, whether the account currently holds an active license of that type
//! for that sample, and which license id backs the claim.

use vstd::prelude::*;
use crate::kvmap::entries_map;
use crate::kvmap::lemma_entries_at;
use crate::kvmap::lemma_entries_contains;
use crate::kvmap::lemma_entries_update;

verus! {

/// The guard cell for one (account, sample, kind) triple.
#[derive(Clone, Copy, Debug, PartialEq, Eq, Structural)]
pub struct GuardVal {
    /// Whether the account holds an active license of this type for this sample.
    pub holds: bool,
    /// The id of that license; `0` where `holds` is false.
    pub license_id: u64,
}

/// The guard cell stored under a triple, or the cleared cell where none is.
pub open spec fn guard_of(m: Map<(u64, u64, u8), GuardVal>, owner: u64, sample_id: u64, kind: u8) -> GuardVal {
    if m.contains_key((owner, sample_id, kind)) {
        m[(owner, sample_id, kind)]
    } else {
        GuardVal { holds: false, license_id: 0 }
    }
}

pub struct GuardMap {
    owners: Vec<u64>,
    samples: Vec<u64>,
    kinds: Vec<u8>,
    vals: Vec<GuardVal>,
}

impl GuardMap {
    /// The stored key triples, in store order.
    closed spec fn triples(&self) -> Seq<(u64, u64, u8)> {
        Seq::new(self.owners@.len(), |i: int| (self.owners@[i], self.samples@[i], self.kinds@[i]))
    }

    pub closed spec fn view(&self) -> Map<(u64, u64, u8), GuardVal> {
        entries_map(self.triples(), self.vals@)
    }

    /// The representation invariant: parallel vectors, triples pairwise distinct.
    pub closed spec fn wf(&self) -> bool {
        &&& self.owners@.len() == self.vals@.len()
        &&& self.samples@.len() == self.vals@.len()
        &&& self.kinds@.len() == self.vals@.len()
        &&& forall|p: int, q: int|
            0 <= p < q < self.vals@.len() ==> self.triples()[p] != self.triples()[q]
    }

    pub fn new() -> (r: Self)
        ensures
            r@ == Map::<(u64, u64, u8), GuardVal>::empty(),
            r.wf(),
    {
        let r = Self { owners: Vec::new(), samples: Vec::new(), kinds: Vec::new(), vals: Vec::new() };
        proof {
            assert(r.triples() =~= Seq::<(u64, u64, u8)>::empty());
        }
        r
    }

    /// The guard cell for `(owner, sample_id, kind)`; cleared where none is stored.
    pub fn get(&self, owner: u64, sample_id: u64, kind: u8) -> (r: GuardVal)
        requires
            self.wf(),
        ensures
            r == guard_of(self@, owner, sample_id, kind),
    {
        proof {
            lemma_entries_contains(self.triples(), self.vals@, (owner, sample_id, kind));
        }
        let n = self.owners.len();
        let mut i: usize = 0;
        while i < n
            invariant
                n == self.owners@.len(),
                self.wf(),
                0 <= i <= n,
                forall|j: int| 0 <= j < i ==> self.triples()[j] != (owner, sample_id, kind),
                self@ == entries_map(self.triples(), self.vals@),
                self@.contains_key((owner, sample_id, kind)) <==> (exists|j: int|
                    0 <= j < n && self.triples()[j] == (owner, sample_id, kind)),
            decreases n - i,
        {
            if self.owners[i] == owner && self.samples[i] == sample_id && self.kinds[i] == kind {
                proof {
                    assert(self.triples()[i as int] == (owner, sample_id, kind));
                    lemma_entries_at(self.triples(), self.vals@, i as int);
                }
                return self.vals[i];
            }
            proof {
                assert(self.triples()[i as int] != (owner, sample_id, kind));
            }
            i += 1;
        }
        GuardVal { holds: false, license_id: 0 }
    }

    /// Stores `v` under `(owner, sample_id, kind)`, replacing any earlier cell.
    pub fn set(&mut self, owner: u64, sample_id: u64, kind: u8, v: GuardVal)
        requires
            old(self).wf(),
        ensures
            final(self).wf(),
            final(self)@ == old(self)@.insert((owner, sample_id, kind), v),
    {
        proof {
            lemma_entries_contains(self.triples(), self.vals@, (owner, sample_id, kind));
        }
        let n = self.owners.len();
        let mut i: usize = 0;
        while i < n
            invariant
                n == self.owners@.len(),
                self.wf(),
                0 <= i <= n,
                forall|j: int| 0 <= j < i ==> self.triples()[j] != (owner, sample_id, kind),
                self == old(self),
            decreases n - i,
        {
            if self.owners[i] == owner && self.samples[i] == sample_id && self.kinds[i] == kind {
                proof {
                    assert(self.triples()[i as int] == (owner, sample_id, kind));
                    lemma_entries_update(self.triples(), self.vals@, i as int, v);
                }
                self.vals[i] = v;
                proof {
                    assert(self.triples() =~= old(self).triples());
                }
                return ;
            }
            proof {
                assert(self.triples()[i as int] != (owner, sample_id, kind));
            }
            i += 1;
        }
        self.owners.push(owner);
        self.samples.push(sample_id);
        self.kinds.push(kind);
        self.vals.push(v);
        proof {
            assert(self.triples().drop_last() =~= old(self).triples());
            assert(self.vals@.drop_last() =~= old(self).vals@);
            assert(self.triples().last() == (owner, sample_id, kind));
            assert(forall|j: int|
                0 <= j < old(self).vals@.len() ==> self.triples()[j] == old(self).triples()[j]);
        }
    }
}

} // verus!
