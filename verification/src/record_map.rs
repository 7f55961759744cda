//! Purchase records keyed by (buyer, sample): who bought what, when, and for
//! how much. Presence of a record is what "already purchased" means.

use vstd::prelude::*;
use crate::catalog_types::PurchaseRecord;
use crate::catalog_types::PurchaseRecordView;
use crate::kvmap::entries_map;
use crate::kvmap::lemma_entries_contains;
use crate::kvmap::lemma_entries_update;

verus! {

pub struct RecordMap {
    buyers: Vec<u64>,
    samples: Vec<u64>,
    records: Vec<PurchaseRecord>,
}

impl RecordMap {
    /// The stored key pairs, in store order.
    closed spec fn pairs(&self) -> Seq<(u64, u64)> {
        Seq::new(self.buyers@.len(), |i: int| (self.buyers@[i], self.samples@[i]))
    }

    pub closed spec fn view(&self) -> Map<(u64, u64), PurchaseRecordView> {
        entries_map(self.pairs(), self.records@.map_values(|r: PurchaseRecord| r@))
    }

    /// The representation invariant: parallel vectors, pairs pairwise distinct.
    pub closed spec fn wf(&self) -> bool {
        &&& self.buyers@.len() == self.records@.len()
        &&& self.samples@.len() == self.records@.len()
        &&& forall|p: int, q: int|
            0 <= p < q < self.records@.len() ==> self.pairs()[p] != self.pairs()[q]
    }

    pub fn new() -> (r: Self)
        ensures
            r@ == Map::<(u64, u64), PurchaseRecordView>::empty(),
            r.wf(),
    {
        let r = Self { buyers: Vec::new(), samples: Vec::new(), records: Vec::new() };
        proof {
            assert(r.pairs() =~= Seq::<(u64, u64)>::empty());
        }
        r
    }

    /// Whether a record for `(buyer, sample_id)` is stored.
    pub fn contains(&self, buyer: u64, sample_id: u64) -> (r: bool)
        requires
            self.wf(),
        ensures
            r == self@.contains_key((buyer, sample_id)),
    {
        proof {
            lemma_entries_contains(
                self.pairs(),
                self.records@.map_values(|r: PurchaseRecord| r@),
                (buyer, sample_id),
            );
        }
        let n = self.buyers.len();
        let mut i: usize = 0;
        while i < n
            invariant
                n == self.buyers@.len(),
                self.wf(),
                0 <= i <= n,
                forall|j: int| 0 <= j < i ==> self.pairs()[j] != (buyer, sample_id),
                self@.contains_key((buyer, sample_id)) <==> (exists|j: int|
                    0 <= j < n && self.pairs()[j] == (buyer, sample_id)),
            decreases n - i,
        {
            if self.buyers[i] == buyer && self.samples[i] == sample_id {
                proof {
                    assert(self.pairs()[i as int] == (buyer, sample_id));
                }
                return true;
            }
            proof {
                assert(self.pairs()[i as int] != (buyer, sample_id));
            }
            i += 1;
        }
        false
    }

    /// Stores `record` under `(buyer, sample_id)`, replacing any earlier one.
    pub fn set(&mut self, buyer: u64, sample_id: u64, record: PurchaseRecord)
        requires
            old(self).wf(),
        ensures
            final(self).wf(),
            final(self)@ == old(self)@.insert((buyer, sample_id), record@),
    {
        proof {
            lemma_entries_contains(
                self.pairs(),
                self.records@.map_values(|r: PurchaseRecord| r@),
                (buyer, sample_id),
            );
        }
        let n = self.buyers.len();
        let mut i: usize = 0;
        while i < n
            invariant
                n == self.buyers@.len(),
                self.wf(),
                0 <= i <= n,
                forall|j: int| 0 <= j < i ==> self.pairs()[j] != (buyer, sample_id),
                self == old(self),
            decreases n - i,
        {
            if self.buyers[i] == buyer && self.samples[i] == sample_id {
                proof {
                    assert(self.pairs()[i as int] == (buyer, sample_id));
                    lemma_entries_update(
                        self.pairs(),
                        self.records@.map_values(|r: PurchaseRecord| r@),
                        i as int,
                        record@,
                    );
                }
                let ghost old_records = self.records@;
                self.records[i] = record;
                proof {
                    assert(self.pairs() =~= old(self).pairs());
                    assert(self.records@.map_values(|r: PurchaseRecord| r@)
                        =~= old_records.map_values(|r: PurchaseRecord| r@).update(i as int, record@));
                }
                return ;
            }
            proof {
                assert(self.pairs()[i as int] != (buyer, sample_id));
            }
            i += 1;
        }
        self.buyers.push(buyer);
        self.samples.push(sample_id);
        self.records.push(record);
        proof {
            assert(self.pairs().drop_last() =~= old(self).pairs());
            assert(self.records@.map_values(|r: PurchaseRecord| r@).drop_last() =~= old(
                self,
            ).records@.map_values(|r: PurchaseRecord| r@));
            assert(self.pairs().last() == (buyer, sample_id));
            assert(self.records@.map_values(|r: PurchaseRecord| r@).last() == record@);
            assert(forall|j: int|
                0 <= j < old(self).records@.len() ==> self.pairs()[j] == old(self).pairs()[j]);
        }
    }
}

} // verus!
