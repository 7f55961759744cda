//! The license ledger: the ownership and royalty state machine.
//!
//! The ledger owns every license record, a per-sample and a per-owner index,
//! the per-sample exclusivity state, the duplicate-license guard and the
//! creators' royalty balances. The surrounding runtime is modelled
//! explicitly: the calling account, the attached payment and the clock are
//! parameters, and outward token transfers are returned as receipts. A call
//! that returns an error leaves the ledger exactly as it was.

use vstd::prelude::*;
use casper_types::U512;
use crate::amount::amount_add;
use crate::amount::amount_div_u64;
use crate::amount::amount_eq;
use crate::amount::amount_lt;
use crate::amount::amount_mul_u64;
use crate::amount::amount_zero;
use crate::amount::u512_limit;
use crate::amount::u512_value;
use crate::errors::Error;
use crate::guard_map::GuardMap;
use crate::guard_map::GuardVal;
use crate::guard_map::guard_of;
use crate::index_map::IndexMap;
use crate::index_map::list_of;
use crate::index_map::tomb_first;
use crate::kvmap::KvMap;
use crate::license::CREATOR_ROYALTY_PERCENT;
use crate::license::LicenseMetadata;
use crate::license::LicenseType;
use crate::license::LicenseView;
use crate::license::RESALE_PLATFORM_FEE_PERCENT;
use crate::license::RoyaltyPayment;
use crate::license::SampleLicenseInfo;
use crate::license::type_of_code;

verus! {

/// The royalty owed to the original creator on a resale at price `p`:
/// ten percent, truncating.
pub open spec fn royalty_amount(p: nat) -> nat {
    (p * (CREATOR_ROYALTY_PERCENT as nat)) / 100
}

/// The platform fee on a resale at price `p`: two percent, truncating.
pub open spec fn platform_fee_amount(p: nat) -> nat {
    (p * (RESALE_PLATFORM_FEE_PERCENT as nat)) / 100
}

/// The least attached value a transfer at price `p` accepts: the price plus
/// both truncated components, with no rounding reconciliation across them.
pub open spec fn required_transfer_total(p: nat) -> nat {
    p + royalty_amount(p) + platform_fee_amount(p)
}

/// The license ids among `licenses` that belong to sample `s`, in issue order.
pub open spec fn sample_ids(licenses: Seq<LicenseView>, s: u64) -> Seq<u64>
    decreases licenses.len(),
{
    if licenses.len() == 0 {
        Seq::empty()
    } else {
        let pre = sample_ids(licenses.drop_last(), s);
        if licenses.last().sample_id == s {
            pre.push(licenses.last().license_id)
        } else {
            pre
        }
    }
}

/// Whether some license among `licenses` is an exclusive license for `s`.
pub open spec fn has_exclusive_license(licenses: Seq<LicenseView>, s: u64) -> bool {
    exists|i: int|
        0 <= i < licenses.len() && (#[trigger] licenses[i]).sample_id == s
            && licenses[i].license_type is Exclusive
}

/// Whether the per-sample flag map marks `s` as exclusively licensed.
pub open spec fn flag_set(flags: Map<u64, bool>, s: u64) -> bool {
    flags.contains_key(s) && flags[s]
}

/// The balance recorded for `c`, or zero where none is recorded.
pub open spec fn bal_of(balances: Map<u64, nat>, c: u64) -> nat {
    if balances.contains_key(c) {
        balances[c]
    } else {
        0
    }
}

/// License ids are dense, starting at one, and every record is active.
pub open spec fn ids_dense(licenses: Seq<LicenseView>) -> bool {
    &&& licenses.len() <= u64::MAX
    &&& forall|i: int|
        0 <= i < licenses.len() ==> (#[trigger] licenses[i]).license_id == i + 1
    &&& forall|i: int| 0 <= i < licenses.len() ==> (#[trigger] licenses[i]).is_active
}

/// The sample index holds exactly the issue history of each sample.
pub open spec fn sample_index_exact(
    sample_index: Map<u64, Seq<u64>>,
    licenses: Seq<LicenseView>,
) -> bool {
    forall|s: u64| #[trigger] list_of(sample_index, s) == sample_ids(licenses, s)
}

/// A sample's exclusivity flag is set exactly when an exclusive license for it
/// exists, at most one such license ever exists, and the recorded holder is
/// that license's current owner.
pub open spec fn exclusivity_consistent(
    flags: Map<u64, bool>,
    holders: Map<u64, u64>,
    licenses: Seq<LicenseView>,
) -> bool {
    &&& forall|s: u64| #[trigger] flag_set(flags, s) <==> has_exclusive_license(licenses, s)
    &&& forall|i: int, j: int|
        0 <= i < licenses.len() && 0 <= j < licenses.len()
            && (#[trigger] licenses[i]).license_type is Exclusive
            && (#[trigger] licenses[j]).license_type is Exclusive
            && licenses[i].sample_id == licenses[j].sample_id ==> i == j
    &&& forall|i: int|
        0 <= i < licenses.len() && (#[trigger] licenses[i]).license_type is Exclusive
            ==> holders.contains_key(licenses[i].sample_id)
                && holders[licenses[i].sample_id] == licenses[i].current_owner
}

/// A live (non-tombstoned) slot in an account's index names a license that
/// account currently owns, no id occurs twice among an account's live slots,
/// and every owned license appears in its owner's index.
pub open spec fn owner_index_consistent(
    owner_index: Map<u64, Seq<u64>>,
    licenses: Seq<LicenseView>,
) -> bool {
    &&& forall|a: u64, p: int|
        0 <= p < list_of(owner_index, a).len() && (#[trigger] list_of(owner_index, a)[p]) != 0
            ==> {
            &&& 1 <= list_of(owner_index, a)[p] <= licenses.len()
            &&& licenses[list_of(owner_index, a)[p] - 1].current_owner == a
        }
    &&& forall|a: u64, p: int, q: int|
        0 <= p < q < list_of(owner_index, a).len() && (#[trigger] list_of(owner_index, a)[p]) != 0
            ==> list_of(owner_index, a)[p] != (#[trigger] list_of(owner_index, a)[q])
    &&& forall|i: int|
        0 <= i < licenses.len() ==> list_of(
            owner_index,
            (#[trigger] licenses[i]).current_owner,
        ).contains(licenses[i].license_id)
}

/// No withdrawable balance exceeds its lifetime total.
pub open spec fn balances_consistent(earnings: Map<u64, nat>, lifetime: Map<u64, nat>) -> bool {
    forall|c: u64| #[trigger] bal_of(earnings, c) <= bal_of(lifetime, c)
}

/// The abstract state of the ledger.
#[verifier::ext_equal]
pub ghost struct LedgerView {
    /// The fixed admin account; receives platform fees.
    pub admin: u64,
    /// The registered marketplace account, once set; the only account allowed to mint.
    pub marketplace: Option<u64>,
    /// Every license ever minted; the license with id `i` sits at position `i - 1`.
    pub licenses: Seq<LicenseView>,
    /// Per sample, the append-only list of license ids issued for it.
    pub sample_index: Map<u64, Seq<u64>>,
    /// Per sample, whether an exclusive license has been issued.
    pub sample_has_exclusive: Map<u64, bool>,
    /// Per sample, the holder of its exclusive license.
    pub sample_exclusive_holder: Map<u64, u64>,
    /// Per account, the list of license ids acquired, with tombstoned slots.
    pub owner_index: Map<u64, Seq<u64>>,
    /// Per (account, sample, kind), the duplicate-license guard cell.
    pub guards: Map<(u64, u64, u8), GuardVal>,
    /// Per creator, the withdrawable royalty balance.
    pub royalty_earnings: Map<u64, nat>,
    /// Per creator, the lifetime royalty total; never decreases.
    pub total_royalties: Map<u64, nat>,
}

impl LedgerView {
    /// Whether `id` names a minted license.
    pub open spec fn valid_id(self, id: u64) -> bool {
        1 <= id && id <= self.licenses.len()
    }

    /// The license record with id `id`.
    pub open spec fn license(self, id: u64) -> LicenseView
        recommends
            self.valid_id(id),
    {
        self.licenses[id - 1]
    }

    /// Whether sample `s` carries an exclusive license, per its flag.
    pub open spec fn has_exclusive(self, s: u64) -> bool {
        flag_set(self.sample_has_exclusive, s)
    }

    /// The recorded exclusive holder of sample `s`, if its flag is set.
    pub open spec fn exclusive_holder(self, s: u64) -> Option<u64> {
        if self.has_exclusive(s) && self.sample_exclusive_holder.contains_key(s) {
            Some(self.sample_exclusive_holder[s])
        } else {
            None
        }
    }

    /// The guard cell for `(owner, sample, kind)`.
    pub open spec fn guard(self, owner: u64, sample_id: u64, kind: u8) -> GuardVal {
        guard_of(self.guards, owner, sample_id, kind)
    }

    /// The withdrawable royalty balance of `creator`.
    pub open spec fn earnings_of(self, creator: u64) -> nat {
        bal_of(self.royalty_earnings, creator)
    }

    /// The lifetime royalty total of `creator`.
    pub open spec fn lifetime_of(self, creator: u64) -> nat {
        bal_of(self.total_royalties, creator)
    }

    /// The index list of account `owner`, tombstones included.
    pub open spec fn owner_list(self, owner: u64) -> Seq<u64> {
        list_of(self.owner_index, owner)
    }

    /// The index list of sample `s`.
    pub open spec fn sample_list(self, s: u64) -> Seq<u64> {
        list_of(self.sample_index, s)
    }

    /// The semantic invariant of the ledger state.
    ///
    /// Ids are dense and start at one; records are never deleted. The sample
    /// index holds exactly the ids issued for each sample, in issue order. The
    /// exclusivity flag of a sample is set exactly when an exclusive license
    /// for it exists, there is at most one such license ever, and the recorded
    /// holder is its owner. A non-tombstoned slot in an account's index always
    /// names a license that account currently owns, no id occurs twice among
    /// them, and every owned license appears in its owner's index. No
    /// creator's withdrawable balance exceeds their lifetime total.
    pub open spec fn inv(self) -> bool {
        &&& ids_dense(self.licenses)
        &&& sample_index_exact(self.sample_index, self.licenses)
        &&& exclusivity_consistent(
            self.sample_has_exclusive,
            self.sample_exclusive_holder,
            self.licenses,
        )
        &&& owner_index_consistent(self.owner_index, self.licenses)
        &&& balances_consistent(self.royalty_earnings, self.total_royalties)
    }
}

/// The ledger as first deployed: no licenses, no balances, no marketplace.
pub open spec fn initial_ledger(admin: u64) -> LedgerView {
    LedgerView {
        admin,
        marketplace: None,
        licenses: Seq::empty(),
        sample_index: Map::empty(),
        sample_has_exclusive: Map::empty(),
        sample_exclusive_holder: Map::empty(),
        owner_index: Map::empty(),
        guards: Map::empty(),
        royalty_earnings: Map::empty(),
        total_royalties: Map::empty(),
    }
}

/// The license ledger.
pub struct LicenseNft {
    admin: u64,
    marketplace: Option<u64>,
    licenses: Vec<LicenseMetadata>,
    sample_index: IndexMap,
    sample_has_exclusive: KvMap<bool>,
    sample_exclusive_holder: KvMap<u64>,
    owner_index: IndexMap,
    guards: GuardMap,
    royalty_earnings: KvMap<U512>,
    total_royalties: KvMap<U512>,
}

impl View for LicenseNft {
    type V = LedgerView;

    closed spec fn view(&self) -> LedgerView {
        LedgerView {
            admin: self.admin,
            marketplace: self.marketplace,
            licenses: self.licenses@.map_values(|l: LicenseMetadata| l@),
            sample_index: self.sample_index@,
            sample_has_exclusive: self.sample_has_exclusive@,
            sample_exclusive_holder: self.sample_exclusive_holder@,
            owner_index: self.owner_index@,
            guards: self.guards@,
            royalty_earnings: self.royalty_earnings@.map_values(|v: U512| u512_value(v)),
            total_royalties: self.total_royalties@.map_values(|v: U512| u512_value(v)),
        }
    }
}

impl LicenseNft {
    /// The representation invariant of the backing stores.
    pub closed spec fn wf(&self) -> bool {
        &&& self.sample_index.wf()
        &&& self.sample_has_exclusive.wf()
        &&& self.sample_exclusive_holder.wf()
        &&& self.owner_index.wf()
        &&& self.guards.wf()
        &&& self.royalty_earnings.wf()
        &&& self.total_royalties.wf()
    }

    /// Deploys a fresh ledger with `admin` as its fixed admin account.
    pub fn init(admin: u64) -> (r: Self)
        ensures
            r.wf(),
            r@ == initial_ledger(admin),
            r@.inv(),
    {
        let r = LicenseNft {
            admin,
            marketplace: None,
            licenses: Vec::new(),
            sample_index: IndexMap::new(),
            sample_has_exclusive: KvMap::new(),
            sample_exclusive_holder: KvMap::new(),
            owner_index: IndexMap::new(),
            guards: GuardMap::new(),
            royalty_earnings: KvMap::new(),
            total_royalties: KvMap::new(),
        };
        proof {
            assert(r@ =~~= initial_ledger(admin));
            assert forall|s: u64| #[trigger]
                list_of(r@.sample_index, s) == sample_ids(r@.licenses, s) by {
                assert(list_of(r@.sample_index, s) =~= Seq::<u64>::empty());
            }
        }
        r
    }

    /// Registers the marketplace account that may mint. Only the admin may
    /// call this; anyone else gets an authorization error and no change.
    pub fn set_marketplace(&mut self, caller: u64, marketplace: u64) -> (r: Result<(), Error>)
        requires
            old(self).wf(),
        ensures
            final(self).wf(),
            final(self)@.inv() == old(self)@.inv(),
            caller != old(self)@.admin ==> r == Err::<(), Error>(Error::Unauthorized)
                && *final(self) == *old(self),
            caller == old(self)@.admin ==> r == Ok::<(), Error>(()) && final(self)@ == (LedgerView {
                marketplace: Some(marketplace),
                ..old(self)@
            }),
    {
        if caller != self.admin {
            return Err(Error::Unauthorized);
        }
        self.marketplace = Some(marketplace);
        proof {
            assert(final(self)@ =~~= (LedgerView { marketplace: Some(marketplace), ..old(self)@ }));
        }
        Ok(())
    }

    /// The registered marketplace account, if one has been set.
    pub fn get_marketplace(&self) -> (r: Option<u64>)
        ensures
            r == self@.marketplace,
    {
        self.marketplace
    }

    /// The admin account.
    pub fn get_admin(&self) -> (r: Option<u64>)
        ensures
            r == Some(self@.admin),
    {
        Some(self.admin)
    }

    /// The total number of licenses ever minted.
    pub fn get_license_count(&self) -> (r: u64)
        requires
            self@.inv(),
        ensures
            r == self@.licenses.len(),
    {
        self.licenses.len() as u64
    }

    /// The license record with the given id, if it exists.
    pub fn get_license(&self, license_id: u64) -> (r: Option<LicenseMetadata>)
        ensures
            match r {
                Some(l) => self@.valid_id(license_id) && l@ == self@.license(license_id),
                None => !self@.valid_id(license_id),
            },
    {
        let n = self.licenses.len();
        if license_id >= 1 && license_id <= n as u64 {
            Some(self.licenses[(license_id as usize) - 1])
        } else {
            None
        }
    }

    /// The current owner of a license, if the license exists.
    pub fn get_owner(&self, license_id: u64) -> (r: Option<u64>)
        ensures
            match r {
                Some(a) => self@.valid_id(license_id) && a == self@.license(
                    license_id,
                ).current_owner,
                None => !self@.valid_id(license_id),
            },
    {
        match self.get_license(license_id) {
            Some(l) => Some(l.current_owner),
            None => None,
        }
    }

    /// How many licenses have been issued for a sample.
    pub fn get_sample_license_count(&self, sample_id: u64) -> (r: u64)
        requires
            self.wf(),
            self@.inv(),
        ensures
            r == self@.sample_list(sample_id).len(),
    {
        proof {
            lemma_sample_ids_len_le(self@.licenses, sample_id);
        }
        self.sample_index.len_of(sample_id) as u64
    }

    /// Whether `owner` holds an active license of the given type for the sample.
    pub fn has_license(&self, owner: u64, sample_id: u64, license_type: u8) -> (r: bool)
        requires
            self.wf(),
        ensures
            r == self@.guard(owner, sample_id, license_type).holds,
    {
        self.guards.get(owner, sample_id, license_type).holds
    }

    /// The id of the license `owner` holds of the given type for the sample, if any.
    pub fn get_user_license(&self, owner: u64, sample_id: u64, license_type: u8) -> (r: Option<
        u64,
    >)
        requires
            self.wf(),
        ensures
            r == if self@.guard(owner, sample_id, license_type).license_id > 0 {
                Some(self@.guard(owner, sample_id, license_type).license_id)
            } else {
                None::<u64>
            },
    {
        let license_id = self.guards.get(owner, sample_id, license_type).license_id;
        if license_id > 0 {
            Some(license_id)
        } else {
            None
        }
    }

    /// Whether the sample carries an exclusive license.
    pub fn is_exclusively_licensed(&self, sample_id: u64) -> (r: bool)
        requires
            self.wf(),
        ensures
            r == self@.has_exclusive(sample_id),
    {
        self.sample_has_exclusive.get_or(sample_id, false)
    }

    /// The holder of the sample's exclusive license, if one exists.
    pub fn get_exclusive_holder(&self, sample_id: u64) -> (r: Option<u64>)
        requires
            self.wf(),
        ensures
            r == self@.exclusive_holder(sample_id),
    {
        if self.sample_has_exclusive.get_or(sample_id, false) {
            if self.sample_exclusive_holder.contains(sample_id) {
                Some(self.sample_exclusive_holder.get_or(sample_id, 0))
            } else {
                None
            }
        } else {
            None
        }
    }

    /// The creator's withdrawable royalty balance.
    pub fn get_royalty_earnings(&self, creator: u64) -> (r: U512)
        requires
            self.wf(),
        ensures
            u512_value(r) == self@.earnings_of(creator),
    {
        let z = amount_zero();
        self.royalty_earnings.get_or(creator, z)
    }

    /// The creator's lifetime royalty total.
    pub fn get_total_royalties(&self, creator: u64) -> (r: U512)
        requires
            self.wf(),
        ensures
            u512_value(r) == self@.lifetime_of(creator),
    {
        let z = amount_zero();
        self.total_royalties.get_or(creator, z)
    }

    /// Mints a new license. Only the registered marketplace account may call
    /// this; the checks run in a fixed order and the first failure wins, with
    /// no state change. On success the new record is persisted, both indices
    /// are extended, the duplicate guard is set, and an exclusive license
    /// additionally sets the sample's exclusivity flag and holder in the same
    /// step. Returns the new license id, which is one more than the count of
    /// licenses minted before the call.
    pub fn mint_license(
        &mut self,
        caller: u64,
        sample_id: u64,
        license_type: u8,
        buyer: u64,
        original_creator: u64,
        purchase_price: U512,
        timestamp: u64,
    ) -> (r: Result<u64, Error>)
        requires
            old(self).wf(),
            old(self)@.inv(),
            old(self)@.licenses.len() < u64::MAX,
        ensures
            final(self).wf(),
            final(self)@.inv(),
            match mint_error(old(self)@, caller, sample_id, license_type, buyer) {
                Some(e) => r == Err::<u64, Error>(e) && *final(self) == *old(self),
                None => {
                    &&& r == Ok::<u64, Error>(((old(self)@.licenses.len() + 1) as u64))
                    &&& final(self)@ == mint_effect(
                        old(self)@,
                        sample_id,
                        license_type,
                        buyer,
                        original_creator,
                        u512_value(purchase_price),
                        timestamp,
                    )
                },
            },
    {
        let marketplace = match self.marketplace {
            Some(m) => m,
            None => {
                return Err(Error::LicenseContractNotSet);
            },
        };
        if caller != marketplace {
            return Err(Error::Unauthorized);
        }
        let lt = match LicenseType::from_u8(license_type) {
            Some(lt) => lt,
            None => {
                return Err(Error::InvalidLicenseType);
            },
        };
        if self.sample_has_exclusive.get_or(sample_id, false) {
            return Err(Error::SampleExclusivelyLicensed);
        }
        if self.guards.get(buyer, sample_id, license_type).holds {
            return Err(Error::AlreadyHasLicenseType);
        }

        let license_id = self.licenses.len() as u64 + 1;
        let license = LicenseMetadata {
            license_id,
            sample_id,
            license_type: lt,
            original_creator,
            current_owner: buyer,
            purchase_price,
            purchase_timestamp: timestamp,
            is_active: true,
            transfer_count: 0,
        };
        self.licenses.push(license);
        self.sample_index.append(sample_id, license_id);
        self.owner_index.append(buyer, license_id);
        self.guards.set(buyer, sample_id, license_type, GuardVal { holds: true, license_id });
        let exclusive = lt.to_u8() == LicenseType::Exclusive.to_u8();
        if exclusive {
            self.sample_has_exclusive.set(sample_id, true);
            self.sample_exclusive_holder.set(sample_id, buyer);
        }
        proof {
            let w = mint_effect(
                old(self)@,
                sample_id,
                license_type,
                buyer,
                original_creator,
                u512_value(purchase_price),
                timestamp,
            );
            assert(self.licenses@.map_values(|l: LicenseMetadata| l@) =~= w.licenses);
            assert(self@ =~~= w);
            lemma_mint_preserves_inv(
                old(self)@,
                sample_id,
                license_type,
                buyer,
                original_creator,
                u512_value(purchase_price),
                timestamp,
            );
        }
        Ok(license_id)
    }

    /// Transfers a license to another account against payment. The caller
    /// must own the license, it must be active and not exclusive, and the
    /// attached value must cover the sale price plus the creator royalty and
    /// the platform fee, each computed with truncating division. All state
    /// effects are committed before any value moves outward: the returned
    /// receipt carries the sale price owed to the previous owner and the
    /// platform fee owed to the admin account, while the creator royalty is
    /// credited to the creator's withdrawable balance inside the ledger.
    pub fn transfer_license(
        &mut self,
        caller: u64,
        license_id: u64,
        to: u64,
        sale_price: U512,
        attached_value: U512,
        timestamp: u64,
    ) -> (r: Result<RoyaltyPayment, Error>)
        requires
            old(self).wf(),
            old(self)@.inv(),
            transfer_fits(
                old(self)@,
                caller,
                license_id,
                u512_value(sale_price),
                u512_value(attached_value),
            ),
        ensures
            final(self).wf(),
            final(self)@.inv(),
            match transfer_error(
                old(self)@,
                caller,
                license_id,
                u512_value(sale_price),
                u512_value(attached_value),
            ) {
                Some(e) => r == Err::<RoyaltyPayment, Error>(e) && *final(self) == *old(self),
                None => {
                    &&& r is Ok
                    &&& final(self)@ == transfer_effect(
                        old(self)@,
                        license_id,
                        to,
                        u512_value(sale_price),
                    )
                    &&& r->Ok_0.license_id == license_id
                    &&& r->Ok_0.from == old(self)@.license(license_id).current_owner
                    &&& r->Ok_0.to == to
                    &&& u512_value(r->Ok_0.sale_price) == u512_value(sale_price)
                    &&& u512_value(r->Ok_0.creator_royalty) == royalty_amount(
                        u512_value(sale_price),
                    )
                    &&& u512_value(r->Ok_0.platform_fee) == platform_fee_amount(
                        u512_value(sale_price),
                    )
                    &&& r->Ok_0.creator == old(self)@.license(license_id).original_creator
                    &&& r->Ok_0.timestamp == timestamp
                },
            },
    {
        let n = self.licenses.len();
        if !(license_id >= 1 && license_id <= n as u64) {
            return Err(Error::LicenseNotFound);
        }
        let idx = (license_id as usize) - 1;
        let license = self.licenses[idx];
        proof {
            assert(license@ == old(self)@.license(license_id));
        }
        if license.current_owner != caller {
            return Err(Error::NotLicenseOwner);
        }
        if !license.is_active {
            return Err(Error::LicenseInactive);
        }
        let kind = license.license_type.to_u8();
        if kind == 3 {
            proof {
                assert(license@.license_type is Exclusive);
            }
            return Err(Error::CannotTransferExclusiveLicense);
        }
        proof {
            assert(!(license@.license_type is Exclusive));
            lemma_fee_components_bounded(u512_value(sale_price));
        }

        let creator_royalty = amount_div_u64(
            amount_mul_u64(sale_price, CREATOR_ROYALTY_PERCENT),
            100,
        );
        let platform_fee = amount_div_u64(
            amount_mul_u64(sale_price, RESALE_PLATFORM_FEE_PERCENT),
            100,
        );
        let total_required = amount_add(amount_add(sale_price, creator_royalty), platform_fee);
        if amount_lt(attached_value, total_required) {
            return Err(Error::InsufficientRoyaltyPayment);
        }

        let previous_owner = license.current_owner;
        let sample_id = license.sample_id;
        let creator = license.original_creator;

        // Ownership and resale count move first; everything below is
        // unconditional bookkeeping, and value moves only through the receipt.
        let updated = LicenseMetadata {
            current_owner: to,
            transfer_count: license.transfer_count + 1,
            ..license
        };
        self.licenses[idx] = updated;
        proof {
            assert(list_of(old(self)@.owner_index, previous_owner).contains(license_id));
            assert(self.owner_index@.contains_key(previous_owner));
        }
        self.owner_index.tombstone_first(previous_owner, license_id);
        self.owner_index.append(to, license_id);
        self.guards.set(previous_owner, sample_id, kind, GuardVal { holds: false, license_id: 0 });
        self.guards.set(to, sample_id, kind, GuardVal { holds: true, license_id });
        proof {
            assert(bal_of(old(self)@.royalty_earnings, creator) <= bal_of(
                old(self)@.total_royalties,
                creator,
            ));
        }
        let z = amount_zero();
        let current_royalties = self.royalty_earnings.get_or(creator, z);
        self.royalty_earnings.set(creator, amount_add(current_royalties, creator_royalty));
        let lifetime_royalties = self.total_royalties.get_or(creator, z);
        self.total_royalties.set(creator, amount_add(lifetime_royalties, creator_royalty));

        proof {
            let w = transfer_effect(old(self)@, license_id, to, u512_value(sale_price));
            assert(self.licenses@.map_values(|l: LicenseMetadata| l@) =~= w.licenses);
            assert(self@.royalty_earnings =~= w.royalty_earnings);
            assert(self@.total_royalties =~= w.total_royalties);
            assert(self@ =~~= w);
            lemma_transfer_preserves_inv(
                old(self)@,
                caller,
                license_id,
                to,
                u512_value(sale_price),
                u512_value(attached_value),
            );
        }
        Ok(
            RoyaltyPayment {
                license_id,
                from: previous_owner,
                to,
                sale_price,
                creator_royalty,
                platform_fee,
                creator,
                timestamp,
            },
        )
    }

    /// Withdraws the caller's whole withdrawable royalty balance. The balance
    /// is zeroed before any value moves outward; the returned amount is what
    /// the runtime owes the caller. The lifetime total is untouched.
    pub fn withdraw_royalties(&mut self, caller: u64) -> (r: Result<U512, Error>)
        requires
            old(self).wf(),
            old(self)@.inv(),
        ensures
            final(self).wf(),
            final(self)@.inv(),
            old(self)@.earnings_of(caller) == 0 ==> r == Err::<U512, Error>(
                Error::NoRoyaltiesToWithdraw,
            ) && *final(self) == *old(self),
            old(self)@.earnings_of(caller) != 0 ==> {
                &&& r is Ok
                &&& u512_value(r->Ok_0) == old(self)@.earnings_of(caller)
                &&& final(self)@ == (LedgerView {
                    royalty_earnings: old(self)@.royalty_earnings.insert(caller, 0),
                    ..old(self)@
                })
            },
    {
        let z = amount_zero();
        let earnings = self.royalty_earnings.get_or(caller, z);
        if amount_eq(earnings, z) {
            return Err(Error::NoRoyaltiesToWithdraw);
        }
        self.royalty_earnings.set(caller, z);
        proof {
            let w = LedgerView {
                royalty_earnings: old(self)@.royalty_earnings.insert(caller, 0),
                ..old(self)@
            };
            assert(self@.royalty_earnings =~= w.royalty_earnings);
            assert(self@ =~~= w);
            assert(balances_consistent(w.royalty_earnings, w.total_royalties)) by {
                assert forall|c: u64| #[trigger]
                    bal_of(w.royalty_earnings, c) <= bal_of(w.total_royalties, c) by {
                    if c != caller {
                        assert(bal_of(w.royalty_earnings, c) == bal_of(
                            old(self)@.royalty_earnings,
                            c,
                        ));
                    }
                }
            }
        }
        Ok(earnings)
    }

    /// All license ids currently owned by `owner`, in acquisition order:
    /// the owner's index scanned from the start, skipping tombstones and any
    /// slot whose license has since changed hands.
    pub fn get_licenses_by_owner(&self, owner: u64) -> (r: Vec<u64>)
        requires
            self.wf(),
        ensures
            r@ == live_filter(self@.licenses, self@.owner_list(owner), owner),
    {
        let count = self.owner_index.len_of(owner);
        let mut result: Vec<u64> = Vec::new();
        let mut i: usize = 0;
        while i < count
            invariant
                self.wf(),
                count == self@.owner_list(owner).len(),
                0 <= i <= count,
                result@ == live_filter(
                    self@.licenses,
                    self@.owner_list(owner).take(i as int),
                    owner,
                ),
            decreases count - i,
        {
            let id = self.owner_index.at(owner, i);
            if id > 0 {
                match self.get_license(id) {
                    Some(license) => {
                        if license.current_owner == owner {
                            result.push(id);
                        }
                    },
                    None => {},
                }
            }
            proof {
                let slots = self@.owner_list(owner);
                assert(slots.take(i as int + 1).drop_last() =~= slots.take(i as int));
                assert(slots.take(i as int + 1).last() == slots[i as int]);
            }
            i += 1;
        }
        proof {
            assert(self@.owner_list(owner).take(count as int) =~= self@.owner_list(owner));
        }
        result
    }

    /// All license ids ever issued for a sample, in issue order; the full
    /// history, including since-transferred licenses.
    pub fn get_licenses_by_sample(&self, sample_id: u64) -> (r: Vec<u64>)
        requires
            self.wf(),
        ensures
            r@ == self@.sample_list(sample_id),
    {
        let count = self.sample_index.len_of(sample_id);
        let mut result: Vec<u64> = Vec::new();
        let mut i: usize = 0;
        while i < count
            invariant
                self.wf(),
                count == self@.sample_list(sample_id).len(),
                0 <= i <= count,
                result@ == self@.sample_list(sample_id).take(i as int),
            decreases count - i,
        {
            let id = self.sample_index.at(sample_id, i);
            result.push(id);
            proof {
                let l = self@.sample_list(sample_id);
                assert(result@ =~= l.take(i as int + 1));
            }
            i += 1;
        }
        proof {
            assert(self@.sample_list(sample_id).take(count as int) =~= self@.sample_list(
                sample_id,
            ));
        }
        result
    }

    /// A summary of the sample's issue history: the total issued, counts by
    /// type, and the exclusive holder if an exclusive license was issued.
    pub fn get_sample_license_info(&self, sample_id: u64) -> (r: SampleLicenseInfo)
        requires
            self.wf(),
            self@.inv(),
        ensures
            r.total_licenses == self@.sample_list(sample_id).len(),
            r.personal_count == count_kind(
                self@.licenses,
                self@.sample_list(sample_id),
                LicenseType::Personal,
            ),
            r.commercial_count == count_kind(
                self@.licenses,
                self@.sample_list(sample_id),
                LicenseType::Commercial,
            ),
            r.broadcast_count == count_kind(
                self@.licenses,
                self@.sample_list(sample_id),
                LicenseType::Broadcast,
            ),
            r.has_exclusive == (exclusive_info(self@.licenses, self@.sample_list(sample_id))
                is Some),
            r.exclusive_holder == exclusive_info(self@.licenses, self@.sample_list(sample_id)),
    {
        proof {
            lemma_sample_ids_len_le(self@.licenses, sample_id);
        }
        let count = self.sample_index.len_of(sample_id);
        let mut personal_count: u64 = 0;
        let mut commercial_count: u64 = 0;
        let mut broadcast_count: u64 = 0;
        let mut has_exclusive: bool = false;
        let mut exclusive_holder: Option<u64> = None;
        let mut i: usize = 0;
        while i < count
            invariant
                self.wf(),
                self@.inv(),
                count == self@.sample_list(sample_id).len(),
                count <= u64::MAX,
                0 <= i <= count,
                personal_count <= i && commercial_count <= i && broadcast_count <= i,
                personal_count == count_kind(
                    self@.licenses,
                    self@.sample_list(sample_id).take(i as int),
                    LicenseType::Personal,
                ),
                commercial_count == count_kind(
                    self@.licenses,
                    self@.sample_list(sample_id).take(i as int),
                    LicenseType::Commercial,
                ),
                broadcast_count == count_kind(
                    self@.licenses,
                    self@.sample_list(sample_id).take(i as int),
                    LicenseType::Broadcast,
                ),
                has_exclusive == (exclusive_info(
                    self@.licenses,
                    self@.sample_list(sample_id).take(i as int),
                ) is Some),
                exclusive_holder == exclusive_info(
                    self@.licenses,
                    self@.sample_list(sample_id).take(i as int),
                ),
            decreases count - i,
        {
            let id = self.sample_index.at(sample_id, i);
            proof {
                let l = self@.sample_list(sample_id);
                assert(l.take(i as int + 1).drop_last() =~= l.take(i as int));
                assert(l.take(i as int + 1).last() == l[i as int]);
            }
            match self.get_license(id) {
                Some(license) => {
                    match license.license_type {
                        LicenseType::Personal => {
                            personal_count += 1;
                        },
                        LicenseType::Commercial => {
                            commercial_count += 1;
                        },
                        LicenseType::Broadcast => {
                            broadcast_count += 1;
                        },
                        LicenseType::Exclusive => {
                            has_exclusive = true;
                            exclusive_holder = Some(license.current_owner);
                        },
                    }
                },
                None => {},
            }
            i += 1;
        }
        proof {
            assert(self@.sample_list(sample_id).take(count as int) =~= self@.sample_list(
                sample_id,
            ));
        }
        SampleLicenseInfo {
            total_licenses: count as u64,
            personal_count,
            commercial_count,
            broadcast_count,
            has_exclusive,
            exclusive_holder,
        }
    }
}

/// A sample's issue history is never longer than the full license list: its
/// ids are a subsequence of the dense id space.
pub proof fn lemma_sample_ids_len_le(licenses: Seq<LicenseView>, s: u64)
    ensures
        sample_ids(licenses, s).len() <= licenses.len(),
    decreases licenses.len(),
{
    if licenses.len() > 0 {
        lemma_sample_ids_len_le(licenses.drop_last(), s);
    }
}


/// The error a mint attempt fails with, in the protocol's check order
/// (first failure wins), or `None` where the mint succeeds.
pub open spec fn mint_error(
    v: LedgerView,
    caller: u64,
    sample_id: u64,
    license_type: u8,
    buyer: u64,
) -> Option<Error> {
    match v.marketplace {
        None => Some(Error::LicenseContractNotSet),
        Some(m) => if caller != m {
            Some(Error::Unauthorized)
        } else if type_of_code(license_type) is None {
            Some(Error::InvalidLicenseType)
        } else if v.has_exclusive(sample_id) {
            Some(Error::SampleExclusivelyLicensed)
        } else if v.guard(buyer, sample_id, license_type).holds {
            Some(Error::AlreadyHasLicenseType)
        } else {
            None
        },
    }
}

/// The state after a successful mint: the new record appended, both indices
/// extended, the duplicate guard set, and, for an exclusive license, the
/// sample's exclusivity flag and holder set in the same step.
pub open spec fn mint_effect(
    v: LedgerView,
    sample_id: u64,
    license_type: u8,
    buyer: u64,
    original_creator: u64,
    price: nat,
    timestamp: u64,
) -> LedgerView
    recommends
        v.licenses.len() < u64::MAX,
        type_of_code(license_type) is Some,
{
    let id = (v.licenses.len() + 1) as u64;
    let lt = type_of_code(license_type)->Some_0;
    let lic = LicenseView {
        license_id: id,
        sample_id,
        license_type: lt,
        original_creator,
        current_owner: buyer,
        purchase_price: price,
        purchase_timestamp: timestamp,
        is_active: true,
        transfer_count: 0,
    };
    LedgerView {
        licenses: v.licenses.push(lic),
        sample_index: v.sample_index.insert(sample_id, v.sample_list(sample_id).push(id)),
        owner_index: v.owner_index.insert(buyer, v.owner_list(buyer).push(id)),
        guards: v.guards.insert(
            (buyer, sample_id, license_type),
            GuardVal { holds: true, license_id: id },
        ),
        sample_has_exclusive: if lt is Exclusive {
            v.sample_has_exclusive.insert(sample_id, true)
        } else {
            v.sample_has_exclusive
        },
        sample_exclusive_holder: if lt is Exclusive {
            v.sample_exclusive_holder.insert(sample_id, buyer)
        } else {
            v.sample_exclusive_holder
        },
        ..v
    }
}

/// A successful mint preserves the ledger invariant.
pub proof fn lemma_mint_preserves_inv(
    v: LedgerView,
    sample_id: u64,
    license_type: u8,
    buyer: u64,
    original_creator: u64,
    price: nat,
    timestamp: u64,
)
    requires
        v.inv(),
        v.licenses.len() < u64::MAX,
        type_of_code(license_type) is Some,
        !v.has_exclusive(sample_id),
    ensures
        mint_effect(v, sample_id, license_type, buyer, original_creator, price, timestamp).inv(),
{
    let w = mint_effect(v, sample_id, license_type, buyer, original_creator, price, timestamp);
    let n = v.licenses.len() as int;
    let id = (n + 1) as u64;
    let lt = type_of_code(license_type)->Some_0;
    let lic = w.licenses.last();
    assert(w.licenses.drop_last() =~= v.licenses);
    assert(forall|i: int| 0 <= i < n ==> w.licenses[i] == v.licenses[i]);

    assert(ids_dense(w.licenses));

    assert forall|s: u64| #[trigger] list_of(w.sample_index, s) == sample_ids(w.licenses, s) by {
        assert(sample_ids(w.licenses.drop_last(), s) == sample_ids(v.licenses, s));
        if s == sample_id {
            assert(list_of(w.sample_index, s) == v.sample_list(sample_id).push(id));
        } else {
            assert(list_of(w.sample_index, s) == list_of(v.sample_index, s));
        }
    }

    assert(exclusivity_consistent(
        w.sample_has_exclusive,
        w.sample_exclusive_holder,
        w.licenses,
    )) by {
        assert forall|s: u64| #[trigger]
            flag_set(w.sample_has_exclusive, s) <==> has_exclusive_license(w.licenses, s) by {
            if flag_set(w.sample_has_exclusive, s) {
                if lt is Exclusive && s == sample_id {
                    assert(w.licenses[n].sample_id == s && w.licenses[n].license_type is Exclusive);
                } else {
                    assert(flag_set(v.sample_has_exclusive, s));
                    let i = choose|i: int|
                        0 <= i < v.licenses.len() && (#[trigger] v.licenses[i]).sample_id == s
                            && v.licenses[i].license_type is Exclusive;
                    assert(w.licenses[i].sample_id == s
                        && w.licenses[i].license_type is Exclusive);
                }
            }
            if has_exclusive_license(w.licenses, s) {
                let i = choose|i: int|
                    0 <= i < w.licenses.len() && (#[trigger] w.licenses[i]).sample_id == s
                        && w.licenses[i].license_type is Exclusive;
                if i < n {
                    assert(has_exclusive_license(v.licenses, s));
                    assert(flag_set(v.sample_has_exclusive, s));
                    assert(!(lt is Exclusive && s == sample_id));
                    assert(flag_set(w.sample_has_exclusive, s));
                } else {
                    assert(s == sample_id && lt is Exclusive);
                }
            }
        }
        assert forall|i: int, j: int|
            0 <= i < w.licenses.len() && 0 <= j < w.licenses.len()
                && (#[trigger] w.licenses[i]).license_type is Exclusive
                && (#[trigger] w.licenses[j]).license_type is Exclusive
                && w.licenses[i].sample_id == w.licenses[j].sample_id implies i == j by {
            if i == n && j < n {
                assert(has_exclusive_license(v.licenses, sample_id));
                assert(flag_set(v.sample_has_exclusive, sample_id));
            }
            if j == n && i < n {
                assert(has_exclusive_license(v.licenses, sample_id));
                assert(flag_set(v.sample_has_exclusive, sample_id));
            }
        }
        assert forall|i: int|
            0 <= i < w.licenses.len() && (#[trigger] w.licenses[i]).license_type is Exclusive
                implies w.sample_exclusive_holder.contains_key(w.licenses[i].sample_id)
                && w.sample_exclusive_holder[w.licenses[i].sample_id]
                == w.licenses[i].current_owner by {
            if i < n {
                if w.licenses[i].sample_id == sample_id {
                    assert(has_exclusive_license(v.licenses, sample_id));
                    assert(flag_set(v.sample_has_exclusive, sample_id));
                }
            }
        }
    }

    assert(owner_index_consistent(w.owner_index, w.licenses)) by {
        assert forall|a: u64, p: int|
            0 <= p < list_of(w.owner_index, a).len() && (#[trigger] list_of(w.owner_index, a)[p])
                != 0 implies {
            &&& 1 <= list_of(w.owner_index, a)[p] <= w.licenses.len()
            &&& w.licenses[list_of(w.owner_index, a)[p] - 1].current_owner == a
        } by {
            if a == buyer {
                if p < v.owner_list(buyer).len() {
                    assert(list_of(w.owner_index, a)[p] == v.owner_list(buyer)[p]);
                } else {
                    assert(list_of(w.owner_index, a)[p] == id);
                }
            } else {
                assert(list_of(w.owner_index, a) == list_of(v.owner_index, a));
            }
        }
        assert forall|a: u64, p: int, q: int|
            0 <= p < q < list_of(w.owner_index, a).len() && (#[trigger] list_of(
                w.owner_index,
                a,
            )[p]) != 0 implies list_of(w.owner_index, a)[p] != (#[trigger] list_of(
            w.owner_index,
            a,
        )[q]) by {
            if a == buyer {
                let ol = v.owner_list(buyer);
                if q < ol.len() {
                    assert(list_of(w.owner_index, a)[p] == ol[p]);
                    assert(list_of(w.owner_index, a)[q] == ol[q]);
                } else {
                    assert(list_of(w.owner_index, a)[q] == id);
                    assert(list_of(w.owner_index, a)[p] == ol[p]);
                    assert(ol[p] != 0 ==> ol[p] <= n);
                }
            } else {
                assert(list_of(w.owner_index, a) == list_of(v.owner_index, a));
            }
        }
        assert forall|i: int|
            0 <= i < w.licenses.len() implies list_of(
            w.owner_index,
            (#[trigger] w.licenses[i]).current_owner,
        ).contains(w.licenses[i].license_id) by {
            if i < n {
                let a = v.licenses[i].current_owner;
                let x = v.licenses[i].license_id;
                assert(list_of(v.owner_index, a).contains(x));
                let t = choose|t: int|
                    0 <= t < list_of(v.owner_index, a).len() && list_of(v.owner_index, a)[t] == x;
                if a == buyer {
                    assert(list_of(w.owner_index, a)[t] == x);
                } else {
                    assert(list_of(w.owner_index, a) == list_of(v.owner_index, a));
                }
            } else {
                let l = list_of(w.owner_index, buyer);
                assert(l[l.len() - 1] == id);
            }
        }
    }

    assert(balances_consistent(w.royalty_earnings, w.total_royalties));
}


/// Two license lists with the same ids and sample back-references have the
/// same issue history for every sample; ownership changes do not disturb it.
pub proof fn lemma_sample_ids_same(l1: Seq<LicenseView>, l2: Seq<LicenseView>, s: u64)
    requires
        l1.len() == l2.len(),
        forall|i: int|
            0 <= i < l1.len() ==> (#[trigger] l1[i]).sample_id == l2[i].sample_id
                && l1[i].license_id == l2[i].license_id,
    ensures
        sample_ids(l1, s) == sample_ids(l2, s),
    decreases l1.len(),
{
    if l1.len() > 0 {
        assert(forall|i: int|
            0 <= i < l1.len() - 1 ==> (#[trigger] l1.drop_last()[i]) == l1[i]);
        assert(forall|i: int|
            0 <= i < l2.len() - 1 ==> (#[trigger] l2.drop_last()[i]) == l2[i]);
        lemma_sample_ids_same(l1.drop_last(), l2.drop_last(), s);
        assert(l1.last().sample_id == l2.last().sample_id);
    }
}

/// The error a transfer attempt fails with, in the protocol's check order
/// (first failure wins), or `None` where the transfer succeeds.
pub open spec fn transfer_error(
    v: LedgerView,
    caller: u64,
    license_id: u64,
    sale_price: nat,
    attached_value: nat,
) -> Option<Error> {
    if !v.valid_id(license_id) {
        Some(Error::LicenseNotFound)
    } else if v.license(license_id).current_owner != caller {
        Some(Error::NotLicenseOwner)
    } else if !v.license(license_id).is_active {
        Some(Error::LicenseInactive)
    } else if v.license(license_id).license_type is Exclusive {
        Some(Error::CannotTransferExclusiveLicense)
    } else if attached_value < required_transfer_total(sale_price) {
        Some(Error::InsufficientRoyaltyPayment)
    } else {
        None
    }
}

/// The state after a successful transfer: ownership moved and the resale
/// counted, the previous owner's index slot tombstoned and a slot appended
/// for the new owner, the duplicate guard moved, and the creator's royalty
/// credited to both balances.
pub open spec fn transfer_effect(
    v: LedgerView,
    license_id: u64,
    to: u64,
    sale_price: nat,
) -> LedgerView
    recommends
        v.valid_id(license_id),
        v.license(license_id).transfer_count < u64::MAX,
{
    let lic = v.license(license_id);
    let prev = lic.current_owner;
    let kind = lic.license_type.code();
    let s = lic.sample_id;
    let newlic = LicenseView {
        current_owner: to,
        transfer_count: (lic.transfer_count + 1) as u64,
        ..lic
    };
    let royalty = royalty_amount(sale_price);
    let oi1 = v.owner_index.insert(prev, tomb_first(v.owner_list(prev), license_id));
    let oi2 = oi1.insert(to, list_of(oi1, to).push(license_id));
    LedgerView {
        licenses: v.licenses.update(license_id - 1, newlic),
        owner_index: oi2,
        guards: v.guards.insert((prev, s, kind), GuardVal { holds: false, license_id: 0 }).insert(
            (to, s, kind),
            GuardVal { holds: true, license_id },
        ),
        royalty_earnings: v.royalty_earnings.insert(
            lic.original_creator,
            v.earnings_of(lic.original_creator) + royalty,
        ),
        total_royalties: v.total_royalties.insert(
            lic.original_creator,
            v.lifetime_of(lic.original_creator) + royalty,
        ),
        ..v
    }
}

/// What machine limits force of a transfer's arguments: the fee arithmetic
/// must fit the 512-bit money type, a resale counter must not exhaust its
/// 64-bit range, and the credited balances must fit as well.
pub open spec fn transfer_fits(
    v: LedgerView,
    caller: u64,
    license_id: u64,
    sale_price: nat,
    attached_value: nat,
) -> bool {
    &&& ((v.valid_id(license_id) && v.license(license_id).current_owner == caller && v.license(
        license_id,
    ).is_active && !(v.license(license_id).license_type is Exclusive)) ==> sale_price * 10
        < u512_limit())
    &&& (transfer_error(v, caller, license_id, sale_price, attached_value) is None ==> {
        &&& v.license(license_id).transfer_count < u64::MAX
        &&& v.lifetime_of(v.license(license_id).original_creator) + royalty_amount(sale_price)
            < u512_limit()
    })
}

/// A successful transfer preserves the ledger invariant.
pub proof fn lemma_transfer_preserves_inv(
    v: LedgerView,
    caller: u64,
    license_id: u64,
    to: u64,
    sale_price: nat,
    attached_value: nat,
)
    requires
        v.inv(),
        transfer_error(v, caller, license_id, sale_price, attached_value) is None,
        v.license(license_id).transfer_count < u64::MAX,
    ensures
        transfer_effect(v, license_id, to, sale_price).inv(),
{
    let w = transfer_effect(v, license_id, to, sale_price);
    let i0 = license_id - 1;
    let lic = v.license(license_id);
    let prev = lic.current_owner;
    let pl = v.owner_list(prev);
    let oi1 = v.owner_index.insert(prev, tomb_first(pl, license_id));
    let tl = list_of(oi1, to);

    assert(w.licenses.len() == v.licenses.len());
    assert(forall|i: int|
        0 <= i < v.licenses.len() && i != i0 ==> (#[trigger] w.licenses[i]) == v.licenses[i]);
    assert(w.licenses[i0].license_id == license_id);
    assert(w.licenses[i0].sample_id == lic.sample_id);
    assert(!(w.licenses[i0].license_type is Exclusive));
    assert(w.licenses[i0].current_owner == to);

    assert(ids_dense(w.licenses));

    // The previous owner's list holds license_id in exactly one slot, and
    // tombstoning hits that slot.
    assert(pl.contains(license_id));
    pl.index_of_first_ensures(license_id);
    let fi = pl.index_of_first(license_id)->Some_0;
    assert(pl[fi] == license_id);
    assert(tomb_first(pl, license_id) == pl.update(fi, 0u64));
    assert(forall|p: int|
        0 <= p < pl.len() && p != fi ==> (#[trigger] pl[p]) != license_id) by {
        assert forall|p: int|
            0 <= p < pl.len() && p != fi implies (#[trigger] pl[p]) != license_id by {
            if p < fi {
            } else if p > fi {
                assert(pl[fi] != 0);
            }
        }
    }

    // Sample index: ownership and resale count do not touch it.
    assert forall|s: u64| #[trigger] list_of(w.sample_index, s) == sample_ids(w.licenses, s) by {
        lemma_sample_ids_same(w.licenses, v.licenses, s);
        assert(list_of(w.sample_index, s) == list_of(v.sample_index, s));
    }

    // Exclusivity: the moved license is not exclusive, every exclusive
    // record keeps its owner.
    assert(exclusivity_consistent(
        w.sample_has_exclusive,
        w.sample_exclusive_holder,
        w.licenses,
    )) by {
        assert forall|s: u64| #[trigger]
            flag_set(w.sample_has_exclusive, s) <==> has_exclusive_license(w.licenses, s) by {
            if flag_set(w.sample_has_exclusive, s) {
                let i = choose|i: int|
                    0 <= i < v.licenses.len() && (#[trigger] v.licenses[i]).sample_id == s
                        && v.licenses[i].license_type is Exclusive;
                assert(i != i0);
                assert(w.licenses[i].sample_id == s && w.licenses[i].license_type is Exclusive);
            }
            if has_exclusive_license(w.licenses, s) {
                let i = choose|i: int|
                    0 <= i < w.licenses.len() && (#[trigger] w.licenses[i]).sample_id == s
                        && w.licenses[i].license_type is Exclusive;
                assert(i != i0);
                assert(v.licenses[i].sample_id == s && v.licenses[i].license_type is Exclusive);
            }
        }
        assert forall|i: int, j: int|
            0 <= i < w.licenses.len() && 0 <= j < w.licenses.len()
                && (#[trigger] w.licenses[i]).license_type is Exclusive
                && (#[trigger] w.licenses[j]).license_type is Exclusive
                && w.licenses[i].sample_id == w.licenses[j].sample_id implies i == j by {
            assert(i != i0 && j != i0);
        }
        assert forall|i: int|
            0 <= i < w.licenses.len() && (#[trigger] w.licenses[i]).license_type is Exclusive
                implies w.sample_exclusive_holder.contains_key(w.licenses[i].sample_id)
                && w.sample_exclusive_holder[w.licenses[i].sample_id]
                == w.licenses[i].current_owner by {
            assert(i != i0);
            assert(w.licenses[i] == v.licenses[i]);
        }
    }

    // Owner index consistency.
    assert(owner_index_consistent(w.owner_index, w.licenses)) by {
        // A live slot names a license its account owns.
        assert forall|a: u64, p: int|
            0 <= p < list_of(w.owner_index, a).len() && (#[trigger] list_of(w.owner_index, a)[p])
                != 0 implies {
            &&& 1 <= list_of(w.owner_index, a)[p] <= w.licenses.len()
            &&& w.licenses[list_of(w.owner_index, a)[p] - 1].current_owner == a
        } by {
            let e = list_of(w.owner_index, a)[p];
            if a == to {
                if p == tl.len() {
                    assert(e == license_id);
                } else {
                    assert(e == tl[p]);
                    if to == prev {
                        assert(tl == pl.update(fi, 0u64));
                        assert(p != fi);
                        assert(e == pl[p]);
                        assert(e != license_id);
                    } else {
                        assert(tl == v.owner_list(to));
                        assert(v.licenses[e - 1].current_owner == to);
                        assert(e != license_id);
                    }
                }
            } else if a == prev {
                assert(list_of(w.owner_index, a) == pl.update(fi, 0u64));
                assert(p != fi);
                assert(e == pl[p]);
                assert(e != license_id);
            } else {
                assert(list_of(w.owner_index, a) == v.owner_list(a));
                assert(v.licenses[e - 1].current_owner == a);
                assert(e != license_id);
            }
        }
        // No id twice among live slots.
        assert forall|a: u64, p: int, q: int|
            0 <= p < q < list_of(w.owner_index, a).len() && (#[trigger] list_of(
                w.owner_index,
                a,
            )[p]) != 0 implies list_of(w.owner_index, a)[p] != (#[trigger] list_of(
            w.owner_index,
            a,
        )[q]) by {
            let l = list_of(w.owner_index, a);
            if a == to {
                if q == tl.len() {
                    // The appended id is fresh among live slots.
                    assert(l[q] == license_id);
                    if to == prev {
                        assert(l[p] == pl.update(fi, 0u64)[p]);
                        assert(p != fi);
                        assert(l[p] == pl[p]);
                        assert(l[p] != license_id);
                    } else {
                        assert(l[p] == v.owner_list(to)[p]);
                        assert(v.licenses[l[p] - 1].current_owner == to);
                        assert(l[p] != license_id);
                    }
                } else {
                    if to == prev {
                        assert(l[p] == pl.update(fi, 0u64)[p] && l[q] == pl.update(fi, 0u64)[q]);
                        assert(p != fi);
                        assert(l[p] == pl[p]);
                        if q != fi {
                            assert(l[q] == pl[q]);
                        }
                    } else {
                        assert(l[p] == v.owner_list(to)[p] && l[q] == v.owner_list(to)[q]);
                    }
                }
            } else if a == prev {
                assert(l == pl.update(fi, 0u64));
                assert(p != fi);
                assert(l[p] == pl[p]);
                if q != fi {
                    assert(l[q] == pl[q]);
                }
            } else {
                assert(l == v.owner_list(a));
            }
        }
        // Every owned license is listed.
        assert forall|i: int|
            0 <= i < w.licenses.len() implies list_of(
            w.owner_index,
            (#[trigger] w.licenses[i]).current_owner,
        ).contains(w.licenses[i].license_id) by {
            if i == i0 {
                let l = list_of(w.owner_index, to);
                assert(l[l.len() - 1] == license_id);
            } else {
                let a = v.licenses[i].current_owner;
                let x = v.licenses[i].license_id;
                assert(x == i + 1);
                assert(x != license_id);
                assert(list_of(v.owner_index, a).contains(x));
                let t = choose|t: int|
                    0 <= t < list_of(v.owner_index, a).len() && list_of(v.owner_index, a)[t] == x;
                if a == to {
                    if to == prev {
                        assert(t != fi);
                        assert(list_of(w.owner_index, a)[t] == x);
                    } else {
                        assert(list_of(w.owner_index, a)[t] == x);
                    }
                } else if a == prev {
                    assert(t != fi);
                    assert(list_of(w.owner_index, a)[t] == x);
                } else {
                    assert(list_of(w.owner_index, a) == list_of(v.owner_index, a));
                }
            }
        }
    }

    // Balances: both sides of the creator's account grow by the same royalty.
    assert(balances_consistent(w.royalty_earnings, w.total_royalties)) by {
        assert forall|c: u64| #[trigger]
            bal_of(w.royalty_earnings, c) <= bal_of(w.total_royalties, c) by {
            if c != lic.original_creator {
                assert(bal_of(w.royalty_earnings, c) == bal_of(v.royalty_earnings, c));
                assert(bal_of(w.total_royalties, c) == bal_of(v.total_royalties, c));
            }
        }
    }
}


/// The truncated royalty and fee never exceed the sale price itself, so the
/// required total fits comfortably under ten times the price.
pub proof fn lemma_fee_components_bounded(p: nat)
    ensures
        royalty_amount(p) <= p,
        platform_fee_amount(p) <= p,
        required_transfer_total(p) <= 3 * p,
{
    vstd::arithmetic::div_mod::lemma_fundamental_div_mod((p * 10) as int, 100);
    vstd::arithmetic::div_mod::lemma_fundamental_div_mod((p * 2) as int, 100);
}


/// The ids among `slots` that survive enumeration for `owner`: tombstones are
/// skipped, and so is any slot whose license is no longer owned by `owner` —
/// the record, not the index, is the ground truth.
pub open spec fn live_filter(licenses: Seq<LicenseView>, slots: Seq<u64>, owner: u64) -> Seq<u64>
    decreases slots.len(),
{
    if slots.len() == 0 {
        Seq::empty()
    } else {
        let pre = live_filter(licenses, slots.drop_last(), owner);
        let id = slots.last();
        if id != 0 && 1 <= id && id <= licenses.len() && licenses[id - 1].current_owner == owner {
            pre.push(id)
        } else {
            pre
        }
    }
}

/// How many ids in `ids` name a license of the given type.
pub open spec fn count_kind(licenses: Seq<LicenseView>, ids: Seq<u64>, kind: LicenseType) -> nat
    decreases ids.len(),
{
    if ids.len() == 0 {
        0
    } else {
        count_kind(licenses, ids.drop_last(), kind) + if 1 <= ids.last() && ids.last()
            <= licenses.len() && licenses[ids.last() - 1].license_type == kind {
            1nat
        } else {
            0nat
        }
    }
}

/// The owner of the last exclusive license named in `ids`, if any.
pub open spec fn exclusive_info(licenses: Seq<LicenseView>, ids: Seq<u64>) -> Option<u64>
    decreases ids.len(),
{
    if ids.len() == 0 {
        None
    } else {
        let id = ids.last();
        if 1 <= id && id <= licenses.len() && licenses[id - 1].license_type is Exclusive {
            Some(licenses[id - 1].current_owner)
        } else {
            exclusive_info(licenses, ids.drop_last())
        }
    }
}

/// Type counts never exceed the number of ids counted.
pub proof fn lemma_count_kind_le(licenses: Seq<LicenseView>, ids: Seq<u64>, kind: LicenseType)
    ensures
        count_kind(licenses, ids, kind) <= ids.len(),
    decreases ids.len(),
{
    if ids.len() > 0 {
        lemma_count_kind_le(licenses, ids.drop_last(), kind);
    }
}

} // verus!
