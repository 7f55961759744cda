//! The sample catalog: listing, outright purchase, price updates,
//! deactivation and earnings withdrawal. The license ledger consumes it only
//! through its interface; its own state machine is specified here in the same
//! style as the ledger's.

use vstd::prelude::*;
use casper_types::U512;
use crate::amount::amount_add;
use crate::amount::amount_div_u64;
use crate::amount::amount_eq;
use crate::amount::amount_lt;
use crate::amount::amount_mul_u64;
use crate::amount::amount_sub;
use crate::amount::amount_zero;
use crate::amount::u512_limit;
use crate::amount::u512_value;
use crate::catalog_types::MAX_COVER_IMAGE_LENGTH;
use crate::catalog_types::MAX_GENRE_LENGTH;
use crate::catalog_types::MAX_IPFS_LINK_LENGTH;
use crate::catalog_types::MAX_TITLE_LENGTH;
use crate::catalog_types::MAX_VIDEO_PREVIEW_LENGTH;
use crate::catalog_types::MarketplaceStats;
use crate::catalog_types::PLATFORM_FEE_DENOMINATOR;
use crate::catalog_types::PLATFORM_FEE_NUMERATOR;
use crate::catalog_types::PurchaseRecord;
use crate::catalog_types::PurchaseRecordView;
use crate::catalog_types::Sample;
use crate::catalog_types::SampleView;
use crate::catalog_types::SampledMarketplaceInitArgs;
use crate::catalog_types::UserStats;
use crate::catalog_types::copy_bytes;
use crate::errors::Error;
use crate::index_map::IndexMap;
use crate::index_map::list_of;
use crate::kvmap::KvMap;
use crate::ledger::bal_of;
use crate::ledger::balances_consistent;
use crate::record_map::RecordMap;

verus! {

/// The platform fee on an outright purchase at price `p`: ten percent,
/// truncating.
pub open spec fn purchase_fee(p: nat) -> nat {
    (p * (PLATFORM_FEE_NUMERATOR as nat)) / (PLATFORM_FEE_DENOMINATOR as nat)
}

/// The active samples among `samples`, in listing order.
pub open spec fn active_samples(samples: Seq<SampleView>) -> Seq<SampleView>
    decreases samples.len(),
{
    if samples.len() == 0 {
        Seq::empty()
    } else {
        let pre = active_samples(samples.drop_last());
        if samples.last().is_active {
            pre.push(samples.last())
        } else {
            pre
        }
    }
}

/// The sample records named by `ids`, skipping ids that name nothing.
pub open spec fn samples_at(samples: Seq<SampleView>, ids: Seq<u64>) -> Seq<SampleView>
    decreases ids.len(),
{
    if ids.len() == 0 {
        Seq::empty()
    } else {
        let pre = samples_at(samples, ids.drop_last());
        let id = ids.last();
        if 1 <= id && id <= samples.len() {
            pre.push(samples[id - 1])
        } else {
            pre
        }
    }
}

/// Sample ids are dense, starting at one.
pub open spec fn samples_dense(samples: Seq<SampleView>) -> bool {
    &&& samples.len() <= u64::MAX
    &&& forall|i: int| 0 <= i < samples.len() ==> (#[trigger] samples[i]).sample_id == i + 1
}

/// Every id in a user's uploaded list names a sample that user listed.
pub open spec fn uploads_consistent(
    uploaded: Map<u64, Seq<u64>>,
    samples: Seq<SampleView>,
) -> bool {
    forall|a: u64, p: int|
        0 <= p < list_of(uploaded, a).len() ==> {
            &&& 1 <= (#[trigger] list_of(uploaded, a)[p]) <= samples.len()
            &&& samples[list_of(uploaded, a)[p] - 1].seller == a
        }
}

/// Every id in a user's purchased list names a listed sample.
pub open spec fn purchases_valid(purchased: Map<u64, Seq<u64>>, samples: Seq<SampleView>) -> bool {
    forall|a: u64, p: int|
        0 <= p < list_of(purchased, a).len() ==> 1 <= (#[trigger] list_of(purchased, a)[p])
            <= samples.len()
}

/// The abstract state of the marketplace.
#[verifier::ext_equal]
pub ghost struct MarketView {
    /// The fixed admin account; receives platform fees.
    pub admin: u64,
    /// Every sample ever listed; the sample with id `i` sits at position `i - 1`.
    pub samples: Seq<SampleView>,
    /// Total trading volume.
    pub total_volume: nat,
    /// Total platform fees collected.
    pub platform_fee_collected: nat,
    /// Per user, the ids of the samples they uploaded.
    pub user_uploaded: Map<u64, Seq<u64>>,
    /// Per user, the ids of the samples they purchased.
    pub user_purchased: Map<u64, Seq<u64>>,
    /// Per user, the withdrawable earnings.
    pub user_earnings: Map<u64, nat>,
    /// Per user, the lifetime earnings.
    pub user_total_earned: Map<u64, nat>,
    /// Per user, the lifetime spending.
    pub user_total_spent: Map<u64, nat>,
    /// Per (buyer, sample), the purchase record.
    pub purchase_records: Map<(u64, u64), PurchaseRecordView>,
}

impl MarketView {
    /// Whether `id` names a listed sample.
    pub open spec fn valid_id(self, id: u64) -> bool {
        1 <= id && id <= self.samples.len()
    }

    /// The sample record with id `id`.
    pub open spec fn sample(self, id: u64) -> SampleView
        recommends
            self.valid_id(id),
    {
        self.samples[id - 1]
    }

    /// Whether `buyer` has purchased `sample_id`.
    pub open spec fn purchased(self, buyer: u64, sample_id: u64) -> bool {
        self.purchase_records.contains_key((buyer, sample_id))
    }

    /// The withdrawable earnings of `user`.
    pub open spec fn earnings_of(self, user: u64) -> nat {
        bal_of(self.user_earnings, user)
    }

    /// The lifetime earnings of `user`.
    pub open spec fn total_earned_of(self, user: u64) -> nat {
        bal_of(self.user_total_earned, user)
    }

    /// The lifetime spending of `user`.
    pub open spec fn total_spent_of(self, user: u64) -> nat {
        bal_of(self.user_total_spent, user)
    }

    /// The semantic invariant of the marketplace state.
    pub open spec fn inv(self) -> bool {
        &&& samples_dense(self.samples)
        &&& uploads_consistent(self.user_uploaded, self.samples)
        &&& purchases_valid(self.user_purchased, self.samples)
        &&& balances_consistent(self.user_earnings, self.user_total_earned)
    }
}

/// The marketplace as first deployed.
pub open spec fn initial_market(admin: u64) -> MarketView {
    MarketView {
        admin,
        samples: Seq::empty(),
        total_volume: 0,
        platform_fee_collected: 0,
        user_uploaded: Map::empty(),
        user_purchased: Map::empty(),
        user_earnings: Map::empty(),
        user_total_earned: Map::empty(),
        user_total_spent: Map::empty(),
        purchase_records: Map::empty(),
    }
}

/// The error an upload fails with, in check order, or `None` on success.
pub open spec fn upload_error(
    price: nat,
    title_len: nat,
    ipfs_len: nat,
    genre_len: nat,
    cover_len: nat,
    video_len: nat,
) -> Option<Error> {
    if price == 0 {
        Some(Error::InvalidPrice)
    } else if title_len > MAX_TITLE_LENGTH {
        Some(Error::TitleTooLong)
    } else if ipfs_len > MAX_IPFS_LINK_LENGTH {
        Some(Error::IpfsLinkTooLong)
    } else if genre_len > MAX_GENRE_LENGTH {
        Some(Error::GenreTooLong)
    } else if cover_len > MAX_COVER_IMAGE_LENGTH {
        Some(Error::CoverImageTooLong)
    } else if video_len > MAX_VIDEO_PREVIEW_LENGTH {
        Some(Error::VideoPreviewTooLong)
    } else {
        None
    }
}

/// The state after a successful upload.
pub open spec fn upload_effect(
    v: MarketView,
    caller: u64,
    price: nat,
    ipfs_link: Seq<u8>,
    title: Seq<u8>,
    bpm: u64,
    genre: Seq<u8>,
    cover_image: Seq<u8>,
    video_preview_link: Seq<u8>,
    timestamp: u64,
) -> MarketView
    recommends
        v.samples.len() < u64::MAX,
{
    let id = (v.samples.len() + 1) as u64;
    let sample = SampleView {
        sample_id: id,
        seller: caller,
        price,
        ipfs_link,
        title,
        bpm,
        genre,
        cover_image,
        video_preview_link,
        total_sales: 0,
        is_active: true,
        created_at: timestamp,
    };
    MarketView {
        samples: v.samples.push(sample),
        user_uploaded: v.user_uploaded.insert(
            caller,
            list_of(v.user_uploaded, caller).push(id),
        ),
        ..v
    }
}

/// The error a purchase fails with, in check order, or `None` on success.
pub open spec fn purchase_error(
    v: MarketView,
    caller: u64,
    sample_id: u64,
    attached_value: nat,
) -> Option<Error> {
    if !v.valid_id(sample_id) {
        Some(Error::SampleNotFound)
    } else if !v.sample(sample_id).is_active {
        Some(Error::SampleInactive)
    } else if attached_value < v.sample(sample_id).price {
        Some(Error::InsufficientPayment)
    } else if v.purchased(caller, sample_id) {
        Some(Error::AlreadyPurchased)
    } else {
        None
    }
}

/// The state after a successful purchase: the sale counted, volume and fee
/// totals grown, the buyer's record stored and spending grown, and the
/// seller's earnings credited with the price less the platform fee.
pub open spec fn purchase_effect(v: MarketView, caller: u64, sample_id: u64, timestamp: u64) -> MarketView
    recommends
        v.valid_id(sample_id),
        v.sample(sample_id).total_sales < u64::MAX,
{
    let sample = v.sample(sample_id);
    let price = sample.price;
    let fee = purchase_fee(price);
    let seller_amount = (price - fee) as nat;
    let updated = SampleView { total_sales: (sample.total_sales + 1) as u64, ..sample };
    let record = PurchaseRecordView {
        sample_id,
        seller: sample.seller,
        price,
        timestamp,
        ipfs_link: sample.ipfs_link,
    };
    MarketView {
        samples: v.samples.update(sample_id - 1, updated),
        total_volume: v.total_volume + price,
        platform_fee_collected: v.platform_fee_collected + fee,
        user_purchased: v.user_purchased.insert(
            caller,
            list_of(v.user_purchased, caller).push(sample_id),
        ),
        user_total_spent: v.user_total_spent.insert(caller, v.total_spent_of(caller) + price),
        purchase_records: v.purchase_records.insert((caller, sample_id), record),
        user_earnings: v.user_earnings.insert(
            sample.seller,
            v.earnings_of(sample.seller) + seller_amount,
        ),
        user_total_earned: v.user_total_earned.insert(
            sample.seller,
            v.total_earned_of(sample.seller) + seller_amount,
        ),
        ..v
    }
}

/// What machine limits force of a purchase: the fee arithmetic and the grown
/// balances must fit the 512-bit money type, and a sales counter must not
/// exhaust its 64-bit range.
pub open spec fn purchase_fits(
    v: MarketView,
    caller: u64,
    sample_id: u64,
    attached_value: nat,
) -> bool {
    purchase_error(v, caller, sample_id, attached_value) is None ==> {
        let price = v.sample(sample_id).price;
        &&& price * 10 < u512_limit()
        &&& v.sample(sample_id).total_sales < u64::MAX
        &&& v.total_volume + price < u512_limit()
        &&& v.platform_fee_collected + purchase_fee(price) < u512_limit()
        &&& v.total_spent_of(caller) + price < u512_limit()
        &&& v.total_earned_of(v.sample(sample_id).seller) + price < u512_limit()
    }
}

/// The sample catalog.
pub struct SampledMarketplace {
    admin: u64,
    samples: Vec<Sample>,
    total_volume: U512,
    platform_fee_collected: U512,
    user_uploaded: IndexMap,
    user_purchased: IndexMap,
    user_earnings: KvMap<U512>,
    user_total_earned: KvMap<U512>,
    user_total_spent: KvMap<U512>,
    purchase_records: RecordMap,
}

impl View for SampledMarketplace {
    type V = MarketView;

    closed spec fn view(&self) -> MarketView {
        MarketView {
            admin: self.admin,
            samples: self.samples@.map_values(|s: Sample| s@),
            total_volume: u512_value(self.total_volume),
            platform_fee_collected: u512_value(self.platform_fee_collected),
            user_uploaded: self.user_uploaded@,
            user_purchased: self.user_purchased@,
            user_earnings: self.user_earnings@.map_values(|v: U512| u512_value(v)),
            user_total_earned: self.user_total_earned@.map_values(|v: U512| u512_value(v)),
            user_total_spent: self.user_total_spent@.map_values(|v: U512| u512_value(v)),
            purchase_records: self.purchase_records@,
        }
    }
}

impl SampledMarketplace {
    /// The representation invariant of the backing stores.
    pub closed spec fn wf(&self) -> bool {
        &&& self.user_uploaded.wf()
        &&& self.user_purchased.wf()
        &&& self.user_earnings.wf()
        &&& self.user_total_earned.wf()
        &&& self.user_total_spent.wf()
        &&& self.purchase_records.wf()
    }

    /// Deploys a fresh marketplace.
    pub fn init(init_args: SampledMarketplaceInitArgs) -> (r: Self)
        ensures
            r.wf(),
            r@ == initial_market(init_args.admin),
            r@.inv(),
    {
        let r = SampledMarketplace {
            admin: init_args.admin,
            samples: Vec::new(),
            total_volume: amount_zero(),
            platform_fee_collected: amount_zero(),
            user_uploaded: IndexMap::new(),
            user_purchased: IndexMap::new(),
            user_earnings: KvMap::new(),
            user_total_earned: KvMap::new(),
            user_total_spent: KvMap::new(),
            purchase_records: RecordMap::new(),
        };
        proof {
            assert(r@ =~~= initial_market(init_args.admin));
        }
        r
    }

    /// Lists a new sample. The price must be nonzero and every metadata field
    /// within its length bound; the first violated bound names the error, and
    /// a failed call changes nothing.
    pub fn upload_sample(
        &mut self,
        caller: u64,
        price: U512,
        ipfs_link: Vec<u8>,
        title: Vec<u8>,
        bpm: u64,
        genre: Vec<u8>,
        cover_image: Vec<u8>,
        video_preview_link: Vec<u8>,
        timestamp: u64,
    ) -> (r: Result<(), Error>)
        requires
            old(self).wf(),
            old(self)@.inv(),
            old(self)@.samples.len() < u64::MAX,
        ensures
            final(self).wf(),
            final(self)@.inv(),
            match upload_error(
                u512_value(price),
                title@.len(),
                ipfs_link@.len(),
                genre@.len(),
                cover_image@.len(),
                video_preview_link@.len(),
            ) {
                Some(e) => r == Err::<(), Error>(e) && *final(self) == *old(self),
                None => r == Ok::<(), Error>(()) && final(self)@ == upload_effect(
                    old(self)@,
                    caller,
                    u512_value(price),
                    ipfs_link@,
                    title@,
                    bpm,
                    genre@,
                    cover_image@,
                    video_preview_link@,
                    timestamp,
                ),
            },
    {
        let z = amount_zero();
        if amount_eq(price, z) {
            return Err(Error::InvalidPrice);
        }
        if title.len() > MAX_TITLE_LENGTH {
            return Err(Error::TitleTooLong);
        }
        if ipfs_link.len() > MAX_IPFS_LINK_LENGTH {
            return Err(Error::IpfsLinkTooLong);
        }
        if genre.len() > MAX_GENRE_LENGTH {
            return Err(Error::GenreTooLong);
        }
        if cover_image.len() > MAX_COVER_IMAGE_LENGTH {
            return Err(Error::CoverImageTooLong);
        }
        if video_preview_link.len() > MAX_VIDEO_PREVIEW_LENGTH {
            return Err(Error::VideoPreviewTooLong);
        }

        let sample_id = self.samples.len() as u64 + 1;
        let sample = Sample {
            sample_id,
            seller: caller,
            price,
            ipfs_link,
            title,
            bpm,
            genre,
            cover_image,
            video_preview_link,
            total_sales: 0,
            is_active: true,
            created_at: timestamp,
        };
        self.samples.push(sample);
        self.user_uploaded.append(caller, sample_id);
        proof {
            let w = upload_effect(
                old(self)@,
                caller,
                u512_value(price),
                sample.ipfs_link@,
                sample.title@,
                bpm,
                sample.genre@,
                sample.cover_image@,
                sample.video_preview_link@,
                timestamp,
            );
            assert(self.samples@.map_values(|s: Sample| s@) =~= w.samples);
            assert(self@ =~~= w);
            let n = old(self)@.samples.len() as int;
            assert forall|a: u64, p: int|
                0 <= p < list_of(w.user_uploaded, a).len() implies {
                &&& 1 <= (#[trigger] list_of(w.user_uploaded, a)[p]) <= w.samples.len()
                &&& w.samples[list_of(w.user_uploaded, a)[p] - 1].seller == a
            } by {
                if a == caller {
                    if p < list_of(old(self)@.user_uploaded, caller).len() {
                        assert(list_of(w.user_uploaded, a)[p] == list_of(
                            old(self)@.user_uploaded,
                            a,
                        )[p]);
                    } else {
                        assert(list_of(w.user_uploaded, a)[p] == sample_id);
                    }
                } else {
                    assert(list_of(w.user_uploaded, a) == list_of(old(self)@.user_uploaded, a));
                }
            }
            assert forall|a: u64, p: int|
                0 <= p < list_of(w.user_purchased, a).len() implies 1 <= (#[trigger] list_of(
                w.user_purchased,
                a,
            )[p]) <= w.samples.len() by {
                assert(list_of(w.user_purchased, a) == list_of(old(self)@.user_purchased, a));
            }
        }
        Ok(())
    }

    /// Purchases a sample outright. The sample must exist and be active, the
    /// attached value must cover its price, and a repeat purchase by the same
    /// buyer is refused. The platform fee — ten percent of the price,
    /// truncating — is owed to the admin account and returned as the receipt;
    /// the seller is credited the remainder inside the marketplace.
    pub fn purchase_sample(
        &mut self,
        caller: u64,
        sample_id: u64,
        attached_value: U512,
        timestamp: u64,
    ) -> (r: Result<U512, Error>)
        requires
            old(self).wf(),
            old(self)@.inv(),
            purchase_fits(old(self)@, caller, sample_id, u512_value(attached_value)),
        ensures
            final(self).wf(),
            final(self)@.inv(),
            match purchase_error(old(self)@, caller, sample_id, u512_value(attached_value)) {
                Some(e) => r == Err::<U512, Error>(e) && *final(self) == *old(self),
                None => {
                    &&& r is Ok
                    &&& u512_value(r->Ok_0) == purchase_fee(old(self)@.sample(sample_id).price)
                    &&& final(self)@ == purchase_effect(old(self)@, caller, sample_id, timestamp)
                },
            },
    {
        let n = self.samples.len();
        if !(sample_id >= 1 && sample_id <= n as u64) {
            return Err(Error::SampleNotFound);
        }
        let idx = (sample_id as usize) - 1;
        if !self.samples[idx].is_active {
            return Err(Error::SampleInactive);
        }
        let price = self.samples[idx].price;
        if amount_lt(attached_value, price) {
            return Err(Error::InsufficientPayment);
        }
        if self.purchase_records.contains(caller, sample_id) {
            return Err(Error::AlreadyPurchased);
        }
        proof {
            vstd::arithmetic::div_mod::lemma_fundamental_div_mod(
                (u512_value(price) * 10) as int,
                100,
            );
        }
        let platform_fee = amount_div_u64(
            amount_mul_u64(price, PLATFORM_FEE_NUMERATOR),
            PLATFORM_FEE_DENOMINATOR,
        );
        let seller_amount = amount_sub(price, platform_fee);
        let seller = self.samples[idx].seller;

        let total_sales = self.samples[idx].total_sales;
        self.samples[idx].total_sales = total_sales + 1;
        self.total_volume = amount_add(self.total_volume, price);
        self.platform_fee_collected = amount_add(self.platform_fee_collected, platform_fee);
        self.user_purchased.append(caller, sample_id);
        let z = amount_zero();
        let spent = self.user_total_spent.get_or(caller, z);
        self.user_total_spent.set(caller, amount_add(spent, price));
        let record = PurchaseRecord {
            sample_id,
            seller,
            price,
            timestamp,
            ipfs_link: copy_bytes(&self.samples[idx].ipfs_link),
        };
        self.purchase_records.set(caller, sample_id, record);
        proof {
            assert(bal_of(old(self)@.user_earnings, seller) <= bal_of(
                old(self)@.user_total_earned,
                seller,
            ));
        }
        let earnings = self.user_earnings.get_or(seller, z);
        self.user_earnings.set(seller, amount_add(earnings, seller_amount));
        let earned = self.user_total_earned.get_or(seller, z);
        self.user_total_earned.set(seller, amount_add(earned, seller_amount));

        proof {
            let v0 = old(self)@;
            let w = purchase_effect(v0, caller, sample_id, timestamp);
            assert(self.samples@.map_values(|s: Sample| s@) =~~= w.samples);
            assert(self@ =~~= w);
            let i0 = sample_id - 1;
            assert(samples_dense(w.samples));
            assert forall|a: u64, p: int|
                0 <= p < list_of(w.user_uploaded, a).len() implies {
                &&& 1 <= (#[trigger] list_of(w.user_uploaded, a)[p]) <= w.samples.len()
                &&& w.samples[list_of(w.user_uploaded, a)[p] - 1].seller == a
            } by {
                assert(list_of(w.user_uploaded, a) == list_of(v0.user_uploaded, a));
                let e = list_of(v0.user_uploaded, a)[p];
                assert(v0.samples[e - 1].seller == a);
                assert(w.samples[e - 1].seller == v0.samples[e - 1].seller);
            }
            assert forall|a: u64, p: int|
                0 <= p < list_of(w.user_purchased, a).len() implies 1 <= (#[trigger] list_of(
                w.user_purchased,
                a,
            )[p]) <= w.samples.len() by {
                if a == caller {
                    if p < list_of(v0.user_purchased, caller).len() {
                        assert(list_of(w.user_purchased, a)[p] == list_of(
                            v0.user_purchased,
                            a,
                        )[p]);
                    } else {
                        assert(list_of(w.user_purchased, a)[p] == sample_id);
                    }
                } else {
                    assert(list_of(w.user_purchased, a) == list_of(v0.user_purchased, a));
                }
            }
            assert(balances_consistent(w.user_earnings, w.user_total_earned)) by {
                assert forall|c: u64| #[trigger]
                    bal_of(w.user_earnings, c) <= bal_of(w.user_total_earned, c) by {
                    if c != seller {
                        assert(bal_of(w.user_earnings, c) == bal_of(v0.user_earnings, c));
                        assert(bal_of(w.user_total_earned, c) == bal_of(v0.user_total_earned, c));
                    }
                }
            }
        }
        Ok(platform_fee)
    }

    /// Updates a sample's price. Only its seller may do so, and the new price
    /// must be nonzero.
    pub fn update_price(&mut self, caller: u64, sample_id: u64, new_price: U512) -> (r: Result<
        (),
        Error,
    >)
        requires
            old(self).wf(),
            old(self)@.inv(),
        ensures
            final(self).wf(),
            final(self)@.inv(),
            u512_value(new_price) == 0 ==> r == Err::<(), Error>(Error::InvalidPrice) && *final(self) == *old(self),
            u512_value(new_price) != 0 && !old(self)@.valid_id(sample_id) ==> r == Err::<
                (),
                Error,
            >(Error::SampleNotFound) && *final(self) == *old(self),
            u512_value(new_price) != 0 && old(self)@.valid_id(sample_id) && old(self)@.sample(
                sample_id,
            ).seller != caller ==> r == Err::<(), Error>(Error::NotSeller) && *final(self) == *old(self),
            u512_value(new_price) != 0 && old(self)@.valid_id(sample_id) && old(self)@.sample(
                sample_id,
            ).seller == caller ==> r == Ok::<(), Error>(()) && final(self)@ == (MarketView {
                samples: old(self)@.samples.update(
                    sample_id - 1,
                    SampleView { price: u512_value(new_price), ..old(self)@.sample(sample_id) },
                ),
                ..old(self)@
            }),
    {
        let z = amount_zero();
        if amount_eq(new_price, z) {
            return Err(Error::InvalidPrice);
        }
        let n = self.samples.len();
        if !(sample_id >= 1 && sample_id <= n as u64) {
            return Err(Error::SampleNotFound);
        }
        let idx = (sample_id as usize) - 1;
        if self.samples[idx].seller != caller {
            return Err(Error::NotSeller);
        }
        self.samples[idx].price = new_price;
        proof {
            let w = MarketView {
                samples: old(self)@.samples.update(
                    sample_id - 1,
                    SampleView { price: u512_value(new_price), ..old(self)@.sample(sample_id) },
                ),
                ..old(self)@
            };
            assert(self.samples@.map_values(|s: Sample| s@) =~~= w.samples);
            assert(self@ =~~= w);
            assert forall|a: u64, p: int|
                0 <= p < list_of(w.user_uploaded, a).len() implies {
                &&& 1 <= (#[trigger] list_of(w.user_uploaded, a)[p]) <= w.samples.len()
                &&& w.samples[list_of(w.user_uploaded, a)[p] - 1].seller == a
            } by {
                let e = list_of(old(self)@.user_uploaded, a)[p];
                assert(old(self)@.samples[e - 1].seller == a);
                assert(w.samples[e - 1].seller == old(self)@.samples[e - 1].seller);
            }
        }
        Ok(())
    }

    /// Deactivates a sample, removing it from further purchase. Only its
    /// seller may do so.
    pub fn deactivate_sample(&mut self, caller: u64, sample_id: u64) -> (r: Result<(), Error>)
        requires
            old(self).wf(),
            old(self)@.inv(),
        ensures
            final(self).wf(),
            final(self)@.inv(),
            !old(self)@.valid_id(sample_id) ==> r == Err::<(), Error>(Error::SampleNotFound)
                && *final(self) == *old(self),
            old(self)@.valid_id(sample_id) && old(self)@.sample(sample_id).seller != caller ==> r
                == Err::<(), Error>(Error::NotSeller) && *final(self) == *old(self),
            old(self)@.valid_id(sample_id) && old(self)@.sample(sample_id).seller == caller ==> r
                == Ok::<(), Error>(()) && final(self)@ == (MarketView {
                samples: old(self)@.samples.update(
                    sample_id - 1,
                    SampleView { is_active: false, ..old(self)@.sample(sample_id) },
                ),
                ..old(self)@
            }),
    {
        let n = self.samples.len();
        if !(sample_id >= 1 && sample_id <= n as u64) {
            return Err(Error::SampleNotFound);
        }
        let idx = (sample_id as usize) - 1;
        if self.samples[idx].seller != caller {
            return Err(Error::NotSeller);
        }
        self.samples[idx].is_active = false;
        proof {
            let w = MarketView {
                samples: old(self)@.samples.update(
                    sample_id - 1,
                    SampleView { is_active: false, ..old(self)@.sample(sample_id) },
                ),
                ..old(self)@
            };
            assert(self.samples@.map_values(|s: Sample| s@) =~~= w.samples);
            assert(self@ =~~= w);
            assert forall|a: u64, p: int|
                0 <= p < list_of(w.user_uploaded, a).len() implies {
                &&& 1 <= (#[trigger] list_of(w.user_uploaded, a)[p]) <= w.samples.len()
                &&& w.samples[list_of(w.user_uploaded, a)[p] - 1].seller == a
            } by {
                let e = list_of(old(self)@.user_uploaded, a)[p];
                assert(old(self)@.samples[e - 1].seller == a);
                assert(w.samples[e - 1].seller == old(self)@.samples[e - 1].seller);
            }
        }
        Ok(())
    }

    /// Withdraws the caller's whole withdrawable earnings. The balance is
    /// zeroed before any value moves outward; the returned amount is what the
    /// runtime owes the caller.
    pub fn withdraw_earnings(&mut self, caller: u64) -> (r: Result<U512, Error>)
        requires
            old(self).wf(),
            old(self)@.inv(),
        ensures
            final(self).wf(),
            final(self)@.inv(),
            old(self)@.earnings_of(caller) == 0 ==> r == Err::<U512, Error>(Error::NoEarnings)
                && *final(self) == *old(self),
            old(self)@.earnings_of(caller) != 0 ==> {
                &&& r is Ok
                &&& u512_value(r->Ok_0) == old(self)@.earnings_of(caller)
                &&& final(self)@ == (MarketView {
                    user_earnings: old(self)@.user_earnings.insert(caller, 0),
                    ..old(self)@
                })
            },
    {
        let z = amount_zero();
        let earnings = self.user_earnings.get_or(caller, z);
        if amount_eq(earnings, z) {
            return Err(Error::NoEarnings);
        }
        self.user_earnings.set(caller, z);
        proof {
            let w = MarketView {
                user_earnings: old(self)@.user_earnings.insert(caller, 0),
                ..old(self)@
            };
            assert(self@.user_earnings =~= w.user_earnings);
            assert(self@ =~~= w);
            assert(balances_consistent(w.user_earnings, w.user_total_earned)) by {
                assert forall|c: u64| #[trigger]
                    bal_of(w.user_earnings, c) <= bal_of(w.user_total_earned, c) by {
                    if c != caller {
                        assert(bal_of(w.user_earnings, c) == bal_of(old(self)@.user_earnings, c));
                    }
                }
            }
        }
        Ok(earnings)
    }

    /// The sample with the given id, if it exists.
    pub fn get_sample(&self, sample_id: u64) -> (r: Option<Sample>)
        ensures
            match r {
                Some(s) => self@.valid_id(sample_id) && s@ == self@.sample(sample_id),
                None => !self@.valid_id(sample_id),
            },
    {
        let n = self.samples.len();
        if sample_id >= 1 && sample_id <= n as u64 {
            Some(self.samples[(sample_id as usize) - 1].clone())
        } else {
            None
        }
    }

    /// Aggregate statistics for one user.
    pub fn get_user_stats(&self, user: u64) -> (r: UserStats)
        requires
            self.wf(),
            self@.inv(),
        ensures
            r.uploaded_count == list_of(self@.user_uploaded, user).len(),
            r.purchased_count == list_of(self@.user_purchased, user).len(),
            u512_value(r.earnings) == self@.earnings_of(user),
            u512_value(r.total_earned) == self@.total_earned_of(user),
            u512_value(r.total_spent) == self@.total_spent_of(user),
    {
        let z = amount_zero();
        UserStats {
            uploaded_count: self.user_uploaded.len_of(user) as u64,
            purchased_count: self.user_purchased.len_of(user) as u64,
            earnings: self.user_earnings.get_or(user, z),
            total_earned: self.user_total_earned.get_or(user, z),
            total_spent: self.user_total_spent.get_or(user, z),
        }
    }

    /// Marketplace-wide aggregate statistics.
    pub fn get_marketplace_stats(&self) -> (r: MarketplaceStats)
        requires
            self@.inv(),
        ensures
            r.sample_count == self@.samples.len(),
            u512_value(r.total_volume) == self@.total_volume,
            u512_value(r.platform_fee_collected) == self@.platform_fee_collected,
    {
        MarketplaceStats {
            sample_count: self.samples.len() as u64,
            total_volume: self.total_volume,
            platform_fee_collected: self.platform_fee_collected,
        }
    }

    /// Whether `buyer` has purchased the sample.
    pub fn has_purchased(&self, buyer: u64, sample_id: u64) -> (r: bool)
        requires
            self.wf(),
        ensures
            r == self@.purchased(buyer, sample_id),
    {
        self.purchase_records.contains(buyer, sample_id)
    }

    /// The ids of the samples `user` uploaded, in upload order.
    pub fn get_user_samples(&self, user: u64) -> (r: Vec<u64>)
        requires
            self.wf(),
        ensures
            r@ == list_of(self@.user_uploaded, user),
    {
        self.collect_list(&self.user_uploaded, user)
    }

    /// The ids of the samples `user` purchased, in purchase order.
    pub fn get_user_purchases(&self, user: u64) -> (r: Vec<u64>)
        requires
            self.wf(),
        ensures
            r@ == list_of(self@.user_purchased, user),
    {
        self.collect_list(&self.user_purchased, user)
    }

    /// Copies one index list out of a store.
    fn collect_list(&self, index: &IndexMap, user: u64) -> (r: Vec<u64>)
        requires
            index.wf(),
        ensures
            r@ == list_of(index@, user),
    {
        let count = index.len_of(user);
        let mut result: Vec<u64> = Vec::new();
        let mut i: usize = 0;
        while i < count
            invariant
                index.wf(),
                count == list_of(index@, user).len(),
                0 <= i <= count,
                result@ == list_of(index@, user).take(i as int),
            decreases count - i,
        {
            let id = index.at(user, i);
            result.push(id);
            proof {
                assert(result@ =~= list_of(index@, user).take(i as int + 1));
            }
            i += 1;
        }
        proof {
            assert(list_of(index@, user).take(count as int) =~= list_of(index@, user));
        }
        result
    }

    /// The user's withdrawable earnings.
    pub fn get_earnings(&self, user: u64) -> (r: U512)
        requires
            self.wf(),
        ensures
            u512_value(r) == self@.earnings_of(user),
    {
        let z = amount_zero();
        self.user_earnings.get_or(user, z)
    }

    /// All currently active samples, in listing order.
    pub fn get_all_samples(&self) -> (r: Vec<Sample>)
        requires
            self@.inv(),
        ensures
            r@.map_values(|s: Sample| s@) == active_samples(self@.samples),
    {
        let n = self.samples.len();
        let mut result: Vec<Sample> = Vec::new();
        let mut i: usize = 0;
        while i < n
            invariant
                n == self.samples@.len(),
                0 <= i <= n,
                result@.map_values(|s: Sample| s@) == active_samples(
                    self@.samples.take(i as int),
                ),
                self@.samples == self.samples@.map_values(|s: Sample| s@),
            decreases n - i,
        {
            proof {
                let all = self@.samples;
                assert(all.take(i as int + 1).drop_last() =~= all.take(i as int));
                assert(all.take(i as int + 1).last() == all[i as int]);
            }
            if self.samples[i].is_active {
                result.push(self.samples[i].clone());
                proof {
                    assert(result@.map_values(|s: Sample| s@) =~= active_samples(
                        self@.samples.take(i as int + 1),
                    ));
                }
            }
            i += 1;
        }
        proof {
            assert(self@.samples.take(n as int) =~= self@.samples);
        }
        result
    }

    /// Full sample records for the samples `user` uploaded.
    pub fn get_user_samples_full(&self, user: u64) -> (r: Vec<Sample>)
        requires
            self.wf(),
            self@.inv(),
        ensures
            r@.map_values(|s: Sample| s@) == samples_at(
                self@.samples,
                list_of(self@.user_uploaded, user),
            ),
    {
        let ids = self.get_user_samples(user);
        self.collect_samples(&ids)
    }

    /// Full sample records for the samples `user` purchased.
    pub fn get_user_purchases_full(&self, user: u64) -> (r: Vec<Sample>)
        requires
            self.wf(),
            self@.inv(),
        ensures
            r@.map_values(|s: Sample| s@) == samples_at(
                self@.samples,
                list_of(self@.user_purchased, user),
            ),
    {
        let ids = self.get_user_purchases(user);
        self.collect_samples(&ids)
    }

    /// Looks up each id in order, skipping ids that name nothing.
    fn collect_samples(&self, ids: &Vec<u64>) -> (r: Vec<Sample>)
        ensures
            r@.map_values(|s: Sample| s@) == samples_at(self@.samples, ids@),
    {
        let n = ids.len();
        let mut result: Vec<Sample> = Vec::new();
        let mut i: usize = 0;
        while i < n
            invariant
                n == ids@.len(),
                0 <= i <= n,
                result@.map_values(|s: Sample| s@) == samples_at(
                    self@.samples,
                    ids@.take(i as int),
                ),
                self@.samples == self.samples@.map_values(|s: Sample| s@),
            decreases n - i,
        {
            proof {
                assert(ids@.take(i as int + 1).drop_last() =~= ids@.take(i as int));
                assert(ids@.take(i as int + 1).last() == ids@[i as int]);
            }
            let id = ids[i];
            let m = self.samples.len();
            if id >= 1 && id <= m as u64 {
                result.push(self.samples[(id as usize) - 1].clone());
                proof {
                    assert(result@.map_values(|s: Sample| s@) =~= samples_at(
                        self@.samples,
                        ids@.take(i as int + 1),
                    ));
                }
            }
            i += 1;
        }
        proof {
            assert(ids@.take(n as int) =~= ids@);
        }
        result
    }

    /// The admin account.
    pub fn get_admin(&self) -> (r: Option<u64>)
        ensures
            r == Some(self@.admin),
    {
        Some(self.admin)
    }
}

} // verus!
