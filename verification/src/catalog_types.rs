//! Data types of the sample catalog.
//!
//! Text metadata (titles, IPFS links, genres) is carried as raw bytes: the
//! catalog only checks lengths and stores the payload, and byte vectors give
//! those checks an exact meaning.

use vstd::prelude::*;
use casper_types::U512;
use crate::amount::u512_value;

verus! {

/// Maximum byte length of a sample title.
pub const MAX_TITLE_LENGTH: usize = 100;

/// Maximum byte length of an IPFS link.
pub const MAX_IPFS_LINK_LENGTH: usize = 256;

/// Maximum byte length of a cover image URL.
pub const MAX_COVER_IMAGE_LENGTH: usize = 256;

/// Maximum byte length of a genre string.
pub const MAX_GENRE_LENGTH: usize = 30;

/// Maximum byte length of a video preview link.
pub const MAX_VIDEO_PREVIEW_LENGTH: usize = 256;

/// Platform fee on outright purchases: numerator.
pub const PLATFORM_FEE_NUMERATOR: u64 = 10;

/// Platform fee on outright purchases: denominator.
pub const PLATFORM_FEE_DENOMINATOR: u64 = 100;

/// Copies a byte string.
pub fn copy_bytes(v: &Vec<u8>) -> (r: Vec<u8>)
    ensures
        r@ == v@,
{
    let mut r: Vec<u8> = Vec::new();
    let n = v.len();
    let mut i: usize = 0;
    while i < n
        invariant
            n == v@.len(),
            0 <= i <= n,
            r@ == v@.take(i as int),
        decreases n - i,
    {
        r.push(v[i]);
        proof {
            assert(r@ =~= v@.take(i as int + 1));
        }
        i += 1;
    }
    proof {
        assert(v@.take(n as int) =~= v@);
    }
    r
}

/// A music sample listed on the marketplace.
pub struct Sample {
    /// Unique identifier; ids start at 1.
    pub sample_id: u64,
    /// The account that uploaded this sample.
    pub seller: u64,
    /// Price in motes.
    pub price: U512,
    /// IPFS link to the audio file.
    pub ipfs_link: Vec<u8>,
    /// Title of the sample.
    pub title: Vec<u8>,
    /// Beats per minute.
    pub bpm: u64,
    /// Music genre.
    pub genre: Vec<u8>,
    /// IPFS link to the cover image.
    pub cover_image: Vec<u8>,
    /// Optional IPFS link to a video preview.
    pub video_preview_link: Vec<u8>,
    /// How many times this sample has been sold.
    pub total_sales: u64,
    /// Whether this sample can be purchased.
    pub is_active: bool,
    /// When the sample was created.
    pub created_at: u64,
}

/// The mathematical content of a sample record.
#[verifier::ext_equal]
pub ghost struct SampleView {
    pub sample_id: u64,
    pub seller: u64,
    pub price: nat,
    pub ipfs_link: Seq<u8>,
    pub title: Seq<u8>,
    pub bpm: u64,
    pub genre: Seq<u8>,
    pub cover_image: Seq<u8>,
    pub video_preview_link: Seq<u8>,
    pub total_sales: u64,
    pub is_active: bool,
    pub created_at: u64,
}

impl View for Sample {
    type V = SampleView;

    open spec fn view(&self) -> SampleView {
        SampleView {
            sample_id: self.sample_id,
            seller: self.seller,
            price: u512_value(self.price),
            ipfs_link: self.ipfs_link@,
            title: self.title@,
            bpm: self.bpm,
            genre: self.genre@,
            cover_image: self.cover_image@,
            video_preview_link: self.video_preview_link@,
            total_sales: self.total_sales,
            is_active: self.is_active,
            created_at: self.created_at,
        }
    }
}

impl Clone for Sample {
    fn clone(&self) -> (r: Self)
        ensures
            r@ == self@,
    {
        Sample {
            sample_id: self.sample_id,
            seller: self.seller,
            price: self.price,
            ipfs_link: copy_bytes(&self.ipfs_link),
            title: copy_bytes(&self.title),
            bpm: self.bpm,
            genre: copy_bytes(&self.genre),
            cover_image: copy_bytes(&self.cover_image),
            video_preview_link: copy_bytes(&self.video_preview_link),
            total_sales: self.total_sales,
            is_active: self.is_active,
            created_at: self.created_at,
        }
    }
}

/// Record of an outright sample purchase by a user.
pub struct PurchaseRecord {
    /// The purchased sample.
    pub sample_id: u64,
    /// The seller at the time of purchase.
    pub seller: u64,
    /// The price paid.
    pub price: U512,
    /// When the purchase happened.
    pub timestamp: u64,
    /// IPFS link to the purchased content.
    pub ipfs_link: Vec<u8>,
}

/// The mathematical content of a purchase record.
#[verifier::ext_equal]
pub ghost struct PurchaseRecordView {
    pub sample_id: u64,
    pub seller: u64,
    pub price: nat,
    pub timestamp: u64,
    pub ipfs_link: Seq<u8>,
}

impl View for PurchaseRecord {
    type V = PurchaseRecordView;

    open spec fn view(&self) -> PurchaseRecordView {
        PurchaseRecordView {
            sample_id: self.sample_id,
            seller: self.seller,
            price: u512_value(self.price),
            timestamp: self.timestamp,
            ipfs_link: self.ipfs_link@,
        }
    }
}

/// Per-user aggregate statistics.
#[derive(Clone, Copy)]
pub struct UserStats {
    /// Number of samples uploaded.
    pub uploaded_count: u64,
    /// Number of samples purchased.
    pub purchased_count: u64,
    /// Withdrawable earnings.
    pub earnings: U512,
    /// Lifetime earnings.
    pub total_earned: U512,
    /// Lifetime spending.
    pub total_spent: U512,
}

/// Marketplace-wide aggregate statistics.
#[derive(Clone, Copy)]
pub struct MarketplaceStats {
    /// Total number of samples ever listed.
    pub sample_count: u64,
    /// Total trading volume in motes.
    pub total_volume: U512,
    /// Total platform fees collected.
    pub platform_fee_collected: U512,
}

/// Initialization arguments for the marketplace.
#[derive(Clone, Copy)]
pub struct SampledMarketplaceInitArgs {
    /// The admin account; receives platform fees.
    pub admin: u64,
}

} // verus!
