//! License records and their associated value types.

use vstd::prelude::*;
use casper_types::U512;
use crate::amount::u512_value;
use crate::amount::u512_limit;
use crate::amount::amount_mul_u64;
use crate::amount::amount_div_u64;

verus! {

/// Royalty percentage for the original creator on resales.
pub const CREATOR_ROYALTY_PERCENT: u64 = 10;

/// Platform fee percentage on resales.
pub const RESALE_PLATFORM_FEE_PERCENT: u64 = 2;

/// Default personal license multiplier (1x).
pub const DEFAULT_PERSONAL_MULT: u64 = 100;

/// Default commercial license multiplier (2.5x).
pub const DEFAULT_COMMERCIAL_MULT: u64 = 250;

/// Default broadcast license multiplier (5x).
pub const DEFAULT_BROADCAST_MULT: u64 = 500;

/// Default exclusive license multiplier (20x).
pub const DEFAULT_EXCLUSIVE_MULT: u64 = 2000;

/// Multiplier denominator for price calculation.
pub const MULTIPLIER_DENOMINATOR: u64 = 100;

/// License types representing different usage rights.
#[derive(Clone, Copy, Debug, PartialEq, Eq, Structural)]
pub enum LicenseType {
    /// Personal use only: demos, personal projects, non-commercial.
    Personal,
    /// Commercial use: releases, keep the royalties.
    Commercial,
    /// Broadcast use: TV, radio, streaming platforms, advertisements.
    Broadcast,
    /// Exclusive rights: the sample leaves the marketplace after purchase.
    Exclusive,
}

/// The license type a wire value decodes to, if any.
pub open spec fn type_of_code(value: u8) -> Option<LicenseType> {
    if value == 0 {
        Some(LicenseType::Personal)
    } else if value == 1 {
        Some(LicenseType::Commercial)
    } else if value == 2 {
        Some(LicenseType::Broadcast)
    } else if value == 3 {
        Some(LicenseType::Exclusive)
    } else {
        None
    }
}

impl LicenseType {
    /// The wire value of this license type.
    pub open spec fn code(self) -> u8 {
        match self {
            LicenseType::Personal => 0,
            LicenseType::Commercial => 1,
            LicenseType::Broadcast => 2,
            LicenseType::Exclusive => 3,
        }
    }

    /// Decode a wire value into a license type.
    pub fn from_u8(value: u8) -> (r: Option<Self>)
        ensures
            r == type_of_code(value),
    {
        match value {
            0 => Some(LicenseType::Personal),
            1 => Some(LicenseType::Commercial),
            2 => Some(LicenseType::Broadcast),
            3 => Some(LicenseType::Exclusive),
            _ => None,
        }
    }

    /// Encode this license type as its wire value.
    pub fn to_u8(&self) -> (r: u8)
        ensures
            r == self.code(),
    {
        match self {
            LicenseType::Personal => 0,
            LicenseType::Commercial => 1,
            LicenseType::Broadcast => 2,
            LicenseType::Exclusive => 3,
        }
    }
}

/// Metadata for one license record.
#[derive(Clone, Copy)]
pub struct LicenseMetadata {
    /// Unique identifier of this license; ids start at 1 and are never reused.
    pub license_id: u64,
    /// The sample this license is for.
    pub sample_id: u64,
    /// The usage rights this license grants.
    pub license_type: LicenseType,
    /// The original sample creator; receives royalties on every resale.
    pub original_creator: u64,
    /// The account that currently owns this license.
    pub current_owner: u64,
    /// The price paid when this license was first purchased.
    pub purchase_price: U512,
    /// When the license was purchased.
    pub purchase_timestamp: u64,
    /// Whether this license is active; reserved for future revocation.
    pub is_active: bool,
    /// How many times this license has been transferred.
    pub transfer_count: u64,
}

/// The mathematical content of a license record: its price as a number.
#[verifier::ext_equal]
pub ghost struct LicenseView {
    pub license_id: u64,
    pub sample_id: u64,
    pub license_type: LicenseType,
    pub original_creator: u64,
    pub current_owner: u64,
    pub purchase_price: nat,
    pub purchase_timestamp: u64,
    pub is_active: bool,
    pub transfer_count: u64,
}

impl View for LicenseMetadata {
    type V = LicenseView;

    open spec fn view(&self) -> LicenseView {
        LicenseView {
            license_id: self.license_id,
            sample_id: self.sample_id,
            license_type: self.license_type,
            original_creator: self.original_creator,
            current_owner: self.current_owner,
            purchase_price: u512_value(self.purchase_price),
            purchase_timestamp: self.purchase_timestamp,
            is_active: self.is_active,
            transfer_count: self.transfer_count,
        }
    }
}

/// Record of one royalty-splitting transfer: who paid whom what. The receipt
/// carries the two outward payments (sale price to the seller, platform fee to
/// the admin account) that the surrounding runtime performs.
#[derive(Clone, Copy, Debug)]
pub struct RoyaltyPayment {
    /// The license that was transferred.
    pub license_id: u64,
    /// The seller (previous owner).
    pub from: u64,
    /// The buyer (new owner).
    pub to: u64,
    /// Sale price of the transfer, owed to the seller.
    pub sale_price: U512,
    /// Royalty credited to the original creator.
    pub creator_royalty: U512,
    /// Platform fee, owed to the admin account.
    pub platform_fee: U512,
    /// The original creator who received the royalty.
    pub creator: u64,
    /// When the transfer happened.
    pub timestamp: u64,
}

/// Summary of the licenses issued for one sample.
#[derive(Clone, Copy, Debug, PartialEq, Eq)]
pub struct SampleLicenseInfo {
    /// Total number of licenses ever issued for this sample.
    pub total_licenses: u64,
    /// Number of personal licenses issued.
    pub personal_count: u64,
    /// Number of commercial licenses issued.
    pub commercial_count: u64,
    /// Number of broadcast licenses issued.
    pub broadcast_count: u64,
    /// Whether an exclusive license has been issued.
    pub has_exclusive: bool,
    /// The exclusive license holder, if any.
    pub exclusive_holder: Option<u64>,
}

/// Pricing multipliers for each license type, in percent of the base price.
#[derive(Clone, Copy, Debug, PartialEq, Eq, Structural)]
pub struct LicensePricing {
    /// Multiplier for a personal license.
    pub personal_multiplier: u64,
    /// Multiplier for a commercial license.
    pub commercial_multiplier: u64,
    /// Multiplier for a broadcast license.
    pub broadcast_multiplier: u64,
    /// Multiplier for an exclusive license.
    pub exclusive_multiplier: u64,
}

impl LicensePricing {
    /// The default multipliers: 1x, 2.5x, 5x and 20x the base price.
    pub fn default_pricing() -> (r: Self)
        ensures
            r.personal_multiplier == DEFAULT_PERSONAL_MULT,
            r.commercial_multiplier == DEFAULT_COMMERCIAL_MULT,
            r.broadcast_multiplier == DEFAULT_BROADCAST_MULT,
            r.exclusive_multiplier == DEFAULT_EXCLUSIVE_MULT,
    {
        Self {
            personal_multiplier: DEFAULT_PERSONAL_MULT,
            commercial_multiplier: DEFAULT_COMMERCIAL_MULT,
            broadcast_multiplier: DEFAULT_BROADCAST_MULT,
            exclusive_multiplier: DEFAULT_EXCLUSIVE_MULT,
        }
    }

    /// The multiplier this pricing assigns to a license type.
    pub open spec fn multiplier_of(self, license_type: LicenseType) -> u64 {
        match license_type {
            LicenseType::Personal => self.personal_multiplier,
            LicenseType::Commercial => self.commercial_multiplier,
            LicenseType::Broadcast => self.broadcast_multiplier,
            LicenseType::Exclusive => self.exclusive_multiplier,
        }
    }

    /// The multiplier for a specific license type.
    pub fn get_multiplier(&self, license_type: &LicenseType) -> (r: u64)
        ensures
            r == self.multiplier_of(*license_type),
    {
        match license_type {
            LicenseType::Personal => self.personal_multiplier,
            LicenseType::Commercial => self.commercial_multiplier,
            LicenseType::Broadcast => self.broadcast_multiplier,
            LicenseType::Exclusive => self.exclusive_multiplier,
        }
    }

    /// The price of a license of the given type: the base price scaled by the
    /// type's multiplier, in truncating integer arithmetic.
    pub fn calculate_price(&self, base_price: U512, license_type: &LicenseType) -> (r: U512)
        requires
            u512_value(base_price) * self.multiplier_of(*license_type) < u512_limit(),
        ensures
            u512_value(r) == (u512_value(base_price) * (self.multiplier_of(*license_type) as nat))
                / (MULTIPLIER_DENOMINATOR as nat),
    {
        let multiplier = self.get_multiplier(license_type);
        amount_div_u64(amount_mul_u64(base_price, multiplier), MULTIPLIER_DENOMINATOR)
    }
}

/// All four license prices for one sample.
#[derive(Clone, Copy)]
pub struct AllLicensePrices {
    /// Personal license price.
    pub personal: U512,
    /// Commercial license price.
    pub commercial: U512,
    /// Broadcast license price.
    pub broadcast: U512,
    /// Exclusive license price.
    pub exclusive: U512,
}

} // verus!
