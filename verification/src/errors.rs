//! The closed set of errors the two components surface.
//!
//! Every error aborts the whole call with zero state mutation; there is no
//! partial-success outcome.

use vstd::prelude::*;

verus! {

/// Errors of the license ledger and the sample catalog.
#[derive(Clone, Copy, Debug, PartialEq, Eq, Structural)]
pub enum Error {
    /// Sample with the given id was not found.
    SampleNotFound,
    /// Attached payment does not cover the sample price.
    InsufficientPayment,
    /// Caller is not the seller of this sample.
    NotSeller,
    /// Sample is not active (deactivated).
    SampleInactive,
    /// Invalid price (must be greater than zero).
    InvalidPrice,
    /// User has already purchased this sample.
    AlreadyPurchased,
    /// No earnings available to withdraw.
    NoEarnings,
    /// Title exceeds the maximum length.
    TitleTooLong,
    /// IPFS link exceeds the maximum length.
    IpfsLinkTooLong,
    /// Genre exceeds the maximum length.
    GenreTooLong,
    /// Cover image URL exceeds the maximum length.
    CoverImageTooLong,
    /// Video preview link exceeds the maximum length.
    VideoPreviewTooLong,
    /// Caller is not authorized for this operation.
    Unauthorized,
    /// No marketplace account has been registered with the ledger.
    LicenseContractNotSet,
    /// The license type value does not decode to a known variant.
    InvalidLicenseType,
    /// The sample already carries an active exclusive license.
    SampleExclusivelyLicensed,
    /// The buyer already holds an active license of this type for this sample.
    AlreadyHasLicenseType,
    /// License with the given id was not found.
    LicenseNotFound,
    /// Caller is not the current owner of the license.
    NotLicenseOwner,
    /// The license is not active.
    LicenseInactive,
    /// Exclusive licenses cannot be transferred.
    CannotTransferExclusiveLicense,
    /// Attached payment does not cover sale price plus royalty and fee.
    InsufficientRoyaltyPayment,
    /// The caller has no royalties to withdraw.
    NoRoyaltiesToWithdraw,
}

impl Error {
    /// A human-readable message for the error, as the platform would surface it.
    pub fn message(&self) -> (r: &'static str)
    {
        match self {
            Error::SampleNotFound => "Sample not found",
            Error::InsufficientPayment => "Insufficient payment",
            Error::NotSeller => "Not the seller",
            Error::SampleInactive => "Sample is inactive",
            Error::InvalidPrice => "Invalid price",
            Error::AlreadyPurchased => "Already purchased",
            Error::NoEarnings => "No earnings to withdraw",
            Error::TitleTooLong => "Title too long",
            Error::IpfsLinkTooLong => "IPFS link too long",
            Error::GenreTooLong => "Genre too long",
            Error::CoverImageTooLong => "Cover image URL too long",
            Error::VideoPreviewTooLong => "Video preview link too long",
            Error::Unauthorized => "Unauthorized",
            Error::LicenseContractNotSet => "Marketplace not registered",
            Error::InvalidLicenseType => "Invalid license type",
            Error::SampleExclusivelyLicensed => "Sample exclusively licensed",
            Error::AlreadyHasLicenseType => "Already holds this license type",
            Error::LicenseNotFound => "License not found",
            Error::NotLicenseOwner => "Not the license owner",
            Error::LicenseInactive => "License is inactive",
            Error::CannotTransferExclusiveLicense => "Exclusive licenses cannot be transferred",
            Error::InsufficientRoyaltyPayment => "Insufficient royalty payment",
            Error::NoRoyaltiesToWithdraw => "No royalties to withdraw",
        }
    }
}

} // verus!
