//! An on-ledger marketplace core for digital audio samples: an ownership and
//! royalty ledger that mints, indexes, transfers and retires usage-license
//! records, enforces per-sample exclusivity, prevents duplicate license
//! issuance, and splits resale payments among seller, original creator and
//! platform.
//!
//! Monetary amounts are 512-bit unsigned integers (`casper_types::U512`).
//! The surrounding contract runtime (persistent storage, the calling account,
//! attached payment, outward token transfers) is modelled explicitly: state
//! lives in the ledger structs, the caller and the attached value are
//! parameters, and outward transfers are returned as receipts.


pub mod amount;
pub mod catalog_types;
pub mod errors;
pub mod guard_map;
pub mod index_map;
pub mod kvmap;
pub mod laws;
pub mod ledger;
pub mod license;
pub mod marketplace;
pub mod record_map;
