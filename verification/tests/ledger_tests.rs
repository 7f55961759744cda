use casper_types::U512;
use license_ledger::errors::Error;
use license_ledger::ledger::LicenseNft;
use license_ledger::license::LicensePricing;
use license_ledger::license::LicenseType;

const ADMIN: u64 = 0;
const MARKET: u64 = 10;

fn setup() -> LicenseNft {
    let mut ledger = LicenseNft::init(ADMIN);
    ledger.set_marketplace(ADMIN, MARKET).expect("admin may register");
    ledger
}

#[test]
fn mint_assigns_dense_ids() {
    let mut ledger = setup();
    let id1 = ledger
        .mint_license(MARKET, 1, 0, 42, 7, U512::from(1000u64), 5)
        .expect("mint should succeed");
    let id2 = ledger
        .mint_license(MARKET, 2, 0, 42, 7, U512::from(2000u64), 6)
        .expect("mint should succeed");
    assert_eq!(id1, 1);
    assert_eq!(id2, 2);
    assert_eq!(ledger.get_license_count(), 2);

    let license = ledger.get_license(1).expect("license should exist");
    assert_eq!(license.sample_id, 1);
    assert_eq!(license.current_owner, 42);
    assert_eq!(license.original_creator, 7);
    assert_eq!(license.purchase_price, U512::from(1000u64));
    assert_eq!(license.purchase_timestamp, 5);
    assert_eq!(license.transfer_count, 0);
    assert!(license.is_active);
    assert_eq!(ledger.get_owner(1), Some(42));
    assert_eq!(ledger.get_owner(3), None);
}

#[test]
fn duplicate_personal_mint_fails_commercial_succeeds() {
    let mut ledger = setup();
    let buyer_x: u64 = 42;
    let id1 = ledger
        .mint_license(MARKET, 7, 0, buyer_x, 9, U512::from(1000u64), 0)
        .expect("first personal mint succeeds");

    let err = ledger
        .mint_license(MARKET, 7, 0, buyer_x, 9, U512::from(1000u64), 0)
        .unwrap_err();
    assert_eq!(err, Error::AlreadyHasLicenseType);

    // The failed attempt changed nothing observable.
    assert_eq!(ledger.get_license_count(), 1);
    assert_eq!(ledger.get_licenses_by_owner(buyer_x), vec![id1]);
    assert_eq!(ledger.get_licenses_by_sample(7), vec![id1]);

    let id2 = ledger
        .mint_license(MARKET, 7, 1, buyer_x, 9, U512::from(1000u64), 0)
        .expect("commercial mint succeeds");
    assert_ne!(id1, id2);
    assert_eq!(id2, 2);
}

#[test]
fn exclusive_mint_forecloses_sample() {
    let mut ledger = setup();
    let buyer_y: u64 = 55;
    ledger
        .mint_license(MARKET, 9, 3, buyer_y, 7, U512::from(20_000u64), 0)
        .expect("exclusive mint succeeds");

    let err = ledger
        .mint_license(MARKET, 9, 0, 77, 7, U512::from(1000u64), 0)
        .unwrap_err();
    assert_eq!(err, Error::SampleExclusivelyLicensed);

    assert!(ledger.is_exclusively_licensed(9));
    assert_eq!(ledger.get_exclusive_holder(9), Some(buyer_y));
    assert_eq!(ledger.get_exclusive_holder(8), None);
}

#[test]
fn transfer_splits_payment_exactly() {
    let mut ledger = setup();
    let a: u64 = 1;
    let b: u64 = 2;
    let creator: u64 = 7;
    let id = ledger
        .mint_license(MARKET, 3, 0, a, creator, U512::from(500u64), 0)
        .expect("mint succeeds");

    // Required attached value: 1000 + 100 (10%) + 20 (2%) = 1120.
    let err = ledger
        .transfer_license(a, id, b, U512::from(1000u64), U512::from(1119u64), 1)
        .unwrap_err();
    assert_eq!(err, Error::InsufficientRoyaltyPayment);
    assert_eq!(ledger.get_royalty_earnings(creator), U512::zero());

    let receipt = ledger
        .transfer_license(a, id, b, U512::from(1000u64), U512::from(1120u64), 1)
        .expect("transfer succeeds");
    assert_eq!(receipt.sale_price, U512::from(1000u64));
    assert_eq!(receipt.creator_royalty, U512::from(100u64));
    assert_eq!(receipt.platform_fee, U512::from(20u64));
    assert_eq!(receipt.from, a);
    assert_eq!(receipt.to, b);
    assert_eq!(receipt.creator, creator);

    assert_eq!(ledger.get_royalty_earnings(creator), U512::from(100u64));
    assert_eq!(ledger.get_total_royalties(creator), U512::from(100u64));
    assert_eq!(ledger.get_owner(id), Some(b));
}

#[test]
fn transfer_round_trip_restores_owner() {
    let mut ledger = setup();
    let a: u64 = 1;
    let b: u64 = 2;
    let id = ledger
        .mint_license(MARKET, 3, 1, a, 7, U512::from(500u64), 0)
        .expect("mint succeeds");

    ledger
        .transfer_license(a, id, b, U512::from(1000u64), U512::from(1120u64), 1)
        .expect("first leg succeeds");
    assert_eq!(ledger.get_licenses_by_owner(a), Vec::<u64>::new());
    assert_eq!(ledger.get_licenses_by_owner(b), vec![id]);

    ledger
        .transfer_license(b, id, a, U512::from(2000u64), U512::from(2240u64), 2)
        .expect("second leg succeeds");

    let license = ledger.get_license(id).expect("license exists");
    assert_eq!(license.current_owner, a);
    assert_eq!(license.transfer_count, 2);
    assert_eq!(ledger.get_licenses_by_owner(a), vec![id]);
    assert_eq!(ledger.get_licenses_by_owner(b), Vec::<u64>::new());
}

#[test]
fn transfer_errors() {
    let mut ledger = setup();
    let a: u64 = 1;
    assert_eq!(
        ledger
            .transfer_license(a, 99, 2, U512::from(10u64), U512::from(100u64), 0)
            .unwrap_err(),
        Error::LicenseNotFound
    );

    let id = ledger
        .mint_license(MARKET, 3, 0, a, 7, U512::from(500u64), 0)
        .expect("mint succeeds");
    assert_eq!(
        ledger
            .transfer_license(2, id, 3, U512::from(10u64), U512::from(100u64), 0)
            .unwrap_err(),
        Error::NotLicenseOwner
    );

    let ex = ledger
        .mint_license(MARKET, 4, 3, a, 7, U512::from(500u64), 0)
        .expect("exclusive mint succeeds");
    assert_eq!(
        ledger
            .transfer_license(a, ex, 2, U512::from(10u64), U512::from(100u64), 0)
            .unwrap_err(),
        Error::CannotTransferExclusiveLicense
    );
}

#[test]
fn mint_authorization_errors() {
    let mut ledger = LicenseNft::init(ADMIN);
    assert_eq!(
        ledger
            .mint_license(MARKET, 1, 0, 42, 7, U512::from(1u64), 0)
            .unwrap_err(),
        Error::LicenseContractNotSet
    );
    assert_eq!(ledger.set_marketplace(5, MARKET).unwrap_err(), Error::Unauthorized);
    ledger.set_marketplace(ADMIN, MARKET).expect("admin may register");
    assert_eq!(ledger.get_marketplace(), Some(MARKET));
    assert_eq!(ledger.get_admin(), Some(ADMIN));
    assert_eq!(
        ledger
            .mint_license(99, 1, 0, 42, 7, U512::from(1u64), 0)
            .unwrap_err(),
        Error::Unauthorized
    );
    assert_eq!(
        ledger
            .mint_license(MARKET, 1, 4, 42, 7, U512::from(1u64), 0)
            .unwrap_err(),
        Error::InvalidLicenseType
    );
}

#[test]
fn withdraw_royalties_zeroes_balance() {
    let mut ledger = setup();
    let creator: u64 = 7;
    assert_eq!(ledger.withdraw_royalties(creator).unwrap_err(), Error::NoRoyaltiesToWithdraw);

    let id = ledger
        .mint_license(MARKET, 3, 0, 1, creator, U512::from(500u64), 0)
        .expect("mint succeeds");
    ledger
        .transfer_license(1, id, 2, U512::from(1000u64), U512::from(1120u64), 1)
        .expect("transfer succeeds");

    let amount = ledger.withdraw_royalties(creator).expect("withdraw succeeds");
    assert_eq!(amount, U512::from(100u64));
    assert_eq!(ledger.get_royalty_earnings(creator), U512::zero());
    // The lifetime total is untouched by withdrawal.
    assert_eq!(ledger.get_total_royalties(creator), U512::from(100u64));
}

#[test]
fn duplicate_guard_tracks_ownership() {
    let mut ledger = setup();
    let a: u64 = 1;
    let b: u64 = 2;
    let id = ledger
        .mint_license(MARKET, 3, 2, a, 7, U512::from(500u64), 0)
        .expect("mint succeeds");
    assert!(ledger.has_license(a, 3, 2));
    assert!(!ledger.has_license(b, 3, 2));
    assert_eq!(ledger.get_user_license(a, 3, 2), Some(id));
    assert_eq!(ledger.get_user_license(b, 3, 2), None);

    ledger
        .transfer_license(a, id, b, U512::from(100u64), U512::from(112u64), 1)
        .expect("transfer succeeds");
    assert!(!ledger.has_license(a, 3, 2));
    assert!(ledger.has_license(b, 3, 2));
    assert_eq!(ledger.get_user_license(a, 3, 2), None);
    assert_eq!(ledger.get_user_license(b, 3, 2), Some(id));
}

#[test]
fn sample_license_info_aggregates_by_type() {
    let mut ledger = setup();
    ledger.mint_license(MARKET, 5, 0, 1, 7, U512::from(100u64), 0).expect("mint");
    ledger.mint_license(MARKET, 5, 0, 2, 7, U512::from(100u64), 0).expect("mint");
    ledger.mint_license(MARKET, 5, 1, 1, 7, U512::from(250u64), 0).expect("mint");
    ledger.mint_license(MARKET, 5, 2, 3, 7, U512::from(500u64), 0).expect("mint");
    ledger.mint_license(MARKET, 6, 3, 4, 7, U512::from(2000u64), 0).expect("mint");

    let info = ledger.get_sample_license_info(5);
    assert_eq!(info.total_licenses, 4);
    assert_eq!(info.personal_count, 2);
    assert_eq!(info.commercial_count, 1);
    assert_eq!(info.broadcast_count, 1);
    assert!(!info.has_exclusive);
    assert_eq!(info.exclusive_holder, None);

    let info6 = ledger.get_sample_license_info(6);
    assert_eq!(info6.total_licenses, 1);
    assert!(info6.has_exclusive);
    assert_eq!(info6.exclusive_holder, Some(4));

    assert_eq!(ledger.get_sample_license_count(5), 4);
    assert_eq!(ledger.get_licenses_by_sample(5), vec![1, 2, 3, 4]);
}

#[test]
fn license_type_codes_round_trip() {
    assert_eq!(LicenseType::from_u8(0), Some(LicenseType::Personal));
    assert_eq!(LicenseType::from_u8(1), Some(LicenseType::Commercial));
    assert_eq!(LicenseType::from_u8(2), Some(LicenseType::Broadcast));
    assert_eq!(LicenseType::from_u8(3), Some(LicenseType::Exclusive));
    assert_eq!(LicenseType::from_u8(4), None);
    assert_eq!(LicenseType::Personal.to_u8(), 0);
    assert_eq!(LicenseType::Commercial.to_u8(), 1);
    assert_eq!(LicenseType::Broadcast.to_u8(), 2);
    assert_eq!(LicenseType::Exclusive.to_u8(), 3);
}

#[test]
fn pricing_multipliers_scale_base_price() {
    let pricing = LicensePricing::default_pricing();
    assert_eq!(pricing.get_multiplier(&LicenseType::Personal), 100);
    assert_eq!(pricing.get_multiplier(&LicenseType::Commercial), 250);
    assert_eq!(pricing.get_multiplier(&LicenseType::Broadcast), 500);
    assert_eq!(pricing.get_multiplier(&LicenseType::Exclusive), 2000);
    assert_eq!(
        pricing.calculate_price(U512::from(1000u64), &LicenseType::Personal),
        U512::from(1000u64)
    );
    assert_eq!(
        pricing.calculate_price(U512::from(1000u64), &LicenseType::Commercial),
        U512::from(2500u64)
    );
    assert_eq!(
        pricing.calculate_price(U512::from(1000u64), &LicenseType::Exclusive),
        U512::from(20_000u64)
    );
}

#[test]
fn truncating_split_loses_at_most_two_units() {
    // At a price of 1049, the royalty truncates from 104.9 to 104 and the fee
    // from 20.98 to 20: together 124 against an exact 12% of 125.88.
    let mut ledger = setup();
    let id = ledger
        .mint_license(MARKET, 3, 0, 1, 7, U512::from(500u64), 0)
        .expect("mint succeeds");
    let receipt = ledger
        .transfer_license(1, id, 2, U512::from(1049u64), U512::from(1173u64), 1)
        .expect("transfer succeeds");
    assert_eq!(receipt.creator_royalty, U512::from(104u64));
    assert_eq!(receipt.platform_fee, U512::from(20u64));
}

#[test]
fn error_messages_are_stable() {
    assert_eq!(Error::Unauthorized.message(), "Unauthorized");
    assert_eq!(Error::LicenseNotFound.message(), "License not found");
    assert_eq!(Error::SampleExclusivelyLicensed.message(), "Sample exclusively licensed");
}
