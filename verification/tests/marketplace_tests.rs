use casper_types::U512;
use license_ledger::catalog_types::SampledMarketplaceInitArgs;
use license_ledger::errors::Error;
use license_ledger::marketplace::SampledMarketplace;

fn setup() -> SampledMarketplace {
    let admin: u64 = 0;
    SampledMarketplace::init(SampledMarketplaceInitArgs { admin })
}

fn upload_default(contract: &mut SampledMarketplace, seller: u64) {
    contract
        .upload_sample(
            seller,
            U512::from(1_000_000_000u64),
            b"ipfs://QmTest123".to_vec(),
            b"Test Beat".to_vec(),
            120,
            b"Hip Hop".to_vec(),
            b"ipfs://QmCover123".to_vec(),
            b"".to_vec(),
            1000,
        )
        .expect("upload should succeed");
}

#[test]
fn test_upload_sample() {
    let mut contract = setup();
    let seller: u64 = 1;

    upload_default(&mut contract, seller);

    let sample = contract.get_sample(1).expect("Sample should exist");
    assert_eq!(sample.title, b"Test Beat".to_vec());
    assert_eq!(sample.seller, seller);
    assert!(sample.is_active);
}

#[test]
fn test_purchase_sample() {
    let mut contract = setup();
    let seller: u64 = 1;
    let buyer: u64 = 2;

    upload_default(&mut contract, seller);

    contract
        .purchase_sample(buyer, 1, U512::from(1_000_000_000u64), 2000)
        .expect("purchase should succeed");

    assert!(contract.has_purchased(buyer, 1));

    let earnings = contract.get_earnings(seller);
    assert_eq!(earnings, U512::from(900_000_000u64));
}

#[test]
fn test_withdraw_earnings() {
    let mut contract = setup();
    let seller: u64 = 1;
    let buyer: u64 = 2;

    upload_default(&mut contract, seller);
    contract
        .purchase_sample(buyer, 1, U512::from(1_000_000_000u64), 2000)
        .expect("purchase should succeed");

    contract.withdraw_earnings(seller).expect("withdraw should succeed");

    let earnings = contract.get_earnings(seller);
    assert_eq!(earnings, U512::zero());
}

#[test]
fn test_deactivate_sample() {
    let mut contract = setup();
    let seller: u64 = 1;

    upload_default(&mut contract, seller);
    contract.deactivate_sample(seller, 1).expect("deactivate should succeed");

    let sample = contract.get_sample(1).expect("Sample should exist");
    assert!(!sample.is_active);
}

#[test]
fn test_update_price() {
    let mut contract = setup();
    let seller: u64 = 1;

    upload_default(&mut contract, seller);
    contract
        .update_price(seller, 1, U512::from(2_000_000_000u64))
        .expect("update should succeed");

    let sample = contract.get_sample(1).expect("Sample should exist");
    assert_eq!(sample.price, U512::from(2_000_000_000u64));
}

#[test]
fn purchase_withdraw_returns_exact_amount() {
    let mut contract = setup();
    upload_default(&mut contract, 1);
    contract
        .purchase_sample(2, 1, U512::from(1_000_000_000u64), 2000)
        .expect("purchase should succeed");
    let amount = contract.withdraw_earnings(1).expect("withdraw should succeed");
    assert_eq!(amount, U512::from(900_000_000u64));
}

#[test]
fn purchase_fee_goes_to_admin_receipt() {
    let mut contract = setup();
    upload_default(&mut contract, 1);
    let fee = contract
        .purchase_sample(2, 1, U512::from(1_000_000_000u64), 2000)
        .expect("purchase should succeed");
    assert_eq!(fee, U512::from(100_000_000u64));
    let stats = contract.get_marketplace_stats();
    assert_eq!(stats.total_volume, U512::from(1_000_000_000u64));
    assert_eq!(stats.platform_fee_collected, U512::from(100_000_000u64));
}

#[test]
fn upload_errors() {
    let mut contract = setup();
    assert_eq!(
        contract
            .upload_sample(
                1,
                U512::zero(),
                b"x".to_vec(),
                b"t".to_vec(),
                120,
                b"g".to_vec(),
                b"c".to_vec(),
                b"".to_vec(),
                0,
            )
            .unwrap_err(),
        Error::InvalidPrice
    );
    assert_eq!(
        contract
            .upload_sample(
                1,
                U512::from(1u64),
                b"x".to_vec(),
                vec![b'a'; 101],
                120,
                b"g".to_vec(),
                b"c".to_vec(),
                b"".to_vec(),
                0,
            )
            .unwrap_err(),
        Error::TitleTooLong
    );
    assert_eq!(
        contract
            .upload_sample(
                1,
                U512::from(1u64),
                vec![b'a'; 257],
                b"t".to_vec(),
                120,
                b"g".to_vec(),
                b"c".to_vec(),
                b"".to_vec(),
                0,
            )
            .unwrap_err(),
        Error::IpfsLinkTooLong
    );
    assert_eq!(
        contract
            .upload_sample(
                1,
                U512::from(1u64),
                b"x".to_vec(),
                b"t".to_vec(),
                120,
                vec![b'a'; 31],
                b"c".to_vec(),
                b"".to_vec(),
                0,
            )
            .unwrap_err(),
        Error::GenreTooLong
    );
    assert_eq!(
        contract
            .upload_sample(
                1,
                U512::from(1u64),
                b"x".to_vec(),
                b"t".to_vec(),
                120,
                b"g".to_vec(),
                vec![b'a'; 257],
                b"".to_vec(),
                0,
            )
            .unwrap_err(),
        Error::CoverImageTooLong
    );
    assert_eq!(
        contract
            .upload_sample(
                1,
                U512::from(1u64),
                b"x".to_vec(),
                b"t".to_vec(),
                120,
                b"g".to_vec(),
                b"c".to_vec(),
                vec![b'a'; 257],
                0,
            )
            .unwrap_err(),
        Error::VideoPreviewTooLong
    );
}

#[test]
fn purchase_errors() {
    let mut contract = setup();
    assert_eq!(
        contract.purchase_sample(2, 1, U512::from(5u64), 0).unwrap_err(),
        Error::SampleNotFound
    );
    upload_default(&mut contract, 1);
    assert_eq!(
        contract
            .purchase_sample(2, 1, U512::from(999_999_999u64), 0)
            .unwrap_err(),
        Error::InsufficientPayment
    );
    contract
        .purchase_sample(2, 1, U512::from(1_000_000_000u64), 0)
        .expect("purchase should succeed");
    assert_eq!(
        contract
            .purchase_sample(2, 1, U512::from(1_000_000_000u64), 0)
            .unwrap_err(),
        Error::AlreadyPurchased
    );
    contract.deactivate_sample(1, 1).expect("deactivate should succeed");
    assert_eq!(
        contract
            .purchase_sample(3, 1, U512::from(1_000_000_000u64), 0)
            .unwrap_err(),
        Error::SampleInactive
    );
}

#[test]
fn seller_only_operations() {
    let mut contract = setup();
    upload_default(&mut contract, 1);
    assert_eq!(
        contract.update_price(2, 1, U512::from(5u64)).unwrap_err(),
        Error::NotSeller
    );
    assert_eq!(contract.deactivate_sample(2, 1).unwrap_err(), Error::NotSeller);
    assert_eq!(
        contract.update_price(1, 1, U512::zero()).unwrap_err(),
        Error::InvalidPrice
    );
    assert_eq!(contract.update_price(1, 9, U512::from(5u64)).unwrap_err(), Error::SampleNotFound);
    assert_eq!(contract.withdraw_earnings(1).unwrap_err(), Error::NoEarnings);
}

#[test]
fn user_stats_and_listings() {
    let mut contract = setup();
    upload_default(&mut contract, 1);
    contract
        .upload_sample(
            1,
            U512::from(500u64),
            b"ipfs://Qm2".to_vec(),
            b"Second".to_vec(),
            90,
            b"Jazz".to_vec(),
            b"ipfs://Qc2".to_vec(),
            b"".to_vec(),
            1500,
        )
        .expect("upload should succeed");
    contract.deactivate_sample(1, 2).expect("deactivate should succeed");

    let stats = contract.get_user_stats(1);
    assert_eq!(stats.uploaded_count, 2);
    assert_eq!(stats.purchased_count, 0);

    assert_eq!(contract.get_user_samples(1), vec![1, 2]);
    let all = contract.get_all_samples();
    assert_eq!(all.len(), 1);
    assert_eq!(all[0].sample_id, 1);
    let full = contract.get_user_samples_full(1);
    assert_eq!(full.len(), 2);
    assert_eq!(full[1].title, b"Second".to_vec());

    contract
        .purchase_sample(2, 1, U512::from(1_000_000_000u64), 0)
        .expect("purchase should succeed");
    assert_eq!(contract.get_user_purchases(2), vec![1]);
    let bought = contract.get_user_purchases_full(2);
    assert_eq!(bought.len(), 1);
    assert_eq!(bought[0].sample_id, 1);
    let buyer_stats = contract.get_user_stats(2);
    assert_eq!(buyer_stats.purchased_count, 1);
    assert_eq!(buyer_stats.total_spent, U512::from(1_000_000_000u64));
    assert_eq!(contract.get_admin(), Some(0));
}
