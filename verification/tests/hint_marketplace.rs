use puzzle_contracts::hint_marketplace::{calculate_dynamic_price, HintMarketplace, HintQuality, ListingStatus, MarketplaceError};
use puzzle_contracts::util::Transfer;

const MARKET: u64 = 500;
const ADMIN: u64 = 1;
const FEES: u64 = 2;
const CREATOR: u64 = 3;
const BUYER: u64 = 4;
const PAY: u64 = 60;

fn setup() -> HintMarketplace {
    let mut c = HintMarketplace::new(MARKET);
    c.initialize(ADMIN, FEES, 250, 60, 86_400, 5000, HintQuality::Fair).unwrap();
    c
}

#[test]
fn dynamic_price_follows_quality() {
    assert_eq!(calculate_dynamic_price(1000, HintQuality::Good, 0, 0, 5000), Some(1000));
    assert_eq!(calculate_dynamic_price(1000, HintQuality::Perfect, 0, 0, 5000), Some(1500));
    assert_eq!(calculate_dynamic_price(1000, HintQuality::Fair, 0, 0, 5000), Some(750));
    assert_eq!(calculate_dynamic_price(1000, HintQuality::Poor, 0, 0, 5000), Some(500));
}

#[test]
fn dynamic_price_follows_demand_within_band() {
    assert_eq!(calculate_dynamic_price(1000, HintQuality::Perfect, 10, 0, 5000), Some(2250));
    assert_eq!(calculate_dynamic_price(1000, HintQuality::Perfect, 10, 0, 10000), Some(3000));
    let p = calculate_dynamic_price(1001, HintQuality::Poor, 0, 50, 0).unwrap();
    assert!(p >= 1001 / 2 && p <= 3003);
}

#[test]
fn listing_and_buying_a_hint() {
    let mut c = setup();
    let hint = c.create_hint(CREATOR, 9, vec![1, 2, 3], HintQuality::Good, 100).unwrap();
    let listing = c.create_listing(CREATOR, hint, PAY, 1000, 3600, 500, 100).unwrap();
    let l = c.get_listing(listing).unwrap();
    assert_eq!(l.current_price, 1000);
    assert_eq!(l.status, ListingStatus::Active);
    assert_eq!(c.get_active_listings(), vec![listing]);
    assert_eq!(c.get_listings_by_hint(hint), vec![listing]);
    assert_eq!(c.buy(CREATOR, listing, 200), Err(MarketplaceError::CannotBuyOwnListing));
    let transfers = c.buy(BUYER, listing, 200).unwrap();
    assert_eq!(
        transfers,
        vec![
            Transfer { token: PAY, from: BUYER, to: MARKET, amount: 1000 },
            Transfer { token: PAY, from: MARKET, to: CREATOR, amount: 925 },
            Transfer { token: PAY, from: MARKET, to: FEES, amount: 25 },
            Transfer { token: PAY, from: MARKET, to: CREATOR, amount: 50 },
        ]
    );
    assert_eq!(c.get_listing(listing).unwrap().status, ListingStatus::Sold);
    assert_eq!(c.get_active_listings().len(), 0);
    assert_eq!(c.get_hint(hint).unwrap().total_sales, 1);
    assert_eq!(c.get_price_history(hint), vec![1000]);
    assert_eq!(c.buy(BUYER, listing, 200), Err(MarketplaceError::ListingNotActive));
}

#[test]
fn listing_rules() {
    let mut c = setup();
    let poor = c.create_hint(CREATOR, 9, vec![1], HintQuality::Poor, 0).unwrap();
    let good = c.create_hint(CREATOR, 9, vec![2], HintQuality::Good, 0).unwrap();
    assert_eq!(c.create_listing(CREATOR, poor, PAY, 1000, 3600, 0, 0), Err(MarketplaceError::InvalidQuality));
    assert_eq!(c.create_listing(CREATOR, good, PAY, 0, 3600, 0, 0), Err(MarketplaceError::InvalidPrice));
    assert_eq!(c.create_listing(CREATOR, good, PAY, 10, 3600, 10001, 0), Err(MarketplaceError::RoyaltyTooHigh));
    assert_eq!(c.create_listing(CREATOR, good, PAY, 10, 10, 0, 0), Err(MarketplaceError::InvalidDuration));
    assert_eq!(c.create_listing(CREATOR, 77, PAY, 10, 3600, 0, 0), Err(MarketplaceError::HintNotFound));
    let l = c.create_listing(CREATOR, good, PAY, 10, 3600, 0, 0).unwrap();
    assert_eq!(c.buy(BUYER, l, 3601), Err(MarketplaceError::ListingExpired));
    assert_eq!(c.cancel_listing(BUYER, l), Err(MarketplaceError::NotAuthorized));
    c.cancel_listing(CREATOR, l).unwrap();
    assert_eq!(c.get_listing(l).unwrap().status, ListingStatus::Cancelled);
}

#[test]
fn marketplace_config_rules() {
    let mut c = HintMarketplace::new(MARKET);
    assert_eq!(
        c.initialize(ADMIN, FEES, 10001, 60, 86_400, 5000, HintQuality::Fair),
        Err(MarketplaceError::FeeTooHigh)
    );
    let mut c = setup();
    assert_eq!(
        c.initialize(ADMIN, FEES, 250, 60, 86_400, 5000, HintQuality::Fair),
        Err(MarketplaceError::AlreadyInitialized)
    );
    c.update_config(None, Some(100), None, None, None, None).unwrap();
    assert_eq!(c.get_config().unwrap().fee_bps, 100);
}

#[test]
fn ratings_are_one_per_rater() {
    let mut c = setup();
    let hint = c.create_hint(CREATOR, 9, vec![1], HintQuality::Good, 0).unwrap();
    c.rate_hint(BUYER, hint, 5, 4, 10).unwrap();
    assert_eq!(c.rate_hint(BUYER, hint, 4, 4, 11), Err(MarketplaceError::DuplicateRating));
    assert_eq!(c.rate_hint(7, hint, 6, 4, 11), Err(MarketplaceError::InvalidRating));
    assert!(c.get_rating(hint, BUYER).is_some());
}
