use puzzle_contracts::nft_trait_marketplace::{NftTraitMarketplaceContract, TraitMarketError};
use puzzle_contracts::util::Transfer;

const MARKET: u64 = 600;
const ADMIN: u64 = 1;
const SELLER: u64 = 2;
const BUYER: u64 = 3;
const NFT: u64 = 4;
const PAY: u64 = 5;

fn setup() -> NftTraitMarketplaceContract {
    let mut c = NftTraitMarketplaceContract::new(MARKET);
    c.initialize(ADMIN, 500, NFT, PAY).unwrap();
    c
}

fn list(c: &mut NftTraitMarketplaceContract, seller: u64, nft: u32, key: &str, value: &str, price: i128) -> u32 {
    c.list_trait(seller, nft, key.to_string(), value.to_string(), price, 10).unwrap()
}

#[test]
fn test_list_trait() {
    let mut c = setup();
    let listing_id = list(&mut c, SELLER, 1, "color", "blue", 1000);
    assert_eq!(listing_id, 1);
    let listing = c.get_listing(listing_id).unwrap();
    assert_eq!(listing.id, 1);
    assert_eq!(listing.seller, SELLER);
    assert_eq!(listing.source_nft_id, 1);
    assert_eq!(listing.price, 1000);
    assert_eq!(listing.status, 0);
    assert_eq!(listing.trait_value, "blue");
}

#[test]
fn test_buy_trait() {
    let mut c = setup();
    let listing_id = list(&mut c, SELLER, 1, "color", "blue", 1000);
    c.buy_trait(listing_id, BUYER, 2).unwrap();
    assert_eq!(c.get_listing(listing_id).unwrap().status, 1);
    assert!(c.has_trait(2, "color".to_string()));
    assert!(!c.has_trait(1, "color".to_string()));
    assert_eq!(c.get_trait(2, "color".to_string()), Some("blue".to_string()));
}

#[test]
fn test_cancel_listing() {
    let mut c = setup();
    let listing_id = list(&mut c, SELLER, 1, "color", "blue", 1000);
    c.cancel_listing(SELLER, listing_id).unwrap();
    assert_eq!(c.get_listing(listing_id).unwrap().status, 2);
    assert!(!c.has_trait(1, "color".to_string()));
}

#[test]
fn test_duplicate_trait_rejection() {
    let mut c = setup();
    list(&mut c, SELLER, 1, "color", "blue", 1000);
    assert_eq!(
        c.list_trait(SELLER, 1, "color".to_string(), "red".to_string(), 2000, 10),
        Err(TraitMarketError::TraitAlreadyListed)
    );
}

#[test]
fn test_fee_deduction() {
    let mut c = setup();
    let listing_id = list(&mut c, SELLER, 1, "color", "blue", 1000);
    let transfers = c.buy_trait(listing_id, BUYER, 2).unwrap();
    assert_eq!(
        transfers,
        vec![
            Transfer { token: PAY, from: BUYER, to: SELLER, amount: 950 },
            Transfer { token: PAY, from: BUYER, to: ADMIN, amount: 50 },
        ]
    );
}

#[test]
fn test_list_active_listings() {
    let mut c = setup();
    list(&mut c, 21, 1, "color", "blue", 1000);
    list(&mut c, 22, 3, "color", "red", 2000);
    assert_eq!(c.list_active_listings("color".to_string()).len(), 2);
    assert_eq!(c.list_active_listings("shape".to_string()).len(), 0);
    assert_eq!(c.get_seller_active_listings(21).len(), 1);
}

#[test]
fn test_destination_trait_rejection() {
    let mut c = setup();
    let first = list(&mut c, SELLER, 1, "color", "blue", 1000);
    c.buy_trait(first, BUYER, 2).unwrap();
    let second = list(&mut c, SELLER, 5, "color", "green", 1000);
    assert_eq!(c.buy_trait(second, BUYER, 2).err(), Some(TraitMarketError::DestinationHasTrait));
}

#[test]
fn trait_market_errors() {
    let mut c = setup();
    assert_eq!(c.initialize(ADMIN, 500, NFT, PAY), Err(TraitMarketError::AlreadyInitialized));
    assert_eq!(c.list_trait(SELLER, 1, "a".to_string(), "b".to_string(), 0, 0), Err(TraitMarketError::PriceNotPositive));
    assert_eq!(c.buy_trait(42, BUYER, 2).err(), Some(TraitMarketError::ListingNotFound));
    let id = list(&mut c, SELLER, 1, "color", "blue", 1000);
    assert_eq!(c.cancel_listing(BUYER, id), Err(TraitMarketError::OnlySellerCanCancel));
    c.cancel_listing(SELLER, id).unwrap();
    assert_eq!(c.buy_trait(id, BUYER, 2).err(), Some(TraitMarketError::ListingNotActive));
    assert_eq!(c.update_platform_fee(BUYER, 100), Err(TraitMarketError::AdminOnly));
    let mut fresh = NftTraitMarketplaceContract::new(MARKET);
    assert_eq!(fresh.initialize(ADMIN, 1001, NFT, PAY), Err(TraitMarketError::FeeTooHigh));
}
