use puzzle_contracts::fractional_nft::{FractionalError, FractionalNftContract, VaultStatus, VOTING_PERIOD_SECS};
use puzzle_contracts::util::{NftTransfer, Transfer};

const VAULT: u64 = 300;
const ADMIN: u64 = 1;
const OWNER: u64 = 2;
const BUYER: u64 = 3;
const NFT: u64 = 40;
const PAY: u64 = 41;

fn setup() -> FractionalNftContract {
    let mut c = FractionalNftContract::new(VAULT);
    c.initialize(ADMIN).unwrap();
    c
}

#[test]
fn test_fractionalize_basic() {
    let mut c = setup();
    let (vid, mv) = c.fractionalize(OWNER, NFT, 1, 1_000, 10_000, PAY, OWNER).unwrap();
    assert_eq!(mv, NftTransfer { nft_contract: NFT, from: OWNER, to: VAULT, nft_id: 1 });
    let state = *c.vaults.get(&vid).unwrap();
    assert_eq!(state.total_fractions, 1_000);
    assert_eq!(state.buyout_price, 10_000);
    assert_eq!(state.status, VaultStatus::Active);
    assert_eq!(state.fraction_token, VAULT);
    assert_eq!(c.get_balance(vid, OWNER), 1_000);
    assert_eq!(c.get_balance(vid, BUYER), 0);
}

#[test]
fn fractionalize_requires_ownership() {
    let mut c = setup();
    assert_eq!(c.fractionalize(OWNER, NFT, 1, 1_000, 10_000, PAY, BUYER), Err(FractionalError::NotNftOwner));
}

#[test]
fn test_initiate_buyout_low_offer() {
    let mut c = setup();
    let (vid, _) = c.fractionalize(OWNER, NFT, 1, 1_000, 10_000, PAY, OWNER).unwrap();
    assert_eq!(c.initiate_buyout(BUYER, vid, 5_000, 0), Err(FractionalError::OfferBelowBuyoutPrice));
}

#[test]
fn test_get_vault_state() {
    let mut c = setup();
    let (vid, _) = c.fractionalize(OWNER, NFT, 1, 500, 5_000, PAY, OWNER).unwrap();
    let state = *c.vaults.get(&vid).unwrap();
    assert_eq!(state.nft_id, 1);
    assert_eq!(state.total_fractions, 500);
    assert_eq!(state.buyout_price, 5_000);
    assert_eq!(state.status, VaultStatus::Active);
    assert!(state.buyout_buyer.is_none());
    let escrow = c.initiate_buyout(BUYER, vid, 6_000, 100).unwrap();
    assert_eq!(escrow, Transfer { token: PAY, from: BUYER, to: VAULT, amount: 6_000 });
    let state = *c.vaults.get(&vid).unwrap();
    assert_eq!(state.status, VaultStatus::BuyoutPending);
    assert_eq!(state.buyout_offer_price, 6_000);
    assert_eq!(state.buyout_buyer, Some(BUYER));
    assert_eq!(state.buyout_deadline, 100 + VOTING_PERIOD_SECS);
    assert_eq!(c.initiate_buyout(BUYER, vid, 7_000, 200), Err(FractionalError::VaultNotActive));
    assert_eq!(c.initiate_buyout(BUYER, 99, 7_000, 200), Err(FractionalError::VaultNotFound));
}

#[test]
fn fractional_initialize_twice_fails() {
    let mut c = setup();
    assert_eq!(c.initialize(ADMIN), Err(FractionalError::AlreadyInitialized));
}
