use puzzle_contracts::nft_bundle::{BundleError, BundleStatus, NftBundleContract, PackType, TokenRef};
use puzzle_contracts::util::{NftTransfer, Transfer};
use soroban_sdk::testutils::EnvTestConfig;
use soroban_sdk::Env;

const BUNDLE: u64 = 800;
const CREATOR: u64 = 1;
const BUYER: u64 = 2;
const NFT: u64 = 50;
const PAY: u64 = 60;

/// Stand-in bytes for the address of account `id`.
fn buyer_xdr(id: u64) -> Vec<u8> {
    let mut v = vec![0u8, 0, 0, 18, 0, 0, 0, 0];
    v.extend_from_slice(&id.to_be_bytes());
    v
}

fn pool(count: u32) -> Vec<TokenRef> {
    (1..=count).map(|i| TokenRef { nft_contract: NFT, token_id: i }).collect()
}

fn create(c: &mut NftBundleContract, pack_type: PackType, count: u32, per_pack: u32, price: i128) -> u64 {
    c.create_bundle(CREATOR, pack_type, pool(count), per_pack, price, PAY).unwrap().0
}

#[test]
fn test_create_fixed_bundle() {
    let mut c = NftBundleContract::new(BUNDLE);
    let (id, moves) = c.create_bundle(CREATOR, PackType::Fixed, pool(4), 2, 1000, PAY).unwrap();
    let b = c.get_bundle(id).unwrap();
    assert_eq!(b.packs_remaining, 2);
    assert_eq!(b.pack_type, PackType::Fixed);
    assert_eq!(b.price, 1000);
    assert_eq!(b.nft_pool.len(), 4);
    assert_eq!(b.status, BundleStatus::Active);
    assert_eq!(moves.len(), 4);
    assert_eq!(moves[0], NftTransfer { nft_contract: NFT, from: CREATOR, to: BUNDLE, nft_id: 1 });
    assert_eq!(moves[1], NftTransfer { nft_contract: NFT, from: CREATOR, to: BUNDLE, nft_id: 2 });
}

#[test]
fn test_create_blind_bundle() {
    let mut c = NftBundleContract::new(BUNDLE);
    let id = create(&mut c, PackType::Blind, 6, 3, 500);
    let b = c.get_bundle(id).unwrap();
    assert_eq!(b.packs_remaining, 2);
    assert_eq!(b.pack_type, PackType::Blind);
}

#[test]
fn test_purchase_fixed_pack() {
    let env = test_env();
    let mut c = NftBundleContract::new(BUNDLE);
    let id = create(&mut c, PackType::Fixed, 4, 2, 1000);
    let (received, pay, moves) = c.purchase_pack(&env, BUYER, &buyer_xdr(BUYER), id, 100).unwrap();
    assert_eq!(received.iter().map(|t| t.token_id).collect::<Vec<_>>(), vec![1, 2]);
    assert_eq!(pay, Transfer { token: PAY, from: BUYER, to: BUNDLE, amount: 1000 });
    assert_eq!(moves[0], NftTransfer { nft_contract: NFT, from: BUNDLE, to: BUYER, nft_id: 1 });
    assert_eq!(moves[1], NftTransfer { nft_contract: NFT, from: BUNDLE, to: BUYER, nft_id: 2 });
    let b = c.get_bundle(id).unwrap();
    assert_eq!(b.packs_remaining, 1);
    assert_eq!(b.nft_pool.len(), 2);
}

#[test]
fn test_purchase_blind_pack_no_repeats() {
    let env = test_env();
    let mut c = NftBundleContract::new(BUNDLE);
    let id = create(&mut c, PackType::Blind, 6, 3, 500);
    let (received, _, _) = c.purchase_pack(&env, BUYER, &buyer_xdr(BUYER), id, 100).unwrap();
    assert_eq!(received.len(), 3);
    let t: Vec<u32> = received.iter().map(|r| r.token_id).collect();
    assert_ne!(t[0], t[1]);
    assert_ne!(t[1], t[2]);
    assert_ne!(t[0], t[2]);
    let b = c.get_bundle(id).unwrap();
    assert_eq!(b.nft_pool.len(), 3);
    assert_eq!(b.packs_remaining, 1);
    let mut all: Vec<u32> = t.clone();
    all.extend(b.nft_pool.iter().map(|r| r.token_id));
    all.sort();
    assert_eq!(all, vec![1, 2, 3, 4, 5, 6]);
}

#[test]
fn blind_draw_depends_on_the_seed() {
    let env = test_env();
    let mut outcomes = std::collections::HashSet::new();
    for seq in 0..8u32 {
        let mut c = NftBundleContract::new(BUNDLE);
        let id = create(&mut c, PackType::Blind, 20, 20, 500);
        let (received, _, _) = c.purchase_pack(&env, BUYER, &buyer_xdr(BUYER), id, seq).unwrap();
        let order: Vec<u32> = received.iter().map(|r| r.token_id).collect();
        let mut sorted = order.clone();
        sorted.sort();
        assert_eq!(sorted, (1..=20).collect::<Vec<u32>>());
        outcomes.insert(order);
    }
    assert!(outcomes.len() > 1);
}

#[test]
fn blind_draw_depends_on_the_buyer() {
    let env = test_env();
    let mut orders = std::collections::HashSet::new();
    for buyer in 10..16u64 {
        let mut c = NftBundleContract::new(BUNDLE);
        let id = create(&mut c, PackType::Blind, 20, 20, 500);
        let (received, _, _) = c.purchase_pack(&env, buyer, &buyer_xdr(buyer), id, 7).unwrap();
        orders.insert(received.iter().map(|r| r.token_id).collect::<Vec<u32>>());
    }
    assert!(orders.len() > 1);
}

#[test]
fn test_bundle_closes_when_empty() {
    let env = test_env();
    let mut c = NftBundleContract::new(BUNDLE);
    let id = create(&mut c, PackType::Fixed, 2, 2, 1000);
    c.purchase_pack(&env, BUYER, &buyer_xdr(BUYER), id, 1).unwrap();
    let b = c.get_bundle(id).unwrap();
    assert_eq!(b.packs_remaining, 0);
    assert_eq!(b.status, BundleStatus::Closed);
}

#[test]
fn test_purchase_from_closed_bundle_panics() {
    let env = test_env();
    let mut c = NftBundleContract::new(BUNDLE);
    let id = create(&mut c, PackType::Fixed, 2, 2, 1000);
    c.purchase_pack(&env, BUYER, &buyer_xdr(BUYER), id, 1).unwrap();
    assert_eq!(c.purchase_pack(&env, BUYER, &buyer_xdr(BUYER), id, 1).err(), Some(BundleError::BundleNotActive));
}

#[test]
fn test_creator_cancel_and_withdraw() {
    let mut c = NftBundleContract::new(BUNDLE);
    let id = create(&mut c, PackType::Fixed, 4, 2, 1000);
    c.cancel_bundle(CREATOR, id).unwrap();
    assert_eq!(c.get_bundle(id).unwrap().status, BundleStatus::Cancelled);
    let moves = c.withdraw_unsold(CREATOR, id).unwrap();
    let back: Vec<u32> = moves.iter().map(|m| m.nft_id).collect();
    assert_eq!(back, vec![1, 2, 3, 4]);
    assert!(moves.iter().all(|m| m.from == BUNDLE && m.to == CREATOR));
    assert_eq!(c.get_bundle(id).unwrap().nft_pool.len(), 0);
}

#[test]
fn test_creator_withdraw_proceeds() {
    let env = test_env();
    let mut c = NftBundleContract::new(BUNDLE);
    let id = create(&mut c, PackType::Fixed, 2, 2, 1000);
    c.purchase_pack(&env, BUYER, &buyer_xdr(BUYER), id, 1).unwrap();
    let t = c.withdraw_proceeds(CREATOR, id, 1000).unwrap();
    assert_eq!(t, Transfer { token: PAY, from: BUNDLE, to: CREATOR, amount: 1000 });
    assert_eq!(c.withdraw_proceeds(CREATOR, id, 0), Err(BundleError::NoProceeds));
}

#[test]
fn test_non_creator_cannot_cancel() {
    let mut c = NftBundleContract::new(BUNDLE);
    let id = create(&mut c, PackType::Fixed, 2, 2, 1000);
    assert_eq!(c.cancel_bundle(99, id), Err(BundleError::NotCreator));
}

#[test]
fn test_get_bundle_metadata() {
    let mut c = NftBundleContract::new(BUNDLE);
    let id = create(&mut c, PackType::Blind, 6, 3, 750);
    let b = c.get_bundle(id).unwrap();
    assert_eq!(b.pack_type, PackType::Blind);
    assert_eq!(b.price, 750);
    assert_eq!(b.packs_remaining, 2);
    assert_eq!(b.nft_pool.len(), 6);
}

#[test]
fn bundle_creation_errors() {
    let mut c = NftBundleContract::new(BUNDLE);
    assert_eq!(c.create_bundle(CREATOR, PackType::Fixed, vec![], 2, 1, PAY).err(), Some(BundleError::EmptyPool));
    assert_eq!(c.create_bundle(CREATOR, PackType::Fixed, pool(4), 0, 1, PAY).err(), Some(BundleError::ZeroNftsPerPack));
    assert_eq!(c.create_bundle(CREATOR, PackType::Fixed, pool(5), 2, 1, PAY).err(), Some(BundleError::PoolNotDivisible));
    assert_eq!(c.create_bundle(CREATOR, PackType::Fixed, pool(4), 2, 0, PAY).err(), Some(BundleError::InvalidPrice));
}

fn test_env() -> Env {
    Env::new_with_config(EnvTestConfig { capture_snapshot_at_drop: false })
}
