use puzzle_contracts::nft_staking::{Mint, NftStakingContract, NftStakingError, MIN_STAKE_SECONDS};
use puzzle_contracts::util::NftTransfer;

const STAKING: u64 = 70;
const ADMIN: u64 = 1;
const STAKER: u64 = 2;
const OTHER: u64 = 3;
const NFT: u64 = 40;
const REWARD: u64 = 41;

fn setup(rate: i128) -> NftStakingContract {
    let mut c = NftStakingContract::new(STAKING);
    c.initialize(ADMIN, NFT, REWARD).unwrap();
    c.set_rarity_config(ADMIN, 1, rate).unwrap();
    c.set_token_rarity(ADMIN, 1, 1).unwrap();
    c
}

fn mint(to: u64, amount: i128) -> Mint {
    Mint { token: REWARD, minter: STAKING, to, amount }
}

#[test]
fn stake_locks_nft_and_records_position() {
    let mut c = setup(5);
    let mv = c.stake(STAKER, 1, STAKER, 1_000, 10).unwrap();
    assert_eq!(mv, NftTransfer { nft_contract: NFT, from: STAKER, to: STAKING, nft_id: 1 });
    let view = c.get_position(1, 1_000, 10).unwrap();
    assert_eq!(view.position.token_id, 1);
    assert_eq!(view.position.staker, STAKER);
    assert_eq!(view.position.rarity, 1);
    assert_eq!(view.position.last_claim_ledger, 10);
    assert_eq!(view.pending_rewards, 0);
    assert_eq!(view.days_staked, 0);
}

#[test]
fn stake_requires_ownership() {
    let mut c = setup(5);
    assert_eq!(c.stake(STAKER, 1, OTHER, 1_000, 10), Err(NftStakingError::NotTokenOwner));
    c.stake(STAKER, 1, STAKER, 1_000, 10).unwrap();
    assert_eq!(c.stake(STAKER, 1, STAKER, 1_000, 10), Err(NftStakingError::PositionAlreadyExists));
}

#[test]
fn rewards_accrue_per_ledger_and_claim_without_unstaking() {
    let mut c = setup(10);
    c.stake(STAKER, 1, STAKER, 1_000, 10).unwrap();
    assert_eq!(c.pending_rewards(1, 15), Ok(50));
    assert_eq!(c.claim_rewards(STAKER, 1, 15), Ok((50, Some(mint(STAKER, 50)))));
    assert_eq!(c.pending_rewards(1, 18), Ok(30));
    assert_eq!(c.claim_rewards(STAKER, 1, 18), Ok((30, Some(mint(STAKER, 30)))));
    let view = c.get_position(1, 1_100, 18).unwrap();
    assert_eq!(view.pending_rewards, 0);
    assert_eq!(view.position.total_claimed, 80);
    assert_eq!(view.position.last_claim_ledger, 18);
}

#[test]
fn unstake_before_48h_rejected() {
    let mut c = setup(2);
    c.stake(STAKER, 1, STAKER, 1_000, 10).unwrap();
    assert_eq!(c.unstake(STAKER, 1, 1_000 + MIN_STAKE_SECONDS - 1, 11).err(), Some(NftStakingError::UnstakeTooEarly));
}

#[test]
fn unstake_after_48h_returns_nft_and_claims_rewards() {
    let mut c = setup(2);
    c.stake(STAKER, 1, STAKER, 1_000, 10).unwrap();
    let (pending, minted, back) = c.unstake(STAKER, 1, 1_000 + MIN_STAKE_SECONDS + 1, 20).unwrap();
    assert_eq!(pending, 20);
    assert_eq!(minted, Some(mint(STAKER, 20)));
    assert_eq!(back, NftTransfer { nft_contract: NFT, from: STAKING, to: STAKER, nft_id: 1 });
    assert_eq!(c.pending_rewards(1, 20), Err(NftStakingError::PositionNotFound));
}

#[test]
fn rarity_rate_differences_affect_rewards() {
    let mut c = setup(5);
    c.set_rarity_config(ADMIN, 2, 20).unwrap();
    c.set_token_rarity(ADMIN, 2, 2).unwrap();
    c.stake(STAKER, 1, STAKER, 1_000, 100).unwrap();
    c.stake(STAKER, 2, STAKER, 1_000, 100).unwrap();
    assert_eq!(c.pending_rewards(1, 110), Ok(50));
    assert_eq!(c.pending_rewards(2, 110), Ok(200));
}

#[test]
fn staking_admin_errors() {
    let mut c = setup(5);
    assert_eq!(c.set_rarity_config(OTHER, 3, 1), Err(NftStakingError::Unauthorized));
    assert_eq!(c.set_rarity_config(ADMIN, 3, 0), Err(NftStakingError::InvalidRewardRate));
    assert_eq!(c.set_token_rarity(ADMIN, 5, 9), Err(NftStakingError::RarityNotConfigured));
    assert_eq!(c.claim_rewards(OTHER, 1, 1).err(), Some(NftStakingError::PositionNotFound));
}

#[test]
fn transfer_blocked_while_staked() {
    let mut c = setup(5);
    let mv = c.stake(STAKER, 1, STAKER, 1_000, 10).unwrap();
    // the NFT now belongs to the staking contract, so the staker cannot move it
    assert_eq!(mv.to, STAKING);
    assert_eq!(c.stake(OTHER, 1, STAKING, 1_000, 10), Err(NftStakingError::PositionAlreadyExists));
}

#[test]
fn burn_blocked_while_staked() {
    let mut c = setup(5);
    let mv = c.stake(STAKER, 1, STAKER, 1_000, 10).unwrap();
    assert_eq!(mv.from, STAKER);
    assert_eq!(mv.to, STAKING);
    assert_eq!(c.unstake(OTHER, 1, 1_000 + MIN_STAKE_SECONDS + 1, 20).err(), Some(NftStakingError::Unauthorized));
}
