use puzzle_contracts::liquidity_mining::{LiquidityMiningContract, MiningError};
use puzzle_contracts::util::Transfer;

const CONTRACT: u64 = 10;
const ADMIN: u64 = 1;
const LP: u64 = 20;
const REWARD: u64 = 21;
const P1: u64 = 2;
const P2: u64 = 3;

fn setup() -> LiquidityMiningContract {
    let mut c = LiquidityMiningContract::new(CONTRACT);
    c.initialize(ADMIN, LP, REWARD).unwrap();
    c
}

#[test]
fn test_liquidity_mining_flow() {
    let mut c = setup();
    assert_eq!(c.stake_lp(P1, 1000, 1_000), Ok(Transfer { token: LP, from: P1, to: CONTRACT, amount: 1000 }));
    let (epoch, funding) = c.fund_and_open_epoch(10_000, 1_000).unwrap();
    assert_eq!(epoch, 1);
    assert_eq!(funding, Transfer { token: REWARD, from: ADMIN, to: CONTRACT, amount: 10_000 });
    c.stake_lp(P2, 3000, 1_000).unwrap();
    c.close_epoch(1_000).unwrap();
    let (r1, t1) = c.claim_mining_reward(P1, 1).unwrap();
    assert_eq!(r1, 2500);
    assert_eq!(t1, Some(Transfer { token: REWARD, from: CONTRACT, to: P1, amount: 2500 }));
    assert_eq!(c.claim_mining_reward(P2, 1).unwrap().0, 7500);
    assert_eq!(c.unstake_lp(P1, 1000, 1_000).err(), Some(MiningError::CooldownActive));
    let t = c.unstake_lp(P1, 1000, 1_000 + 86401).unwrap();
    assert_eq!(t, Transfer { token: LP, from: CONTRACT, to: P1, amount: 1000 });
}

#[test]
fn liquidity_test_double_claim_rejected() {
    let mut c = setup();
    c.stake_lp(P1, 1000, 1_000).unwrap();
    c.fund_and_open_epoch(10_000, 1_000).unwrap();
    c.close_epoch(2_000).unwrap();
    assert_eq!(c.claim_mining_reward(P1, 1).unwrap().0, 10_000);
    assert_eq!(c.claim_mining_reward(P1, 1), Err(MiningError::AlreadyClaimed));
}

#[test]
fn test_requires_pending_claims_to_be_done_before_unstake() {
    let mut c = setup();
    c.stake_lp(P1, 1000, 1_000).unwrap();
    c.fund_and_open_epoch(10_000, 1_000).unwrap();
    c.close_epoch(1_000).unwrap();
    assert_eq!(c.unstake_lp(P1, 500, 1_000 + 86401).err(), Some(MiningError::PendingClaims));
    c.claim_mining_reward(P1, 1).unwrap();
    let t = c.unstake_lp(P1, 500, 1_000 + 86401).unwrap();
    assert_eq!(t.amount, 500);
    assert_eq!(c.get_position(P1).lp_tokens, 500);
}

#[test]
fn mining_errors() {
    let mut c = setup();
    assert_eq!(c.fund_and_open_epoch(0, 0).err(), Some(MiningError::InvalidBudget));
    assert_eq!(c.close_epoch(0), Err(MiningError::NoActiveEpoch));
    assert_eq!(c.stake_lp(P1, 0, 0).err(), Some(MiningError::InvalidAmount));
    c.fund_and_open_epoch(5, 0).unwrap();
    assert_eq!(c.fund_and_open_epoch(5, 0).err(), Some(MiningError::PreviousEpochOpen));
    assert_eq!(c.claim_mining_reward(P1, 1), Err(MiningError::EpochNotClosed));
    assert_eq!(c.claim_mining_reward(P1, 9), Err(MiningError::EpochNotFound));
}
