use puzzle_contracts::puzzle_pool_staking::{PoolError, PuzzlePoolStaking};
use puzzle_contracts::util::Transfer;

const CONTRACT: u64 = 500;
const ADMIN: u64 = 1;
const STAKER: u64 = 2;
const ORACLE: u64 = 3;
const STAKING_TOKEN: u64 = 40;
const REWARD_TOKEN: u64 = 41;
const WEEK: u64 = 7 * 24 * 60 * 60;

fn setup_contract(now: u64) -> PuzzlePoolStaking {
    let mut c = PuzzlePoolStaking::new(CONTRACT);
    c.initialize(ADMIN, STAKING_TOKEN, REWARD_TOKEN, ORACLE, WEEK, now).unwrap();
    c
}

fn close_first_epoch(c: &mut PuzzlePoolStaking) {
    let t = c.add_rewards(ADMIN, 1_000_000_000_000).unwrap();
    assert_eq!(t, Transfer { token: REWARD_TOKEN, from: ADMIN, to: CONTRACT, amount: 1_000_000_000_000 });
    c.close_epoch(ADMIN, 1_000_000_000_000, WEEK + 1).unwrap();
}

#[test]
fn test_initialization() {
    let c = setup_contract(0);
    let config = c.get_config().unwrap();
    assert_eq!(config.admin, ADMIN);
    assert_eq!(config.oracle, ORACLE);
    assert_eq!(config.lock_period, 7 * 24 * 60 * 60);
    assert_eq!(config.staker_yield_share, 3000);
    assert_eq!(config.solver_yield_share, 7000);
    assert!(!config.paused);
}

#[test]
fn test_double_initialization() {
    let mut c = setup_contract(0);
    assert_eq!(
        c.initialize(ADMIN, STAKING_TOKEN, REWARD_TOKEN, ORACLE, 604800, 0),
        Err(PoolError::AlreadyInitialized)
    );
}

#[test]
fn test_stake() {
    let mut c = setup_contract(1000);
    let t = c.stake(STAKER, 10_000_000_000, 1000).unwrap();
    assert_eq!(t, Transfer { token: STAKING_TOKEN, from: STAKER, to: CONTRACT, amount: 10_000_000_000 });
    let info = c.get_stake(STAKER).unwrap();
    assert_eq!(info.position.amount, 10_000_000_000);
    assert_eq!(info.position.staked_at, 1000);
    assert_eq!(c.get_total_staked(), 10_000_000_000);
}

#[test]
fn test_stake_multiple_times() {
    let mut c = setup_contract(1000);
    c.stake(STAKER, 50_000_000_000, 1000).unwrap();
    assert_eq!(c.get_stake(STAKER).unwrap().position.amount, 50_000_000_000);
    c.stake(STAKER, 60_000_000_000, 2000).unwrap();
    let info = c.get_stake(STAKER).unwrap();
    assert_eq!(info.position.amount, 110_000_000_000);
    assert_eq!(info.position.staked_at, 2000);
}

#[test]
fn test_unstake_after_lock_period() {
    let mut c = setup_contract(1000);
    c.stake(STAKER, 5_000_000_000, 1000).unwrap();
    let t = c.unstake(STAKER, 2_000_000_000, 1000 + WEEK + 1).unwrap();
    assert_eq!(t, Transfer { token: STAKING_TOKEN, from: CONTRACT, to: STAKER, amount: 2_000_000_000 });
    assert_eq!(c.get_stake(STAKER).unwrap().position.amount, 3_000_000_000);
}

#[test]
fn test_unstake_before_lock_period() {
    let mut c = setup_contract(1000);
    c.stake(STAKER, 5_000_000_000, 1000).unwrap();
    assert_eq!(c.unstake(STAKER, 1_000_000_000, 1000 + 24 * 60 * 60).err(), Some(PoolError::StakeLocked));
}

#[test]
fn test_record_solve() {
    let mut c = setup_contract(1000);
    c.record_solve(ORACLE, 9, 5, 1000).unwrap();
    c.record_solve(ORACLE, 9, 3, 1000).unwrap();
    let epoch_id = c.get_current_epoch_id();
    assert_eq!(c.get_player_solves(9, epoch_id).unwrap().weighted_solves, 8);
    assert_eq!(c.get_epoch(epoch_id).unwrap().total_solves, 8);
}

#[test]
fn test_record_solve_non_oracle() {
    let mut c = setup_contract(0);
    assert_eq!(c.record_solve(STAKER, 9, 5, 0), Err(PoolError::OracleOnly));
}

#[test]
fn test_close_epoch() {
    let mut c = setup_contract(0);
    close_first_epoch(&mut c);
    let epoch = c.get_epoch(0).unwrap();
    assert!(epoch.distributed);
    assert_eq!(epoch.reward_budget, 1_000_000_000_000);
    assert_eq!(c.get_current_epoch_id(), 1);
}

#[test]
fn test_close_epoch_too_early() {
    let mut c = setup_contract(0);
    assert_eq!(c.close_epoch(ADMIN, 1_000_000_000_000, 6 * 24 * 60 * 60), Err(PoolError::EpochNotEnded));
}

#[test]
fn test_claim_solver_reward() {
    let mut c = setup_contract(0);
    c.record_solve(ORACLE, 9, 10, 0).unwrap();
    close_first_epoch(&mut c);
    let (claimed, t) = c.claim_epoch_reward(9, 0).unwrap();
    assert_eq!(claimed, 700_000_000_000);
    assert_eq!(t, Transfer { token: REWARD_TOKEN, from: CONTRACT, to: 9, amount: 700_000_000_000 });
    assert!(c.is_reward_claimed(9, 0));
}

#[test]
fn test_claim_staker_reward() {
    let mut c = setup_contract(0);
    c.stake(STAKER, 10_000_000_000, 0).unwrap();
    close_first_epoch(&mut c);
    let (claimed, t) = c.claim_epoch_reward(STAKER, 0).unwrap();
    assert_eq!(claimed, 300_000_000_000);
    assert_eq!(t.amount, 300_000_000_000);
}

#[test]
fn test_claim_combined_reward() {
    let mut c = setup_contract(0);
    c.stake(STAKER, 10_000_000_000, 0).unwrap();
    c.record_solve(ORACLE, STAKER, 10, 0).unwrap();
    close_first_epoch(&mut c);
    assert_eq!(c.claim_epoch_reward(STAKER, 0).unwrap().0, 1_000_000_000_000);
}

#[test]
fn test_claim_idempotent() {
    let mut c = setup_contract(0);
    c.record_solve(ORACLE, 9, 10, 0).unwrap();
    close_first_epoch(&mut c);
    c.claim_epoch_reward(9, 0).unwrap();
    assert_eq!(c.claim_epoch_reward(9, 0).err(), Some(PoolError::AlreadyClaimed));
}

#[test]
fn test_proportional_reward_distribution() {
    let mut c = setup_contract(0);
    c.record_solve(ORACLE, 8, 10, 0).unwrap();
    c.record_solve(ORACLE, 9, 5, 0).unwrap();
    close_first_epoch(&mut c);
    assert_eq!(c.claim_epoch_reward(8, 0).unwrap().0, 466_666_666_666);
    assert_eq!(c.claim_epoch_reward(9, 0).unwrap().0, 233_333_333_333);
}

#[test]
fn test_get_stake_unclaimed_epochs() {
    let mut c = setup_contract(0);
    c.stake(STAKER, 10_000_000_000, 0).unwrap();
    close_first_epoch(&mut c);
    let info = c.get_stake(STAKER).unwrap();
    assert_eq!(info.position.amount, 10_000_000_000);
    assert_eq!(info.unclaimed_epochs, vec![0]);
}

#[test]
fn test_pause_functionality() {
    let mut c = setup_contract(0);
    c.set_paused(ADMIN, true).unwrap();
    assert!(c.get_config().unwrap().paused);
}

#[test]
fn test_stake_when_paused() {
    let mut c = setup_contract(0);
    c.set_paused(ADMIN, true).unwrap();
    assert_eq!(c.stake(STAKER, 1_000_000_000, 0).err(), Some(PoolError::Paused));
}

#[test]
fn test_update_yield_shares() {
    let mut c = setup_contract(0);
    c.update_yield_shares(ADMIN, 5000, 5000).unwrap();
    let config = c.get_config().unwrap();
    assert_eq!(config.staker_yield_share, 5000);
    assert_eq!(config.solver_yield_share, 5000);
}

#[test]
fn test_invalid_yield_shares() {
    let mut c = setup_contract(0);
    assert_eq!(c.update_yield_shares(ADMIN, 6000, 6000), Err(PoolError::InvalidYieldShares));
}

#[test]
fn test_update_oracle() {
    let mut c = setup_contract(0);
    c.update_oracle(ADMIN, 77).unwrap();
    assert_eq!(c.get_config().unwrap().oracle, 77);
}

#[test]
fn test_admin_only_function() {
    let mut c = setup_contract(0);
    assert_eq!(c.update_oracle(STAKER, 77), Err(PoolError::AdminOnly));
}

#[test]
fn test_stakers_list() {
    let mut c = setup_contract(1000);
    c.stake(21, 1_000_000_000, 1000).unwrap();
    c.stake(22, 2_000_000_000, 1000).unwrap();
    c.stake(23, 3_000_000_000, 1000).unwrap();
    assert_eq!(c.get_all_stakers().len(), 3);
    assert_eq!(c.get_total_staked(), 6_000_000_000);
    c.unstake(22, 2_000_000_000, 1000 + WEEK + 1).unwrap();
    let stakers = c.get_all_stakers();
    assert_eq!(stakers.len(), 2);
    assert!(!stakers.contains(&22));
}

#[test]
fn pool_staking_test_full_lifecycle() {
    let mut c = setup_contract(0);
    c.stake(STAKER, 100_000_000_000, 0).unwrap();
    c.record_solve(ORACLE, STAKER, 20, 0).unwrap();
    close_first_epoch(&mut c);
    assert_eq!(c.claim_epoch_reward(STAKER, 0).unwrap().0, 1_000_000_000_000);
    let t = c.unstake(STAKER, 50_000_000_000, WEEK + 1 + WEEK + 1).unwrap();
    assert_eq!(t.amount, 50_000_000_000);
    assert_eq!(c.get_stake(STAKER).unwrap().position.amount, 50_000_000_000);
}
