use puzzle_contracts::clawback_reward::{ClawbackError, ClawbackRewardContract, RewardStatus};
use puzzle_contracts::util::Transfer;

const ADMIN: u64 = 1;
const TOKEN: u64 = 2;
const POOL: u64 = 3;
const RECIPIENT: u64 = 10;
const WINDOW: u64 = 100;

fn contract() -> ClawbackRewardContract {
    ClawbackRewardContract::new(ADMIN, TOKEN, POOL, WINDOW)
}

#[test]
fn test_record_reward() {
    let mut c = contract();
    let reward_id = c.record_reward(RECIPIENT, 100, 1000).unwrap();
    let record = c.get_reward(reward_id).unwrap();
    assert_eq!(record.amount, 100);
    assert_eq!(record.status, RewardStatus::Active);
    assert_eq!(record.issued_at, 1000);
    assert_eq!(record.recipient, RECIPIENT);
    assert!(record.flag_reason.is_none());
}

#[test]
fn test_flag_and_clawback() {
    let mut c = contract();
    let reward_id = c.record_reward(RECIPIENT, 200, 1000).unwrap();
    c.flag_reward(ADMIN, reward_id, "fraud".to_string(), 1000).unwrap();
    let t = c.execute_clawback(ADMIN, reward_id, 1000).unwrap();
    assert_eq!(t, Transfer { token: TOKEN, from: RECIPIENT, to: POOL, amount: 200 });
    let record = c.get_reward(reward_id).unwrap();
    assert_eq!(record.status, RewardStatus::ClawedBack);
    assert_eq!(record.flag_reason.as_deref(), Some("fraud"));
}

#[test]
fn test_lock_reward() {
    let mut c = contract();
    let reward_id = c.record_reward(RECIPIENT, 300, 1000).unwrap();
    c.lock_reward(reward_id, 1000 + WINDOW).unwrap();
    let record = c.get_reward(reward_id).unwrap();
    assert_eq!(record.status, RewardStatus::Locked);
}

#[test]
fn reward_ids_are_sequential() {
    let mut c = contract();
    assert_eq!(c.record_reward(RECIPIENT, 1, 0), Ok(0));
    assert_eq!(c.record_reward(RECIPIENT, 2, 0), Ok(1));
    assert_eq!(c.record_reward(11, 3, 0), Ok(2));
}

#[test]
fn clawback_errors() {
    let mut c = contract();
    let id = c.record_reward(RECIPIENT, 50, 1000).unwrap();
    assert_eq!(c.flag_reward(99, id, "x".to_string(), 1000), Err(ClawbackError::NotAdmin));
    assert_eq!(c.flag_reward(ADMIN, 7, "x".to_string(), 1000), Err(ClawbackError::RewardNotFound));
    assert_eq!(c.execute_clawback(ADMIN, id, 1000), Err(ClawbackError::NotFlagged));
    assert_eq!(c.flag_reward(ADMIN, id, "x".to_string(), 1000 + WINDOW), Err(ClawbackError::WindowClosed));
    assert_eq!(c.lock_reward(id, 1000 + WINDOW - 1), Err(ClawbackError::WindowOpen));
    c.flag_reward(ADMIN, id, "x".to_string(), 1050).unwrap();
    assert_eq!(c.execute_clawback(ADMIN, id, 1000 + WINDOW), Err(ClawbackError::WindowClosed));
    c.lock_reward(id, 1000 + WINDOW).unwrap();
    assert_eq!(c.execute_clawback(ADMIN, id, 1050), Err(ClawbackError::NotActive));
    assert_eq!(c.lock_reward(id, 5000), Err(ClawbackError::NotActive));
    assert_eq!(c.get_reward(9).err(), Some(ClawbackError::RewardNotFound));
}

#[test]
fn clawed_back_reward_is_final() {
    let mut c = contract();
    let id = c.record_reward(RECIPIENT, 50, 0).unwrap();
    c.flag_reward(ADMIN, id, "cheat".to_string(), 10).unwrap();
    c.execute_clawback(ADMIN, id, 10).unwrap();
    assert_eq!(c.flag_reward(ADMIN, id, "again".to_string(), 20), Err(ClawbackError::NotActive));
    assert_eq!(c.execute_clawback(ADMIN, id, 20), Err(ClawbackError::NotActive));
    assert_eq!(c.lock_reward(id, 500), Err(ClawbackError::NotActive));
}

#[test]
fn clawback_history_lists_clawed_back_rewards_of_recipient() {
    let mut c = contract();
    let a = c.record_reward(RECIPIENT, 10, 0).unwrap();
    let _b = c.record_reward(RECIPIENT, 20, 0).unwrap();
    let other = c.record_reward(11, 30, 0).unwrap();
    let d = c.record_reward(RECIPIENT, 40, 0).unwrap();
    for id in [a, other, d] {
        c.flag_reward(ADMIN, id, "r".to_string(), 1).unwrap();
        c.execute_clawback(ADMIN, id, 1).unwrap();
    }
    let h = c.get_clawback_history(RECIPIENT);
    let ids: Vec<u64> = h.iter().map(|r| r.id).collect();
    assert_eq!(ids, vec![a, d]);
    assert_eq!(c.get_clawback_history(12).len(), 0);
}
