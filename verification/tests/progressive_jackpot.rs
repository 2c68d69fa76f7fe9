use puzzle_contracts::progressive_jackpot::{JackpotError, JackpotStatus, ProgressiveJackpot};

const ADMIN: u64 = 1;
const ORACLE: u64 = 2;
const PLAYER: u64 = 3;

fn setup() -> ProgressiveJackpot {
    let mut c = ProgressiveJackpot::new();
    c.init(ADMIN, ORACLE);
    c
}

#[test]
fn test_contribute() {
    let mut c = setup();
    c.contribute(100).unwrap();
    assert_eq!(c.get_jackpot().unwrap().balance, 100);
}

#[test]
fn test_claim_success() {
    let mut c = setup();
    c.contribute(500).unwrap();
    c.set_jackpot_puzzle(1, 1000).unwrap();
    assert_eq!(c.claim_jackpot(1, PLAYER, 0), Ok(500));
    let j = c.get_jackpot().unwrap();
    assert_eq!(j.balance, 0);
    assert_eq!(j.winner, Some(PLAYER));
    assert_eq!(j.status, JackpotStatus::Claimed);
    assert_eq!(c.claim_jackpot(1, PLAYER, 0), Err(JackpotError::NotClaimable));
}

#[test]
fn test_invalid_claim() {
    let mut c = setup();
    assert_eq!(c.claim_jackpot(999, PLAYER, 0), Err(JackpotError::InvalidCycle));
}

#[test]
fn test_rollover() {
    let mut c = setup();
    c.contribute(200).unwrap();
    c.set_jackpot_puzzle(1, 1).unwrap();
    c.rollover().unwrap();
    let j = c.get_jackpot().unwrap();
    assert_eq!(j.cycle_id, 2);
    assert_eq!(j.balance, 200);
    assert_eq!(c.get_jackpot_history(1).unwrap().status, JackpotStatus::Expired);
}

#[test]
fn jackpot_claim_and_rollover_errors() {
    let mut c = setup();
    c.set_jackpot_puzzle(1, 100).unwrap();
    assert_eq!(c.claim_jackpot(1, PLAYER, 101), Err(JackpotError::DeadlinePassed));
    c.claim_jackpot(1, PLAYER, 50).unwrap();
    assert_eq!(c.rollover(), Err(JackpotError::AlreadyClaimed));
    let mut empty = ProgressiveJackpot::new();
    assert_eq!(empty.contribute(1), Err(JackpotError::NotInitialized));
    assert_eq!(empty.get_jackpot_history(1), Err(JackpotError::HistoryNotFound));
}
