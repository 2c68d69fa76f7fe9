use puzzle_contracts::puzzle_insurance::{InsuranceError, PuzzleInsuranceContract};
use puzzle_contracts::util::Transfer;

const CONTRACT: u64 = 900;
const ADMIN: u64 = 1;
const TOKEN: u64 = 2;
const USER: u64 = 3;
const NOW: u64 = 10_000;

fn setup() -> PuzzleInsuranceContract {
    let mut c = PuzzleInsuranceContract::new(CONTRACT);
    c.initialize(ADMIN, TOKEN, 1000).unwrap();
    c
}

fn buy(c: &mut PuzzleInsuranceContract, attempts: u32, duration: u64, coverage: u32) -> u64 {
    c.purchase_policy(USER, attempts, duration, coverage, NOW).unwrap().0
}

#[test]
fn insurance_test_initialize() {
    let c = setup();
    let config = c.config.unwrap();
    assert_eq!(config.admin, ADMIN);
    assert_eq!(config.payment_token, TOKEN);
    assert_eq!(config.base_rate, 1000);
    assert_eq!(config.max_coverage_percent, 8000);
}

#[test]
fn test_purchase_policy() {
    let mut c = setup();
    let (policy_id, t) = c.purchase_policy(USER, 5, 86400, 5000, NOW).unwrap();
    assert_eq!(policy_id, 1);
    assert_eq!(t, Transfer { token: TOKEN, from: USER, to: CONTRACT, amount: 2500 });
    let policy = c.get_policy(policy_id, NOW).unwrap();
    assert_eq!(policy.holder, USER);
    assert_eq!(policy.attempts_covered, 5);
    assert_eq!(policy.attempts_used, 0);
    assert_eq!(policy.coverage_percent, 5000);
    assert_eq!(policy.premium_paid, 2500);
    assert!(policy.active);
}

#[test]
fn test_purchase_policy_exceeds_max_coverage() {
    let mut c = setup();
    assert_eq!(c.purchase_policy(USER, 5, 86400, 9000, NOW).err(), Some(InsuranceError::CoverageTooHigh));
}

#[test]
fn test_purchase_policy_invalid_attempts() {
    let mut c = setup();
    assert_eq!(c.purchase_policy(USER, 0, 86400, 5000, NOW).err(), Some(InsuranceError::InvalidAttempts));
}

#[test]
fn test_file_claim_valid() {
    let mut c = setup();
    let id = buy(&mut c, 3, 86400, 5000);
    let (payout, t) = c.file_claim(id, 1000, NOW).unwrap();
    assert_eq!(payout, 500);
    assert_eq!(t, Transfer { token: TOKEN, from: CONTRACT, to: USER, amount: 500 });
    let policy = c.get_policy(id, NOW).unwrap();
    assert_eq!(policy.attempts_used, 1);
    assert!(policy.active);
}

#[test]
fn test_file_claim_inactive_policy() {
    let mut c = setup();
    let id = buy(&mut c, 1, 86400, 5000);
    c.expire_policy(id).unwrap();
    assert_eq!(c.file_claim(id, 1000, NOW).err(), Some(InsuranceError::PolicyNotActive));
}

#[test]
fn test_file_claim_exhausted_attempts() {
    let mut c = setup();
    let id = buy(&mut c, 2, 86400, 5000);
    c.file_claim(id, 1000, NOW).unwrap();
    c.file_claim(id, 1000, NOW).unwrap();
    assert_eq!(c.file_claim(id, 1000, NOW).err(), Some(InsuranceError::NoAttemptsRemaining));
}

#[test]
fn test_policy_expires_by_time() {
    let mut c = setup();
    let id = buy(&mut c, 3, 86400, 5000);
    let policy = c.get_policy(id, NOW + 86401).unwrap();
    assert!(!policy.active);
}

#[test]
fn test_policy_expires_by_attempts() {
    let mut c = setup();
    let id = buy(&mut c, 2, 86400, 5000);
    c.file_claim(id, 1000, NOW).unwrap();
    c.file_claim(id, 1000, NOW).unwrap();
    assert!(!c.get_policy(id, NOW).unwrap().active);
}

#[test]
fn test_get_user_policies() {
    let mut c = setup();
    let p1 = buy(&mut c, 3, 86400, 5000);
    let p2 = buy(&mut c, 2, 86400, 7000);
    let ps = c.get_user_policies(USER);
    assert_eq!(ps.len(), 2);
    assert!(ps.contains(&p1));
    assert!(ps.contains(&p2));
}

#[test]
fn test_premium_calculation() {
    let mut c = setup();
    let p1 = buy(&mut c, 1, 86400, 2500);
    assert_eq!(p1, 1);
    assert_eq!(c.get_policy(p1, NOW).unwrap().premium_paid, 250);
    let p2 = buy(&mut c, 2, 86400, 7500);
    assert_eq!(p2, 2);
    assert_eq!(c.get_policy(p2, NOW).unwrap().premium_paid, 1500);
}

#[test]
fn test_file_claim_invalid_amount() {
    let mut c = setup();
    let id = buy(&mut c, 3, 86400, 5000);
    assert_eq!(c.file_claim(id, -100, NOW).err(), Some(InsuranceError::LossNotPositive));
}

#[test]
fn test_file_claim_nonexistent_policy() {
    let mut c = setup();
    assert_eq!(c.file_claim(999, 1000, NOW).err(), Some(InsuranceError::PolicyNotFound));
}

#[test]
fn test_manual_policy_expiry() {
    let mut c = setup();
    let id = buy(&mut c, 3, 86400, 5000);
    c.expire_policy(id).unwrap();
    assert!(!c.get_policy(id, NOW).unwrap().active);
}

#[test]
fn test_expire_already_inactive_policy() {
    let mut c = setup();
    let id = buy(&mut c, 1, 86400, 5000);
    c.expire_policy(id).unwrap();
    assert_eq!(c.expire_policy(id), Err(InsuranceError::PolicyAlreadyInactive));
}

#[test]
fn test_payout_calculation() {
    let mut c = setup();
    let id = buy(&mut c, 3, 86400, 3000);
    assert_eq!(c.file_claim(id, 10000, NOW).unwrap().0, 3000);
    assert_eq!(c.file_claim(id, 5000, NOW).unwrap().0, 1500);
}

#[test]
fn test_maximum_duration() {
    let mut c = setup();
    let max_duration = 365 * 24 * 60 * 60;
    let id = buy(&mut c, 1, max_duration, 5000);
    let policy = c.get_policy(id, NOW).unwrap();
    assert!(policy.active);
    assert_eq!(policy.expires_at, NOW + max_duration);
}

#[test]
fn test_duration_too_long() {
    let mut c = setup();
    assert_eq!(c.purchase_policy(USER, 1, 366 * 24 * 60 * 60, 5000, NOW).err(), Some(InsuranceError::InvalidDuration));
}

#[test]
fn payout_never_exceeds_loss() {
    let mut c = setup();
    let id = buy(&mut c, 3, 86400, 8000);
    let (payout, _) = c.file_claim(id, 7, NOW).unwrap();
    assert_eq!(payout, 5);
    assert!(payout <= 7);
}
