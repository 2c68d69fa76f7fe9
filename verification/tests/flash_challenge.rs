use puzzle_contracts::flash_challenge::{ChallengeStatus, FlashChallengeContract, FlashError};
use puzzle_contracts::util::Transfer;

const CONTRACT: u64 = 900;
const ADMIN: u64 = 1;
const TOKEN: u64 = 2;
const ORACLE: u64 = 3;
const P1: u64 = 11;
const P2: u64 = 12;
const P3: u64 = 13;

fn setup() -> (FlashChallengeContract, u32) {
    let mut c = FlashChallengeContract::new(CONTRACT);
    c.initialize(ADMIN, TOKEN, ORACLE).unwrap();
    let (id, funding) = c.schedule(1, 1000, 1_000, 15, 2).unwrap();
    assert_eq!(funding, Transfer { token: TOKEN, from: ADMIN, to: CONTRACT, amount: 1000 });
    (c, id)
}

fn pay(to: u64, amount: i128) -> Transfer {
    Transfer { token: TOKEN, from: CONTRACT, to, amount }
}

#[test]
fn test_flash_challenge_flow() {
    let (mut c, id) = setup();
    assert_eq!(c.submit_solution(id, P1, false, 1_000), Err(FlashError::IncorrectSolution));
    assert_eq!(c.submit_solution(id, P1, true, 1_000), Ok(vec![]));
    let (status, winners, remaining) = c.get_challenge(id, 1_000).unwrap();
    assert_eq!(status, ChallengeStatus::Active);
    assert_eq!(winners.len(), 1);
    assert_eq!(remaining, 15 * 60);
    assert_eq!(c.submit_solution(id, P2, true, 1_000), Ok(vec![pay(P1, 500), pay(P2, 500)]));
    let (status, winners, _) = c.get_challenge(id, 1_000).unwrap();
    assert_eq!(status, ChallengeStatus::Completed);
    assert_eq!(winners, vec![P1, P2]);
    assert!(c.submit_solution(id, P3, true, 1_000).is_err());
}

#[test]
fn test_flash_challenge_expiry() {
    let (mut c, id) = setup();
    c.submit_solution(id, P1, true, 1_000).unwrap();
    let transfers = c.expire_challenge(id, 1_000 + 900 + 1).unwrap();
    assert_eq!(transfers, vec![pay(P1, 500), pay(ADMIN, 500)]);
    assert_eq!(c.get_challenge(id, 1_000 + 900 + 1).unwrap().0, ChallengeStatus::Expired);
}

#[test]
fn flash_challenge_errors() {
    let (mut c, id) = setup();
    assert_eq!(c.submit_solution(id, P1, true, 999), Err(FlashError::NotStarted));
    c.submit_solution(id, P1, true, 1_000).unwrap();
    assert_eq!(c.submit_solution(id, P1, true, 1_000), Err(FlashError::AlreadyWinner));
    assert_eq!(c.expire_challenge(id, 1_000), Err(FlashError::NotEnded));
    assert_eq!(c.submit_solution(77, P1, true, 1_000), Err(FlashError::ChallengeNotFound));
    assert_eq!(c.schedule(1, 0, 1_000, 15, 2).err(), Some(FlashError::InvalidParameters));
}
