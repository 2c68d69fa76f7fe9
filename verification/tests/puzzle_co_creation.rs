use puzzle_contracts::puzzle_co_creation::{
    CoCreationError, CoCreationStatus, CreatorShare, PuzzleCoCreation,
};

const ORACLE: u64 = 1;
const C1: u64 = 11;
const C2: u64 = 12;
const C3: u64 = 13;

fn setup() -> PuzzleCoCreation {
    let mut c = PuzzleCoCreation::new();
    c.initialize(ORACLE).unwrap();
    c
}

fn share(address: u64, share_bps: u32) -> CreatorShare {
    CreatorShare { address, share_bps }
}

fn two_creators(c: &mut PuzzleCoCreation) -> u64 {
    c.initiate(123, vec![share(C1, 7000), share(C2, 3000)], 50).unwrap()
}

#[test]
fn co_creation_test_initialize() {
    let c = setup();
    assert_eq!(c.get_oracle(), Ok(ORACLE));
}

#[test]
fn test_initialize_twice() {
    let mut c = setup();
    assert_eq!(c.initialize(ORACLE), Err(CoCreationError::AlreadyInitialized));
}

#[test]
fn test_initiate() {
    let mut c = setup();
    let id = two_creators(&mut c);
    let cc = c.get_co_creation(id).unwrap();
    assert_eq!(cc.id, id);
    assert_eq!(cc.puzzle_id, 123);
    assert_eq!(cc.status, CoCreationStatus::PendingSignatures);
    assert_eq!(cc.creators.len(), 2);
    assert_eq!(cc.signatures, vec![C1]);
    assert_eq!(cc.created_at, 50);
    assert_eq!(cc.published_at, None);
}

#[test]
fn test_initiate_invalid_share_sum() {
    let mut c = setup();
    assert_eq!(c.initiate(123, vec![share(C1, 5000), share(C2, 4000)], 0), Err(CoCreationError::InvalidShareSum));
}

#[test]
fn test_initiate_invalid_share_value() {
    let mut c = setup();
    assert_eq!(c.initiate(123, vec![share(C1, 0)], 0), Err(CoCreationError::InvalidShare));
    assert_eq!(c.initiate(123, vec![share(C1, 10001)], 0), Err(CoCreationError::InvalidShare));
}

#[test]
fn test_initiate_no_creators() {
    let mut c = setup();
    assert_eq!(c.initiate(123, vec![], 0), Err(CoCreationError::NoCreators));
}

#[test]
fn test_initiate_duplicate_creator() {
    let mut c = setup();
    assert_eq!(c.initiate(123, vec![share(C1, 5000), share(C1, 5000)], 0), Err(CoCreationError::DuplicateCreator));
}

#[test]
fn test_sign() {
    let mut c = setup();
    let id = two_creators(&mut c);
    c.sign(id, C2).unwrap();
    let cc = c.get_co_creation(id).unwrap();
    assert_eq!(cc.signatures.len(), 2);
    assert!(c.has_signed(id, C2));
}

#[test]
fn test_sign_not_creator() {
    let mut c = setup();
    let id = c.initiate(123, vec![share(C1, 10000)], 0).unwrap();
    assert_eq!(c.sign(id, 99), Err(CoCreationError::NotCreator));
}

#[test]
fn test_sign_already_signed() {
    let mut c = setup();
    let id = c.initiate(123, vec![share(C1, 10000)], 0).unwrap();
    assert_eq!(c.sign(id, C1), Err(CoCreationError::AlreadySigned));
}

#[test]
fn test_publish_all_signed() {
    let mut c = setup();
    let id = two_creators(&mut c);
    c.sign(id, C2).unwrap();
    c.publish(id, 77).unwrap();
    let cc = c.get_co_creation(id).unwrap();
    assert_eq!(cc.status, CoCreationStatus::Published);
    assert_eq!(cc.published_at, Some(77));
}

#[test]
fn test_publish_not_all_signed() {
    let mut c = setup();
    let id = c.initiate(123, vec![share(C1, 4000), share(C2, 3000), share(C3, 3000)], 0).unwrap();
    c.sign(id, C2).unwrap();
    assert_eq!(c.publish(id, 1), Err(CoCreationError::NotAllSigned));
}

#[test]
fn test_publish_already_published() {
    let mut c = setup();
    let id = c.initiate(123, vec![share(C1, 10000)], 0).unwrap();
    c.publish(id, 1).unwrap();
    assert_eq!(c.publish(id, 2), Err(CoCreationError::AlreadyPublished));
}

#[test]
fn test_withdraw_signature() {
    let mut c = setup();
    let id = two_creators(&mut c);
    c.sign(id, C2).unwrap();
    c.withdraw_signature(id, C2).unwrap();
    let cc = c.get_co_creation(id).unwrap();
    assert_eq!(cc.signatures.len(), 1);
    assert!(!c.has_signed(id, C2));
}

#[test]
fn test_withdraw_signature_reverts_to_draft() {
    let mut c = setup();
    let id = two_creators(&mut c);
    c.sign(id, C2).unwrap();
    c.withdraw_signature(id, C1).unwrap();
    let cc = c.get_co_creation(id).unwrap();
    assert_eq!(cc.status, CoCreationStatus::Draft);
    assert_eq!(cc.signatures.len(), 0);
}

#[test]
fn test_withdraw_signature_published() {
    let mut c = setup();
    let id = c.initiate(123, vec![share(C1, 10000)], 0).unwrap();
    c.publish(id, 1).unwrap();
    assert_eq!(c.withdraw_signature(id, C1), Err(CoCreationError::AlreadyPublishedWithdraw));
}

#[test]
fn test_withdraw_signature_not_signed() {
    let mut c = setup();
    let id = two_creators(&mut c);
    assert_eq!(c.withdraw_signature(id, C2), Err(CoCreationError::NotSigned));
}

#[test]
fn test_distribute_royalty() {
    let mut c = setup();
    let id = two_creators(&mut c);
    c.sign(id, C2).unwrap();
    c.publish(id, 1).unwrap();
    assert_eq!(c.distribute_royalty(id, 1000), Ok(vec![(C1, 700), (C2, 300)]));
}

#[test]
fn test_distribute_royalty_not_published() {
    let mut c = setup();
    let id = c.initiate(123, vec![share(C1, 10000)], 0).unwrap();
    assert_eq!(c.distribute_royalty(id, 1000), Err(CoCreationError::NotPublished));
}

#[test]
fn test_distribute_royalty_invalid_amount() {
    let mut c = setup();
    let id = c.initiate(123, vec![share(C1, 10000)], 0).unwrap();
    c.publish(id, 1).unwrap();
    assert_eq!(c.distribute_royalty(id, 0), Err(CoCreationError::InvalidAmount));
}

#[test]
fn test_get_co_creation() {
    let mut c = setup();
    let id = c.initiate(456, vec![share(C1, 10000)], 0).unwrap();
    let cc = c.get_co_creation(id).unwrap();
    assert_eq!(cc.id, id);
    assert_eq!(cc.puzzle_id, 456);
    assert_eq!(cc.creators, vec![share(C1, 10000)]);
}

#[test]
fn test_get_co_creation_not_found() {
    let c = setup();
    assert_eq!(c.get_co_creation(999).err(), Some(CoCreationError::NotFound));
}

#[test]
fn royalty_splits_round_down_and_stay_within_total() {
    let mut c = setup();
    let id = c.initiate(1, vec![share(C1, 3333), share(C2, 3333), share(C3, 3334)], 0).unwrap();
    c.sign(id, C2).unwrap();
    c.sign(id, C3).unwrap();
    c.publish(id, 1).unwrap();
    let splits = c.distribute_royalty(id, 100).unwrap();
    assert_eq!(splits, vec![(C1, 33), (C2, 33), (C3, 33)]);
    assert!(splits.iter().map(|s| s.1).sum::<i128>() <= 100);
    // a share too small to earn anything is left out
    assert_eq!(c.distribute_royalty(id, 2), Ok(vec![]));
}

#[test]
fn co_creation_ids_are_sequential() {
    let mut c = setup();
    let a = c.initiate(1, vec![share(C1, 10000)], 0).unwrap();
    let b = c.initiate(2, vec![share(C2, 10000)], 0).unwrap();
    assert_eq!(b, a + 1);
}
