use puzzle_contracts::achievement_nft::{AchievementError, AchievementNFT};

const ADMIN: u64 = 1;
const ALICE: u64 = 2;
const BOB: u64 = 3;

fn setup() -> AchievementNFT {
    let mut c = AchievementNFT::new();
    c.initialize(ADMIN).unwrap();
    c
}

#[test]
fn mint_requires_completed_puzzle() {
    let mut c = setup();
    assert_eq!(c.mint(ALICE, 7, "meta".to_string(), 5), Err(AchievementError::PuzzleNotCompleted));
    c.mark_puzzle_completed(ALICE, 7).unwrap();
    let id = c.mint(ALICE, 7, "meta".to_string(), 5).unwrap();
    assert_eq!(id, 1);
    assert_eq!(c.owner_of(id), Ok(ALICE));
    assert_eq!(c.total_supply(), 1);
    let a = c.get_achievement(id).unwrap();
    assert_eq!(a.puzzle_id, 7);
    assert_eq!(a.metadata, "meta");
    assert_eq!(a.timestamp, 5);
    assert_eq!(c.get_collection(ALICE), vec![1]);
    assert!(c.has_puzzle(ALICE, 7));
    assert!(!c.has_puzzle(BOB, 7));
}

#[test]
fn initialize_twice_and_uninitialized() {
    let mut c = AchievementNFT::new();
    assert_eq!(c.mark_puzzle_completed(ALICE, 1), Err(AchievementError::NotInitialized));
    assert_eq!(c.craftmint(ALICE, 1, "m".to_string(), 0), Err(AchievementError::NotInitialized));
    c.initialize(ADMIN).unwrap();
    assert_eq!(c.initialize(ADMIN), Err(AchievementError::AlreadyInitialized));
}

#[test]
fn transfer_moves_between_collections() {
    let mut c = setup();
    let a = c.craftmint(ALICE, 1, "a".to_string(), 0).unwrap();
    let b = c.craftmint(ALICE, 2, "b".to_string(), 0).unwrap();
    assert_eq!(c.transfer(ALICE, ALICE, a), Err(AchievementError::SelfTransfer));
    assert_eq!(c.transfer(BOB, ALICE, a), Err(AchievementError::NotOwner));
    assert_eq!(c.transfer(ALICE, BOB, 99), Err(AchievementError::TokenNotFound));
    c.transfer(ALICE, BOB, a).unwrap();
    assert_eq!(c.owner_of(a), Ok(BOB));
    assert_eq!(c.get_collection(ALICE), vec![b]);
    assert_eq!(c.get_collection(BOB), vec![a]);
    assert_eq!(c.puzzle_ids_of(BOB), vec![1]);
}

#[test]
fn supply_counts_existing_achievements() {
    let mut c = setup();
    let a = c.craftmint(ALICE, 1, "a".to_string(), 0).unwrap();
    let b = c.craftmint(BOB, 2, "b".to_string(), 0).unwrap();
    assert_eq!(b, a + 1);
    assert_eq!(c.total_supply(), 2);
    c.burn(a).unwrap();
    assert_eq!(c.total_supply(), 1);
    assert_eq!(c.owner_of(a), Err(AchievementError::TokenNotFound));
    assert_eq!(c.get_collection(ALICE).len(), 0);
    assert_eq!(c.burn(a), Err(AchievementError::TokenNotFound));
    let next = c.craftmint(ALICE, 3, "c".to_string(), 0).unwrap();
    assert_eq!(next, b + 1);
}
