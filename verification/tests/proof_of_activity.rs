use puzzle_contracts::proof_of_activity::{ActivityType, ContractError, ProofOfActivityContract};

const ADMIN: u64 = 1;
const ORACLE: u64 = 2;
const PLAYER: u64 = 3;

fn setup() -> ProofOfActivityContract {
    let mut c = ProofOfActivityContract::new();
    c.initialize(ADMIN).unwrap();
    c.add_oracle(ADMIN, ORACLE).unwrap();
    c
}

#[test]
fn proof_of_activity_test_initialize() {
    let mut c = ProofOfActivityContract::new();
    c.initialize(ADMIN).unwrap();
    assert_eq!(c.initialize(ADMIN), Err(ContractError::AlreadyInitialized));
}

#[test]
fn test_record_proof() {
    let mut c = setup();
    let proof_id = c.record_proof(ORACLE, PLAYER, ActivityType::PuzzleSolved, "puzzle_123".to_string(), 100, 7).unwrap();
    assert_eq!(proof_id, 1);
    let proof = c.get_proof(proof_id).unwrap();
    assert_eq!(proof.player, PLAYER);
    assert_eq!(proof.activity_type, 0);
    assert_eq!(proof.score, 100);
    assert_eq!(proof.timestamp, 7);
    assert_eq!(proof.ref_id, "puzzle_123");
}

#[test]
fn test_unauthorized_oracle() {
    let mut c = setup();
    assert_eq!(
        c.record_proof(99, PLAYER, ActivityType::PuzzleSolved, "puzzle_123".to_string(), 100, 0),
        Err(ContractError::Unauthorized)
    );
}

#[test]
fn test_score_aggregation() {
    let mut c = setup();
    c.record_proof(ORACLE, PLAYER, ActivityType::PuzzleSolved, "puzzle_1".to_string(), 100, 0).unwrap();
    c.record_proof(ORACLE, PLAYER, ActivityType::TournamentCompleted, "tournament_1".to_string(), 200, 0).unwrap();
    assert_eq!(c.get_activity_score(PLAYER), 300);
    assert_eq!(c.get_activity_score(77), 0);
}

#[test]
fn removed_oracle_cannot_record() {
    let mut c = setup();
    assert!(c.is_authorized_oracle(ORACLE));
    c.remove_oracle(ADMIN, ORACLE).unwrap();
    assert!(!c.is_authorized_oracle(ORACLE));
    assert_eq!(
        c.record_proof(ORACLE, PLAYER, ActivityType::WaveContributed, "w".to_string(), 1, 0),
        Err(ContractError::Unauthorized)
    );
    assert_eq!(c.get_proof(42).err(), Some(ContractError::ProofNotFound));
}
