use puzzle_contracts::airdrop_merkle_claim::{AirdropError, AirdropMerkleClaimContract};
use puzzle_contracts::util::Transfer;
use soroban_sdk::testutils::EnvTestConfig;
use soroban_sdk::xdr::ToXdr;
use soroban_sdk::{Bytes, BytesN, Env};

const CONTRACT: u64 = 100;
const ADMIN: u64 = 1;
const CLAIMER: u64 = 2;
const TOKEN: u64 = 3;

fn test_env() -> Env {
    Env::new_with_config(EnvTestConfig { capture_snapshot_at_drop: false })
}

fn setup() -> AirdropMerkleClaimContract {
    let mut c = AirdropMerkleClaimContract::new(CONTRACT);
    c.initialize(ADMIN).unwrap();
    c
}

/// A two-leaf tree: the root over the leaf of (`claimer_xdr`, `amount`)
/// and a sibling hash of sevens.
fn tree(env: &Env, claimer_xdr: &[u8], amount: i128) -> ([u8; 32], [u8; 32]) {
    let mut input = Bytes::from_slice(env, claimer_xdr);
    input.append(&amount.to_xdr(env));
    let leaf = BytesN::<32>::from_array(env, &env.crypto().sha256(&input).to_array());
    let sibling = BytesN::<32>::from_array(env, &[7u8; 32]);
    let mut step = leaf.to_xdr(env);
    step.append(&sibling.to_xdr(env));
    (env.crypto().sha256(&step).to_array(), [7u8; 32])
}

#[test]
fn lib_test_create_campaign() {
    let mut c = setup();
    let (campaign_id, t) = c.create_campaign(ADMIN, [42u8; 32], TOKEN, 1_000_000, 86400, 0).unwrap();
    assert_eq!(campaign_id, 1);
    assert_eq!(t, Transfer { token: TOKEN, from: ADMIN, to: CONTRACT, amount: 1_000_000 });
    let campaign = c.get_campaign(campaign_id).unwrap();
    assert_eq!(campaign.id, 1);
    assert_eq!(campaign.total_allocation, 1_000_000);
    assert_eq!(campaign.claimed_count, 0);
    assert_eq!(campaign.claimed_amount, 0);
    assert_eq!(campaign.status, 0);
}

#[test]
fn test_double_claim_rejection() {
    let mut c = setup();
    let (id, _) = c.create_campaign(ADMIN, [42u8; 32], TOKEN, 1_000_000, 86400, 0).unwrap();
    c.claim_verified(id, CLAIMER, 100_000, true, 10).unwrap();
    assert_eq!(c.claim_verified(id, CLAIMER, 100_000, true, 10), Err(AirdropError::AlreadyClaimed));
    assert!(c.has_claimed(id, CLAIMER));
}

#[test]
fn test_deadline_enforcement() {
    let mut c = setup();
    assert_eq!(c.create_campaign(ADMIN, [42u8; 32], TOKEN, 1_000_000, 0, 0), Err(AirdropError::DeadlineNotInFuture));
    let (id, _) = c.create_campaign(ADMIN, [42u8; 32], TOKEN, 1_000_000, 50, 0).unwrap();
    assert_eq!(c.claim_verified(id, CLAIMER, 100_000, true, 51), Err(AirdropError::CampaignExpired));
}

#[test]
fn test_reclaim_after_expiry() {
    let mut c = setup();
    let (id, _) = c.create_campaign(ADMIN, [42u8; 32], TOKEN, 1_000_000, 1000, 0).unwrap();
    let (unclaimed, t) = c.reclaim_unclaimed(ADMIN, id, 1001).unwrap();
    assert_eq!(unclaimed, 1_000_000);
    assert_eq!(t, Transfer { token: TOKEN, from: CONTRACT, to: ADMIN, amount: 1_000_000 });
    assert_eq!(c.get_campaign(id).unwrap().status, 1);
}

#[test]
fn test_invalid_proof_rejection() {
    let env = test_env();
    let mut c = setup();
    let (id, _) = c.create_campaign(ADMIN, [42u8; 32], TOKEN, 1_000_000, 86400, 0).unwrap();
    let proof = vec![[255u8; 32]];
    assert_eq!(c.claim(&env, id, CLAIMER, &vec![1, 2, 3], 100_000, &proof, 10), Err(AirdropError::InvalidProof));
}

#[test]
fn test_get_campaign() {
    let mut c = setup();
    let (id, _) = c.create_campaign(ADMIN, [42u8; 32], TOKEN, 500_000, 172800, 0).unwrap();
    let campaign = c.get_campaign(id).unwrap();
    assert_eq!(campaign.id, id);
    assert_eq!(campaign.merkle_root, [42u8; 32]);
    assert_eq!(campaign.token, TOKEN);
    assert_eq!(campaign.total_allocation, 500_000);
    assert_eq!(campaign.deadline, 172800);
}

#[test]
fn valid_merkle_proof_is_accepted_once() {
    let env = test_env();
    let claimer_xdr = vec![0u8, 0, 0, 18, 9, 9, 9];
    let (root, sibling) = tree(&env, &claimer_xdr, 100_000);
    let mut c = setup();
    let (id, _) = c.create_campaign(ADMIN, root, TOKEN, 1_000_000, 86400, 0).unwrap();
    assert_eq!(c.verify_proof(&env, id, &claimer_xdr, 100_000, &vec![sibling]), Ok(true));
    assert_eq!(c.verify_proof(&env, id, &claimer_xdr, 100_001, &vec![sibling]), Ok(false));
    assert_eq!(c.verify_proof(&env, id, &claimer_xdr, 100_000, &vec![]), Ok(false));
    let t = c.claim(&env, id, CLAIMER, &claimer_xdr, 100_000, &vec![sibling], 10).unwrap();
    assert_eq!(t, Transfer { token: TOKEN, from: CONTRACT, to: CLAIMER, amount: 100_000 });
    let campaign = c.get_campaign(id).unwrap();
    assert_eq!(campaign.claimed_count, 1);
    assert_eq!(campaign.claimed_amount, 100_000);
    assert_eq!(
        c.claim(&env, id, CLAIMER, &claimer_xdr, 100_000, &vec![sibling], 10),
        Err(AirdropError::AlreadyClaimed)
    );
}

#[test]
fn airdrop_errors() {
    let mut c = setup();
    assert_eq!(c.create_campaign(7, [0u8; 32], TOKEN, 10, 100, 0), Err(AirdropError::AdminOnly));
    assert_eq!(c.create_campaign(ADMIN, [0u8; 32], TOKEN, 0, 100, 0), Err(AirdropError::AllocationNotPositive));
    let (id, _) = c.create_campaign(ADMIN, [0u8; 32], TOKEN, 10, 100, 0).unwrap();
    assert_eq!(c.claim_verified(id, CLAIMER, 0, true, 1), Err(AirdropError::AmountNotPositive));
    assert_eq!(c.claim_verified(9, CLAIMER, 1, true, 1), Err(AirdropError::CampaignNotFound));
    assert_eq!(c.claim_verified(id, CLAIMER, 11, true, 1), Err(AirdropError::InsufficientAllocation));
    assert_eq!(c.claim_verified(id, CLAIMER, 1, false, 1), Err(AirdropError::InvalidProof));
}

#[test]
fn xdr_layouts_used_by_the_proof_check() {
    let env = test_env();
    let bytes = |b: Bytes| b.iter().collect::<Vec<u8>>();
    let mut expected = vec![0u8, 0, 0, 10];
    expected.extend_from_slice(&100i128.to_be_bytes());
    assert_eq!(bytes(100i128.to_xdr(&env)), expected);
    let mut expected = vec![0u8, 0, 0, 10];
    expected.extend_from_slice(&(-2i128).to_be_bytes());
    assert_eq!(bytes((-2i128).to_xdr(&env)), expected);
    let mut expected = vec![0u8, 0, 0, 13, 0, 0, 0, 32];
    expected.extend_from_slice(&[9u8; 32]);
    assert_eq!(bytes(BytesN::<32>::from_array(&env, &[9u8; 32]).to_xdr(&env)), expected);
}
