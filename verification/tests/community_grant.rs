use puzzle_contracts::community_grant::{
    CommunityGrantContract, GrantError, GrantMilestone, ProposalStatus, VOTING_WINDOW_SECONDS,
};
use puzzle_contracts::util::Transfer;

const CONTRACT: u64 = 200;
const ADMIN: u64 = 1;
const TOKEN: u64 = 2;
const APPLICANT: u64 = 3;
const VOTER1: u64 = 4;
const VOTER2: u64 = 5;
const T0: u64 = 1000;

fn milestone(description: &str, amount: i128) -> GrantMilestone {
    GrantMilestone { description: description.to_string(), amount, claimed: false, verified: false }
}

fn setup() -> CommunityGrantContract {
    let mut c = CommunityGrantContract::new(CONTRACT);
    c.initialize(ADMIN, TOKEN, 1000).unwrap();
    c
}

fn approved(c: &mut CommunityGrantContract, milestones: Vec<GrantMilestone>) -> u64 {
    let id = c.submit_proposal(APPLICANT, 1000, milestones, T0).unwrap();
    c.vote(VOTER1, id, true, 700, T0).unwrap();
    c.vote(VOTER2, id, false, 500, T0).unwrap();
    id
}

const AFTER: u64 = T0 + VOTING_WINDOW_SECONDS + 1;

#[test]
fn test_submit_vote_approve_verify_claim_flow() {
    let mut c = setup();
    let id = approved(&mut c, vec![milestone("m1", 400), milestone("m2", 600)]);
    let p = c.get_proposal(id, AFTER).unwrap();
    assert_eq!(p.status, ProposalStatus::Approved);
    assert_eq!(p.votes_for, 700);
    assert_eq!(p.votes_against, 500);
    assert_eq!(p.approved_at, Some(p.voting_ends_at));
    c.verify_milestone(ADMIN, id, 0, AFTER).unwrap();
    assert!(c.get_proposal(id, AFTER).unwrap().milestones[0].verified);
    let t = c.claim_milestone(APPLICANT, id, 0, AFTER).unwrap();
    assert_eq!(t, Transfer { token: TOKEN, from: CONTRACT, to: APPLICANT, amount: 400 });
    assert!(c.get_proposal(id, AFTER).unwrap().milestones[0].claimed);
}

#[test]
fn test_quorum_required_for_approval() {
    let mut c = setup();
    let id = c.submit_proposal(APPLICANT, 1000, vec![milestone("m1", 1000)], T0).unwrap();
    c.vote(VOTER1, id, true, 700, T0).unwrap();
    let p = c.get_proposal(id, AFTER).unwrap();
    assert_eq!(p.status, ProposalStatus::Rejected);
    assert_eq!(p.votes_for, 700);
    assert_eq!(p.votes_against, 0);
}

#[test]
fn test_voting_window_enforced_at_7_days() {
    let mut c = setup();
    let id = c.submit_proposal(APPLICANT, 1000, vec![milestone("m1", 1000)], T0).unwrap();
    assert!(c.vote(VOTER1, id, true, 700, AFTER).is_err());
}

#[test]
fn community_grant_test_double_claim_rejected() {
    let mut c = setup();
    let id = approved(&mut c, vec![milestone("m1", 1000)]);
    c.verify_milestone(ADMIN, id, 0, AFTER).unwrap();
    c.claim_milestone(APPLICANT, id, 0, AFTER).unwrap();
    assert_eq!(c.claim_milestone(APPLICANT, id, 0, AFTER), Err(GrantError::AlreadyClaimed));
}

#[test]
fn test_claim_requires_admin_verification() {
    let mut c = setup();
    let id = approved(&mut c, vec![milestone("m1", 1000)]);
    assert_eq!(c.claim_milestone(APPLICANT, id, 0, AFTER), Err(GrantError::NotVerified));
}

#[test]
fn grant_errors() {
    let mut c = setup();
    assert_eq!(c.submit_proposal(APPLICANT, 1000, vec![], T0).err(), Some(GrantError::MilestonesRequired));
    assert_eq!(
        c.submit_proposal(APPLICANT, 1000, vec![milestone("m", 999)], T0).err(),
        Some(GrantError::MilestoneTotalMismatch)
    );
    let id = approved(&mut c, vec![milestone("m1", 1000)]);
    assert_eq!(c.vote(VOTER1, id, true, 700, T0), Err(GrantError::AlreadyVoted));
    assert_eq!(c.vote(9, id, true, 0, T0), Err(GrantError::NoVotingPower));
    assert_eq!(c.verify_milestone(VOTER1, id, 0, AFTER), Err(GrantError::AdminOnly));
    assert_eq!(c.verify_milestone(ADMIN, id, 0, T0), Err(GrantError::NotApproved));
    assert_eq!(c.verify_milestone(ADMIN, id, 5, AFTER), Err(GrantError::MilestoneNotFound));
    c.verify_milestone(ADMIN, id, 0, AFTER).unwrap();
    assert_eq!(c.claim_milestone(VOTER1, id, 0, AFTER), Err(GrantError::OnlyApplicant));
}
