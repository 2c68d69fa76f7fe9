use puzzle_contracts::puzzle_crowdfund::{CampaignStatus, CrowdfundError, PuzzleCrowdfund};

const CREATOR: u64 = 1;
const C1: u64 = 2;
const C2: u64 = 3;
const SOLVER: u64 = 4;

fn campaign(c: &mut PuzzleCrowdfund, deadline: u64) -> u64 {
    c.create_campaign(CREATOR, 1, 1000, deadline, 0).unwrap()
}

#[test]
fn lib_test_create_campaign_crowdfund() {
    let mut c = PuzzleCrowdfund::new();
    let id = campaign(&mut c, 1000);
    assert_eq!(id, 1);
    let camp = c.get_campaign(id).unwrap();
    assert_eq!(camp.creator, CREATOR);
    assert_eq!(camp.target_amount, 1000);
    assert_eq!(camp.status, CampaignStatus::Active);
}

#[test]
fn test_contribute_and_activate() {
    let mut c = PuzzleCrowdfund::new();
    let id = campaign(&mut c, 1000);
    c.contribute(id, C1, 600, 10).unwrap();
    let camp = c.get_campaign(id).unwrap();
    assert_eq!(camp.status, CampaignStatus::Active);
    assert_eq!(camp.raised, 600);
    c.contribute(id, C2, 400, 20).unwrap();
    let camp = c.get_campaign(id).unwrap();
    assert_eq!(camp.status, CampaignStatus::Funded);
    assert_eq!(camp.raised, 1000);
    assert_eq!(camp.activated_at, Some(20));
    assert_eq!(camp.contributors, vec![(C1, 600), (C2, 400)]);
}

#[test]
fn test_claim_bounty() {
    let mut c = PuzzleCrowdfund::new();
    let id = campaign(&mut c, 1000);
    c.contribute(id, C1, 1000, 10).unwrap();
    assert_eq!(c.claim_bounty(id, SOLVER, 30), Ok(true));
    let camp = c.get_campaign(id).unwrap();
    assert_eq!(camp.status, CampaignStatus::Claimed);
    assert_eq!(camp.winner, Some(SOLVER));
    assert_eq!(c.claim_bounty(id, SOLVER, 31), Err(CrowdfundError::NotFunded));
}

#[test]
fn test_refund_after_deadline() {
    let mut c = PuzzleCrowdfund::new();
    let id = campaign(&mut c, 100);
    c.contribute(id, C1, 500, 10).unwrap();
    assert_eq!(c.refund(id, C1, 101), Ok(500));
    assert_eq!(c.get_campaign(id).unwrap().status, CampaignStatus::Refunded);
}

#[test]
fn raised_tracks_pledges() {
    let mut c = PuzzleCrowdfund::new();
    let id = campaign(&mut c, 100);
    c.contribute(id, C1, 100, 1).unwrap();
    c.contribute(id, C2, 200, 2).unwrap();
    c.contribute(id, C1, 50, 3).unwrap();
    let camp = c.get_campaign(id).unwrap();
    assert_eq!(camp.raised, 350);
    assert_eq!(camp.contributors, vec![(C1, 150), (C2, 200)]);
    assert_eq!(c.refund(id, C1, 50), Err(CrowdfundError::DeadlineNotPassed));
    assert_eq!(c.refund(id, 9, 101), Err(CrowdfundError::NoContribution));
}

#[test]
fn crowdfund_errors() {
    let mut c = PuzzleCrowdfund::new();
    assert_eq!(c.create_campaign(CREATOR, 1, 0, 10, 0), Err(CrowdfundError::TargetNotPositive));
    assert_eq!(c.create_campaign(CREATOR, 1, 10, 0, 0), Err(CrowdfundError::DeadlineNotInFuture));
    let id = campaign(&mut c, 100);
    assert_eq!(c.contribute(id, C1, 0, 1), Err(CrowdfundError::ContributionNotPositive));
    assert_eq!(c.contribute(id, C1, 10, 101), Err(CrowdfundError::DeadlinePassed));
    assert_eq!(c.contribute(9, C1, 10, 1), Err(CrowdfundError::CampaignNotFound));
}
