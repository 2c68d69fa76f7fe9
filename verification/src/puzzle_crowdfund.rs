//! Crowdfunded puzzle bounties: contributors pledge toward a target before a
//! deadline; a funded campaign's bounty goes to the first solver, and an
//! unfunded one refunds each contributor after the deadline.
use vstd::prelude::*;
use std::collections::HashMap;
use crate::util::{AccountId, first_index_of};

verus! {

broadcast use vstd::std_specs::hash::group_hash_axioms;

#[derive(Clone, Copy, Debug, PartialEq, Eq, Structural)]
pub enum CampaignStatus {
    Active,
    Funded,
    Claimed,
    Refunded,
}

pub struct CrowdfundCampaign {
    pub id: u64,
    pub puzzle_id: u64,
    pub creator: AccountId,
    pub target_amount: i128,
    pub raised: i128,
    pub deadline: u64,
    pub status: CampaignStatus,
    /// Each contributor with the total it pledged, in order of first pledge.
    pub contributors: Vec<(AccountId, i128)>,
    pub winner: Option<AccountId>,
    pub created_at: u64,
    pub activated_at: Option<u64>,
    pub claimed_at: Option<u64>,
}

#[derive(Clone, Copy, Debug, PartialEq, Eq, Structural)]
pub enum CrowdfundError {
    TargetNotPositive,
    DeadlineNotInFuture,
    ContributionNotPositive,
    CampaignNotFound,
    NotAcceptingContributions,
    DeadlinePassed,
    NotFunded,
    BountyAlreadyClaimed,
    NotRefundable,
    DeadlineNotPassed,
    TargetReached,
    NoContribution,
    Overflow,
}

/// The storage of the contract.
pub struct PuzzleCrowdfund {
    pub campaign_counter: u64,
    pub campaigns: HashMap<u64, CrowdfundCampaign>,
}

/// The contributors of a list of pledges.
pub open spec fn keys(s: Seq<(AccountId, i128)>) -> Seq<AccountId> {
    s.map_values(|p: (AccountId, i128)| p.0)
}

/// The total of a list of pledges.
pub open spec fn sum_pledges(s: Seq<(AccountId, i128)>) -> int
    decreases s.len(),
{
    if s.len() == 0 {
        0
    } else {
        sum_pledges(s.drop_last()) + s.last().1
    }
}

/// What `who` pledged (0 where it did not).
pub open spec fn pledged(s: Seq<(AccountId, i128)>, who: AccountId) -> int {
    match first_index_of(keys(s), who) {
        Some(i) => s[i].1 as int,
        None => 0,
    }
}

/// Changing one pledge changes the total by the difference.
pub proof fn lemma_sum_update(s: Seq<(AccountId, i128)>, i: int, p: (AccountId, i128))
    requires
        0 <= i < s.len(),
    ensures
        sum_pledges(s.update(i, p)) == sum_pledges(s) - s[i].1 + p.1,
    decreases s.len(),
{
    if i < s.len() - 1 {
        assert(s.update(i, p).drop_last() =~= s.drop_last().update(i, p));
        lemma_sum_update(s.drop_last(), i, p);
    } else {
        assert(s.update(i, p).drop_last() =~= s.drop_last());
    }
}

/// Dropping one pledge lowers the total by it.
pub proof fn lemma_sum_remove(s: Seq<(AccountId, i128)>, i: int)
    requires
        0 <= i < s.len(),
    ensures
        sum_pledges(s.remove(i)) == sum_pledges(s) - s[i].1,
    decreases s.len(),
{
    if i < s.len() - 1 {
        assert(s.remove(i).drop_last() =~= s.drop_last().remove(i));
        lemma_sum_remove(s.drop_last(), i);
    } else {
        assert(s.remove(i) =~= s.drop_last());
    }
}

/// Every pledge is positive, so the total is at least each of them.
pub proof fn lemma_sum_bounds(s: Seq<(AccountId, i128)>, i: int)
    requires
        0 <= i < s.len(),
        forall|j: int| 0 <= j < s.len() ==> (#[trigger] s[j]).1 > 0,
    ensures
        sum_pledges(s) >= s[i].1,
    decreases s.len(),
{
    if i < s.len() - 1 {
        lemma_sum_bounds(s.drop_last(), i);
        lemma_sum_nonneg(s.drop_last());
    } else {
        lemma_sum_nonneg(s.drop_last());
    }
}

pub proof fn lemma_sum_nonneg(s: Seq<(AccountId, i128)>)
    requires
        forall|j: int| 0 <= j < s.len() ==> (#[trigger] s[j]).1 > 0,
    ensures
        sum_pledges(s) >= 0,
    decreases s.len(),
{
    if s.len() > 0 {
        lemma_sum_nonneg(s.drop_last());
    }
}

/// The position of the first pledge of `who`, if any.
fn find_pledge(s: &Vec<(AccountId, i128)>, who: AccountId) -> (r: Option<usize>)
    ensures
        match r {
            Some(i) => first_index_of(keys(s@), who) == Some(i as int) && i < s@.len() && s@[i as int].0 == who,
            None => first_index_of(keys(s@), who) is None,
        },
{
    let mut i: usize = 0;
    while i < s.len()
        invariant
            i <= s.len(),
            forall|j: int| 0 <= j < i ==> (#[trigger] s@[j]).0 != who,
        decreases s.len() - i,
    {
        if s[i].0 == who {
            proof {
                let ks = keys(s@);
                assert(ks[i as int] == who);
                assert(ks.contains(who));
                let c = choose|c: int| 0 <= c < ks.len() && ks[c] == who && forall|j: int| 0 <= j < c ==> ks[j] != who;
                assert(c == i as int) by {
                    if c < i {
                        assert(s@[c].0 != who);
                    }
                    if i < c {
                        assert(ks[i as int] != who);
                    }
                }
            }
            return Some(i);
        }
        i = i + 1;
    }
    proof {
        let ks = keys(s@);
        assert(!ks.contains(who)) by {
            if ks.contains(who) {
                let c = choose|c: int| 0 <= c < ks.len() && ks[c] == who;
                assert(s@[c].0 == who);
            }
        }
    }
    None
}

impl CrowdfundCampaign {
    pub open spec fn same(&self, other: &CrowdfundCampaign) -> bool {
        &&& self.id == other.id
        &&& self.puzzle_id == other.puzzle_id
        &&& self.creator == other.creator
        &&& self.target_amount == other.target_amount
        &&& self.raised == other.raised
        &&& self.deadline == other.deadline
        &&& self.status == other.status
        &&& self.contributors@ == other.contributors@
        &&& self.winner == other.winner
        &&& self.created_at == other.created_at
        &&& self.activated_at == other.activated_at
        &&& self.claimed_at == other.claimed_at
    }

    /// The amount raised is the total of the pledges, each positive.
    pub open spec fn wf(&self) -> bool {
        &&& self.raised == sum_pledges(self.contributors@)
        &&& forall|j: int| 0 <= j < self.contributors@.len() ==> (#[trigger] self.contributors@[j]).1 > 0
    }

    pub fn copy(&self) -> (r: CrowdfundCampaign)
        ensures
            r.same(self),
    {
        CrowdfundCampaign {
            id: self.id,
            puzzle_id: self.puzzle_id,
            creator: self.creator,
            target_amount: self.target_amount,
            raised: self.raised,
            deadline: self.deadline,
            status: self.status,
            contributors: crate::util::copy_vec(&self.contributors),
            winner: self.winner,
            created_at: self.created_at,
            activated_at: self.activated_at,
            claimed_at: self.claimed_at,
        }
    }
}

impl PuzzleCrowdfund {
    pub open spec fn wf(&self) -> bool {
        forall|id: u64| #[trigger] self.campaigns@.contains_key(id) ==> self.campaigns@[id].wf()
    }

    /// Every campaign but `id` is unchanged from `other`.
    pub open spec fn others_same(&self, other: &Self, id: u64) -> bool {
        &&& self.campaigns@.dom() == other.campaigns@.dom()
        &&& forall|k: u64| k != id && #[trigger] other.campaigns@.contains_key(k) ==> self.campaigns@[k]
            == other.campaigns@[k]
        &&& self.campaign_counter == other.campaign_counter
    }

    /// An empty contract.
    pub fn new() -> (r: Self)
        ensures
            r.campaign_counter == 0,
            r.campaigns@ == Map::<u64, CrowdfundCampaign>::empty(),
            r.wf(),
    {
        PuzzleCrowdfund { campaign_counter: 0, campaigns: HashMap::new() }
    }

    /// Opens a campaign toward `target_amount` until `deadline`; returns its id.
    pub fn create_campaign(&mut self, creator: AccountId, puzzle_id: u64, target_amount: i128, deadline: u64, now: u64) -> (r:
        Result<u64, CrowdfundError>)
        requires
            old(self).wf(),
        ensures
            final(self).wf(),
            target_amount <= 0 ==> r == Err::<u64, CrowdfundError>(CrowdfundError::TargetNotPositive) && *final(self)
                == *old(self),
            target_amount > 0 && deadline <= now ==> r == Err::<u64, CrowdfundError>(
                CrowdfundError::DeadlineNotInFuture,
            ) && *final(self) == *old(self),
            target_amount > 0 && deadline > now && old(self).campaign_counter == u64::MAX ==> r == Err::<
                u64,
                CrowdfundError,
            >(CrowdfundError::Overflow) && *final(self) == *old(self),
            target_amount > 0 && deadline > now && old(self).campaign_counter < u64::MAX ==> {
                let id = (old(self).campaign_counter + 1) as u64;
                let c = final(self).campaigns@[id];
                &&& r == Ok::<u64, CrowdfundError>(id)
                &&& final(self).campaign_counter == id
                &&& final(self).campaigns@.dom() == old(self).campaigns@.dom().insert(id)
                &&& forall|k: u64| k != id && #[trigger] old(self).campaigns@.contains_key(k)
                    ==> final(self).campaigns@[k] == old(self).campaigns@[k]
                &&& c.id == id && c.puzzle_id == puzzle_id && c.creator == creator
                &&& c.target_amount == target_amount && c.raised == 0 && c.deadline == deadline
                &&& c.status == CampaignStatus::Active && c.contributors@.len() == 0 && c.winner is None
                &&& c.created_at == now && c.activated_at is None && c.claimed_at is None
            },
    {
        if target_amount <= 0 {
            return Err(CrowdfundError::TargetNotPositive);
        }
        if deadline <= now {
            return Err(CrowdfundError::DeadlineNotInFuture);
        }
        if self.campaign_counter == u64::MAX {
            return Err(CrowdfundError::Overflow);
        }
        let id = self.campaign_counter + 1;
        let ghost old_campaigns = self.campaigns@;
        self.campaigns.insert(
            id,
            CrowdfundCampaign {
                id,
                puzzle_id,
                creator,
                target_amount,
                raised: 0,
                deadline,
                status: CampaignStatus::Active,
                contributors: Vec::new(),
                winner: None,
                created_at: now,
                activated_at: None,
                claimed_at: None,
            },
        );
        self.campaign_counter = id;
        assert(self.campaigns@.dom() =~= old_campaigns.dom().insert(id));
        assert forall|k: u64| #[trigger] self.campaigns@.contains_key(k) implies self.campaigns@[k].wf() by {
            if k != id {
                assert(old_campaigns.contains_key(k));
            }
        }
        Ok(id)
    }

    /// The error of `contribute`, checked in the order of the contract.
    pub open spec fn contribute_error(&self, campaign_id: u64, contributor: AccountId, amount: i128, now: u64) -> Option<
        CrowdfundError,
    > {
        if amount <= 0 {
            Some(CrowdfundError::ContributionNotPositive)
        } else if !self.campaigns@.contains_key(campaign_id) {
            Some(CrowdfundError::CampaignNotFound)
        } else if self.campaigns@[campaign_id].status != CampaignStatus::Active {
            Some(CrowdfundError::NotAcceptingContributions)
        } else if now > self.campaigns@[campaign_id].deadline {
            Some(CrowdfundError::DeadlinePassed)
        } else if self.campaigns@[campaign_id].raised + amount > i128::MAX {
            Some(CrowdfundError::Overflow)
        } else {
            None
        }
    }

    /// Adds `amount` to `contributor`'s pledge at time `now`; the campaign is
    /// funded once the amount raised reaches the target.
    pub fn contribute(&mut self, campaign_id: u64, contributor: AccountId, amount: i128, now: u64) -> (r: Result<
        bool,
        CrowdfundError,
    >)
        requires
            old(self).wf(),
        ensures
            final(self).wf(),
            match old(self).contribute_error(campaign_id, contributor, amount, now) {
                Some(e) => r == Err::<bool, CrowdfundError>(e) && *final(self) == *old(self),
                None => {
                    let c = old(self).campaigns@[campaign_id];
                    let nc = final(self).campaigns@[campaign_id];
                    let raised = c.raised + amount;
                    &&& r == Ok::<bool, CrowdfundError>(true)
                    &&& nc.contributors@ == match first_index_of(keys(c.contributors@), contributor) {
                        Some(i) => c.contributors@.update(i, (contributor, (c.contributors@[i].1 + amount) as i128)),
                        None => c.contributors@.push((contributor, amount)),
                    }
                    &&& pledged(nc.contributors@, contributor) == pledged(c.contributors@, contributor) + amount
                    &&& nc.raised == raised
                    &&& nc.status == if raised >= c.target_amount { CampaignStatus::Funded } else { CampaignStatus::Active }
                    &&& nc.activated_at == if raised >= c.target_amount { Some(now) } else { c.activated_at }
                    &&& nc.id == c.id && nc.puzzle_id == c.puzzle_id && nc.creator == c.creator
                    &&& nc.target_amount == c.target_amount && nc.deadline == c.deadline && nc.winner == c.winner
                    &&& nc.created_at == c.created_at && nc.claimed_at == c.claimed_at
                    &&& final(self).others_same(old(self), campaign_id)
                },
            },
    {
        if amount <= 0 {
            return Err(CrowdfundError::ContributionNotPositive);
        }
        match self.campaigns.get(&campaign_id) {
            Some(c) => {
                if c.status != CampaignStatus::Active {
                    return Err(CrowdfundError::NotAcceptingContributions);
                }
                if now > c.deadline {
                    return Err(CrowdfundError::DeadlinePassed);
                }
                if c.raised > i128::MAX - amount {
                    return Err(CrowdfundError::Overflow);
                }
            },
            None => return Err(CrowdfundError::CampaignNotFound),
        }
        let ghost old_campaigns = self.campaigns@;
        let mut c = self.campaigns.remove(&campaign_id).unwrap();
        assert(old_campaigns.contains_key(campaign_id));
        assert(c.wf());
        let ghost before = c.contributors@;
        match find_pledge(&c.contributors, contributor) {
            Some(i) => {
                proof {
                    lemma_sum_bounds(before, i as int);
                }
                let prev = c.contributors[i].1;
                c.contributors.set(i, (contributor, prev + amount));
                proof {
                    lemma_sum_update(before, i as int, (contributor, (prev + amount) as i128));
                    assert(keys(c.contributors@) =~= keys(before));
                }
            },
            None => {
                c.contributors.push((contributor, amount));
                proof {
                    assert(c.contributors@.drop_last() =~= before);
                    let ks = keys(c.contributors@);
                    assert(ks =~= keys(before).push(contributor));
                    assert(ks[ks.len() - 1] == contributor);
                    let k = choose|k: int| 0 <= k < ks.len() && ks[k] == contributor && forall|j: int| 0 <= j < k ==> ks[j] != contributor;
                    assert(k == ks.len() - 1) by {
                        if k < ks.len() - 1 {
                            assert(keys(before)[k] == contributor);
                            assert(keys(before).contains(contributor));
                        }
                    }
                }
            },
        }
        c.raised = c.raised + amount;
        if c.raised >= c.target_amount {
            c.status = CampaignStatus::Funded;
            c.activated_at = Some(now);
        }
        self.campaigns.insert(campaign_id, c);
        assert(self.campaigns@.dom() =~= old_campaigns.dom());
        assert forall|k: u64| #[trigger] self.campaigns@.contains_key(k) implies self.campaigns@[k].wf() by {
            if k != campaign_id {
                assert(old_campaigns.contains_key(k));
            }
        }
        Ok(true)
    }

    /// Gives a funded campaign's bounty to the first `solver` at time `now`.
    pub fn claim_bounty(&mut self, campaign_id: u64, solver: AccountId, now: u64) -> (r: Result<bool, CrowdfundError>)
        requires
            old(self).wf(),
        ensures
            final(self).wf(),
            !old(self).campaigns@.contains_key(campaign_id) ==> r == Err::<bool, CrowdfundError>(
                CrowdfundError::CampaignNotFound,
            ) && *final(self) == *old(self),
            old(self).campaigns@.contains_key(campaign_id) && old(self).campaigns@[campaign_id].status
                != CampaignStatus::Funded ==> r == Err::<bool, CrowdfundError>(CrowdfundError::NotFunded) && *final(
                self) == *old(self),
            old(self).campaigns@.contains_key(campaign_id) && old(self).campaigns@[campaign_id].status
                == CampaignStatus::Funded && old(self).campaigns@[campaign_id].winner is Some ==> r == Err::<
                bool,
                CrowdfundError,
            >(CrowdfundError::BountyAlreadyClaimed) && *final(self) == *old(self),
            old(self).campaigns@.contains_key(campaign_id) && old(self).campaigns@[campaign_id].status
                == CampaignStatus::Funded && old(self).campaigns@[campaign_id].winner is None ==> {
                let c = old(self).campaigns@[campaign_id];
                &&& r == Ok::<bool, CrowdfundError>(true)
                &&& final(self).campaigns@ == old(self).campaigns@.insert(
                    campaign_id,
                    CrowdfundCampaign {
                        winner: Some(solver),
                        status: CampaignStatus::Claimed,
                        claimed_at: Some(now),
                        ..c
                    },
                )
                &&& final(self).campaign_counter == old(self).campaign_counter
            },
    {
        match self.campaigns.get(&campaign_id) {
            Some(c) => {
                if c.status != CampaignStatus::Funded {
                    return Err(CrowdfundError::NotFunded);
                }
                if c.winner.is_some() {
                    return Err(CrowdfundError::BountyAlreadyClaimed);
                }
            },
            None => return Err(CrowdfundError::CampaignNotFound),
        }
        let ghost old_campaigns = self.campaigns@;
        let mut c = self.campaigns.remove(&campaign_id).unwrap();
        c.winner = Some(solver);
        c.status = CampaignStatus::Claimed;
        c.claimed_at = Some(now);
        self.campaigns.insert(campaign_id, c);
        assert forall|k: u64| #[trigger] self.campaigns@.contains_key(k) implies self.campaigns@[k].wf() by {
            assert(old_campaigns.contains_key(k));
        }
        Ok(true)
    }

    /// The error of `refund`, checked in the order of the contract.
    pub open spec fn refund_error(&self, campaign_id: u64, contributor: AccountId, now: u64) -> Option<CrowdfundError> {
        if !self.campaigns@.contains_key(campaign_id) {
            Some(CrowdfundError::CampaignNotFound)
        } else if self.campaigns@[campaign_id].status != CampaignStatus::Active {
            Some(CrowdfundError::NotRefundable)
        } else if now <= self.campaigns@[campaign_id].deadline {
            Some(CrowdfundError::DeadlineNotPassed)
        } else if self.campaigns@[campaign_id].raised >= self.campaigns@[campaign_id].target_amount {
            Some(CrowdfundError::TargetReached)
        } else if pledged(self.campaigns@[campaign_id].contributors@, contributor) <= 0 {
            Some(CrowdfundError::NoContribution)
        } else {
            None
        }
    }

    /// Returns `contributor`'s pledge from an unfunded campaign past its
    /// deadline; the campaign is refunded once nothing is left. Returns the
    /// amount refunded.
    pub fn refund(&mut self, campaign_id: u64, contributor: AccountId, now: u64) -> (r: Result<i128, CrowdfundError>)
        requires
            old(self).wf(),
        ensures
            final(self).wf(),
            match old(self).refund_error(campaign_id, contributor, now) {
                Some(e) => r == Err::<i128, CrowdfundError>(e) && *final(self) == *old(self),
                None => {
                    let c = old(self).campaigns@[campaign_id];
                    let nc = final(self).campaigns@[campaign_id];
                    let amount = pledged(c.contributors@, contributor);
                    let raised = c.raised - amount;
                    &&& r == Ok::<i128, CrowdfundError>(amount as i128)
                    &&& nc.contributors@ == c.contributors@.remove(first_index_of(keys(c.contributors@), contributor)->0)
                    &&& nc.raised == raised
                    &&& nc.status == if raised == 0 { CampaignStatus::Refunded } else { CampaignStatus::Active }
                    &&& nc.id == c.id && nc.puzzle_id == c.puzzle_id && nc.creator == c.creator
                    &&& nc.target_amount == c.target_amount && nc.deadline == c.deadline && nc.winner == c.winner
                    &&& nc.created_at == c.created_at && nc.activated_at == c.activated_at
                    &&& nc.claimed_at == c.claimed_at
                    &&& final(self).others_same(old(self), campaign_id)
                },
            },
    {
        let idx = match self.campaigns.get(&campaign_id) {
            Some(c) => {
                if c.status != CampaignStatus::Active {
                    return Err(CrowdfundError::NotRefundable);
                }
                if now <= c.deadline {
                    return Err(CrowdfundError::DeadlineNotPassed);
                }
                if c.raised >= c.target_amount {
                    return Err(CrowdfundError::TargetReached);
                }
                match find_pledge(&c.contributors, contributor) {
                    Some(i) => {
                        assert(self.campaigns@.contains_key(campaign_id));
                        if c.contributors[i].1 <= 0 {
                            return Err(CrowdfundError::NoContribution);
                        }
                        i
                    },
                    None => return Err(CrowdfundError::NoContribution),
                }
            },
            None => return Err(CrowdfundError::CampaignNotFound),
        };
        let ghost old_campaigns = self.campaigns@;
        let mut c = self.campaigns.remove(&campaign_id).unwrap();
        assert(old_campaigns.contains_key(campaign_id));
        assert(c.wf());
        let ghost before = c.contributors@;
        let amount = c.contributors[idx].1;
        proof {
            lemma_sum_bounds(before, idx as int);
        }
        c.contributors.remove(idx);
        proof {
            lemma_sum_remove(before, idx as int);
        }
        c.raised = c.raised - amount;
        if c.raised == 0 {
            c.status = CampaignStatus::Refunded;
        }
        self.campaigns.insert(campaign_id, c);
        assert(self.campaigns@.dom() =~= old_campaigns.dom());
        assert forall|k: u64| #[trigger] self.campaigns@.contains_key(k) implies self.campaigns@[k].wf() by {
            if k != campaign_id {
                assert(old_campaigns.contains_key(k));
            } else {
                let s = self.campaigns@[k].contributors@;
                assert forall|j: int| 0 <= j < s.len() implies (#[trigger] s[j]).1 > 0 by {
                    if j < idx {
                        assert(s[j] == before[j]);
                    } else {
                        assert(s[j] == before[j + 1]);
                    }
                }
            }
        }
        Ok(amount)
    }

    /// A copy of the campaign `campaign_id`.
    pub fn get_campaign(&self, campaign_id: u64) -> (r: Result<CrowdfundCampaign, CrowdfundError>)
        ensures
            self.campaigns@.contains_key(campaign_id) ==> r is Ok && r.unwrap().same(&self.campaigns@[campaign_id]),
            !self.campaigns@.contains_key(campaign_id) ==> r matches Err(CrowdfundError::CampaignNotFound),
    {
        match self.campaigns.get(&campaign_id) {
            Some(c) => Ok(c.copy()),
            None => Err(CrowdfundError::CampaignNotFound),
        }
    }

    /// The number of campaigns created.
    pub fn get_campaign_count(&self) -> (r: u64)
        ensures
            r == self.campaign_counter,
    {
        self.campaign_counter
    }
}

} // verus!
