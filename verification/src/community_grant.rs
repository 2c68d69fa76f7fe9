//! Community grants: an applicant proposes a grant split into milestones;
//! token holders vote for seven days, weighted by their balance; an approved
//! grant pays each milestone once the admin has verified it.
use vstd::prelude::*;
use std::collections::{HashMap, HashSet};
use crate::util::{AccountId, Transfer, pair_key, pair_key_spec};

verus! {

broadcast use vstd::std_specs::hash::group_hash_axioms;

/// The voting window: seven days, in seconds.
pub const VOTING_WINDOW_SECONDS: u64 = 604800;

#[derive(Clone, Copy, Debug, PartialEq, Eq, Structural)]
pub enum ProposalStatus {
    Voting,
    Approved,
    Rejected,
}

pub struct GrantMilestone {
    pub description: String,
    pub amount: i128,
    pub claimed: bool,
    pub verified: bool,
}

pub struct GrantProposal {
    pub id: u64,
    pub applicant: AccountId,
    pub amount_requested: i128,
    pub milestones: Vec<GrantMilestone>,
    pub votes_for: i128,
    pub votes_against: i128,
    pub status: ProposalStatus,
    pub approved_at: Option<u64>,
    pub created_at: u64,
    pub voting_ends_at: u64,
}

#[derive(Clone, Copy, Debug, PartialEq, Eq, Structural)]
pub struct GrantConfig {
    pub admin: AccountId,
    pub token: AccountId,
    pub quorum: i128,
}

#[derive(Clone, Copy, Debug, PartialEq, Eq, Structural)]
pub enum GrantError {
    AlreadyInitialized,
    NotInitialized,
    InvalidQuorum,
    InvalidAmount,
    MilestonesRequired,
    MilestoneAmountNotPositive,
    InvalidMilestoneState,
    MilestoneTotalMismatch,
    ProposalNotFound,
    NotInVoting,
    VotingClosed,
    AlreadyVoted,
    NoVotingPower,
    AdminOnly,
    NotApproved,
    MilestoneNotFound,
    AlreadyVerified,
    OnlyApplicant,
    NotVerified,
    AlreadyClaimed,
    Overflow,
}

/// The storage of the contract; `contract` is its own account.
pub struct CommunityGrantContract {
    pub contract: AccountId,
    pub config: Option<GrantConfig>,
    pub next_proposal_id: u64,
    pub proposals: HashMap<u64, GrantProposal>,
    /// The votes cast, by `pair_key(proposal id, voter)`.
    pub voted: HashSet<u128>,
}

impl GrantMilestone {
    pub fn copy(&self) -> (r: GrantMilestone)
        ensures
            r == *self,
    {
        GrantMilestone {
            description: self.description.clone(),
            amount: self.amount,
            claimed: self.claimed,
            verified: self.verified,
        }
    }
}

fn copy_milestones(s: &Vec<GrantMilestone>) -> (r: Vec<GrantMilestone>)
    ensures
        r@ == s@,
{
    let mut r: Vec<GrantMilestone> = Vec::new();
    let mut i: usize = 0;
    while i < s.len()
        invariant
            i <= s.len(),
            r@ == s@.take(i as int),
        decreases s.len() - i,
    {
        r.push(s[i].copy());
        i = i + 1;
        assert(r@ =~= s@.take(i as int));
    }
    assert(s@.take(s.len() as int) =~= s@);
    r
}

impl GrantProposal {
    pub open spec fn same(&self, other: &GrantProposal) -> bool {
        &&& self.id == other.id
        &&& self.applicant == other.applicant
        &&& self.amount_requested == other.amount_requested
        &&& self.milestones@ == other.milestones@
        &&& self.votes_for == other.votes_for
        &&& self.votes_against == other.votes_against
        &&& self.status == other.status
        &&& self.approved_at == other.approved_at
        &&& self.created_at == other.created_at
        &&& self.voting_ends_at == other.voting_ends_at
    }

    pub fn copy(&self) -> (r: GrantProposal)
        ensures
            r.same(self),
    {
        GrantProposal {
            id: self.id,
            applicant: self.applicant,
            amount_requested: self.amount_requested,
            milestones: copy_milestones(&self.milestones),
            votes_for: self.votes_for,
            votes_against: self.votes_against,
            status: self.status,
            approved_at: self.approved_at,
            created_at: self.created_at,
            voting_ends_at: self.voting_ends_at,
        }
    }
}

/// The check of a proposal's milestones, in order: the first bad milestone's
/// error, or the sum of their amounts.
pub open spec fn milestones_total(ms: Seq<GrantMilestone>) -> Result<int, GrantError>
    decreases ms.len(),
{
    if ms.len() == 0 {
        Ok(0)
    } else {
        match milestones_total(ms.drop_last()) {
            Err(e) => Err(e),
            Ok(t) => {
                let m = ms.last();
                if m.amount <= 0 {
                    Err(GrantError::MilestoneAmountNotPositive)
                } else if m.claimed || m.verified {
                    Err(GrantError::InvalidMilestoneState)
                } else if t + m.amount > i128::MAX {
                    Err(GrantError::Overflow)
                } else {
                    Ok(t + m.amount)
                }
            },
        }
    }
}

/// A proposal whose window has closed at `now` is approved when the votes
/// reach the quorum with more for than against, and rejected otherwise.
pub open spec fn resolved(p: GrantProposal, now: u64, quorum: i128) -> GrantProposal {
    if p.status == ProposalStatus::Voting && now > p.voting_ends_at {
        if p.votes_for + p.votes_against >= quorum && p.votes_for > p.votes_against {
            GrantProposal { status: ProposalStatus::Approved, approved_at: Some(p.voting_ends_at), ..p }
        } else {
            GrantProposal { status: ProposalStatus::Rejected, ..p }
        }
    } else {
        p
    }
}

/// Whether resolving `p` at `now` overflows in adding up the votes.
pub open spec fn resolve_overflows(p: GrantProposal, now: u64) -> bool {
    p.status == ProposalStatus::Voting && now > p.voting_ends_at && p.votes_for + p.votes_against > i128::MAX
}

/// The status and approval time of `p` once resolved at `now` against `quorum`.
fn resolution(p: &GrantProposal, now: u64, quorum: i128) -> (r: Result<(ProposalStatus, Option<u64>), GrantError>)
    requires
        p.votes_for >= 0 && p.votes_against >= 0,
    ensures
        r is Err <==> resolve_overflows(*p, now),
        r is Err ==> r == Err::<(ProposalStatus, Option<u64>), GrantError>(GrantError::Overflow),
        r matches Ok((st, at)) ==> resolved(*p, now, quorum) == (GrantProposal { status: st, approved_at: at, ..*p }),
{
    if p.status != ProposalStatus::Voting || now <= p.voting_ends_at {
        return Ok((p.status, p.approved_at));
    }
    let total = match p.votes_for.checked_add(p.votes_against) {
        Some(t) => t,
        None => return Err(GrantError::Overflow),
    };
    if total >= quorum && p.votes_for > p.votes_against {
        Ok((ProposalStatus::Approved, Some(p.voting_ends_at)))
    } else {
        Ok((ProposalStatus::Rejected, p.approved_at))
    }
}

impl CommunityGrantContract {
    /// Proposals exist only once the contract is set up, and votes are
    /// never negative.
    pub open spec fn wf(&self) -> bool {
        forall|id: u64| #[trigger] self.proposals@.contains_key(id) ==> {
            &&& self.config is Some
            &&& self.proposals@[id].votes_for >= 0
            &&& self.proposals@[id].votes_against >= 0
        }
    }

    /// Whether `voter` voted on `proposal_id`.
    pub open spec fn has_voted(&self, proposal_id: u64, voter: AccountId) -> bool {
        self.voted@.contains(pair_key_spec(proposal_id, voter))
    }

    /// The proposal `id` as resolved at `now`.
    pub open spec fn current(&self, id: u64, now: u64) -> GrantProposal {
        resolved(self.proposals@[id], now, self.config.unwrap().quorum)
    }

    /// Every table but the proposal `id` is unchanged from `other`.
    pub open spec fn others_same(&self, other: &Self, id: u64) -> bool {
        &&& self.proposals@.dom() == other.proposals@.dom()
        &&& forall|k: u64| k != id && #[trigger] other.proposals@.contains_key(k) ==> self.proposals@[k]
            == other.proposals@[k]
        &&& self.contract == other.contract
        &&& self.config == other.config
        &&& self.next_proposal_id == other.next_proposal_id
    }

    /// A contract with empty storage, deployed at `contract`.
    pub fn new(contract: AccountId) -> (r: Self)
        ensures
            r.contract == contract,
            r.config is None,
            r.next_proposal_id == 0,
            r.proposals@ == Map::<u64, GrantProposal>::empty(),
            r.voted@ == Set::<u128>::empty(),
            r.wf(),
    {
        CommunityGrantContract {
            contract,
            config: None,
            next_proposal_id: 0,
            proposals: HashMap::new(),
            voted: HashSet::new(),
        }
    }

    /// Stores the admin, the voting token and the quorum; proposal ids start at 1.
    pub fn initialize(&mut self, admin: AccountId, token: AccountId, quorum: i128) -> (r: Result<(), GrantError>)
        requires
            old(self).wf(),
        ensures
            final(self).wf(),
            old(self).config is Some ==> r == Err::<(), GrantError>(GrantError::AlreadyInitialized) && *final(self)
                == *old(self),
            old(self).config is None && quorum <= 0 ==> r == Err::<(), GrantError>(GrantError::InvalidQuorum)
                && *final(self) == *old(self),
            old(self).config is None && quorum > 0 ==> r is Ok && final(self).config == Some(
                GrantConfig { admin, token, quorum },
            ) && final(self).next_proposal_id == 1 && final(self).proposals@ == old(self).proposals@
                && final(self).voted@ == old(self).voted@ && final(self).contract == old(self).contract,
    {
        if self.config.is_some() {
            return Err(GrantError::AlreadyInitialized);
        }
        if quorum <= 0 {
            return Err(GrantError::InvalidQuorum);
        }
        self.config = Some(GrantConfig { admin, token, quorum });
        self.next_proposal_id = 1;
        Ok(())
    }

    /// The error of `submit_proposal`, checked in the order of the contract.
    pub open spec fn submit_error(&self, amount_requested: i128, milestones: Seq<GrantMilestone>, now: u64) -> Option<
        GrantError,
    > {
        if amount_requested <= 0 {
            Some(GrantError::InvalidAmount)
        } else if milestones.len() == 0 {
            Some(GrantError::MilestonesRequired)
        } else if milestones_total(milestones) is Err {
            Some(milestones_total(milestones)->Err_0)
        } else if milestones_total(milestones)->Ok_0 != amount_requested {
            Some(GrantError::MilestoneTotalMismatch)
        } else if self.config is None {
            Some(GrantError::NotInitialized)
        } else if self.next_proposal_id == u64::MAX || now + VOTING_WINDOW_SECONDS > u64::MAX {
            Some(GrantError::Overflow)
        } else {
            None
        }
    }

    /// Opens a proposal for votes until seven days after `now`; returns its id.
    #[verifier::loop_isolation(false)]
    pub fn submit_proposal(&mut self, applicant: AccountId, amount_requested: i128, milestones: Vec<GrantMilestone>, now: u64) -> (r:
        Result<u64, GrantError>)
        requires
            old(self).wf(),
        ensures
            final(self).wf(),
            match old(self).submit_error(amount_requested, milestones@, now) {
                Some(e) => r == Err::<u64, GrantError>(e) && *final(self) == *old(self),
                None => {
                    let id = old(self).next_proposal_id;
                    &&& r == Ok::<u64, GrantError>(id)
                    &&& final(self).next_proposal_id == id + 1
                    &&& final(self).proposals@ == old(self).proposals@.insert(
                        id,
                        GrantProposal {
                            id,
                            applicant,
                            amount_requested,
                            milestones,
                            votes_for: 0,
                            votes_against: 0,
                            status: ProposalStatus::Voting,
                            approved_at: None,
                            created_at: now,
                            voting_ends_at: (now + VOTING_WINDOW_SECONDS) as u64,
                        },
                    )
                    &&& final(self).voted@ == old(self).voted@
                    &&& final(self).config == old(self).config
                    &&& final(self).contract == old(self).contract
                },
            },
    {
        if amount_requested <= 0 {
            return Err(GrantError::InvalidAmount);
        }
        if milestones.len() == 0 {
            return Err(GrantError::MilestonesRequired);
        }
        let mut total: i128 = 0;
        let mut i: usize = 0;
        while i < milestones.len()
            invariant
                i <= milestones.len(),
                milestones_total(milestones@.take(i as int)) == Ok::<int, GrantError>(total as int),
            decreases milestones.len() - i,
        {
            assert(milestones@.take(i as int + 1).drop_last() =~= milestones@.take(i as int));
            assert(milestones@.take(i as int + 1).last() == milestones@[i as int]);
            let m = &milestones[i];
            if m.amount <= 0 {
                proof { lemma_total_err_stays(milestones@, i as int + 1); }
                return Err(GrantError::MilestoneAmountNotPositive);
            }
            if m.claimed || m.verified {
                proof { lemma_total_err_stays(milestones@, i as int + 1); }
                return Err(GrantError::InvalidMilestoneState);
            }
            total = match total.checked_add(m.amount) {
                Some(t) => t,
                None => {
                    proof { lemma_total_err_stays(milestones@, i as int + 1); }
                    return Err(GrantError::Overflow);
                },
            };
            i = i + 1;
        }
        assert(milestones@.take(milestones.len() as int) =~= milestones@);
        if total != amount_requested {
            return Err(GrantError::MilestoneTotalMismatch);
        }
        if self.config.is_none() {
            return Err(GrantError::NotInitialized);
        }
        if self.next_proposal_id == u64::MAX || now > u64::MAX - VOTING_WINDOW_SECONDS {
            return Err(GrantError::Overflow);
        }
        let id = self.next_proposal_id;
        self.next_proposal_id = id + 1;
        let ghost old_proposals = self.proposals@;
        self.proposals.insert(
            id,
            GrantProposal {
                id,
                applicant,
                amount_requested,
                milestones,
                votes_for: 0,
                votes_against: 0,
                status: ProposalStatus::Voting,
                approved_at: None,
                created_at: now,
                voting_ends_at: now + VOTING_WINDOW_SECONDS,
            },
        );
        assert forall|k: u64| #[trigger] self.proposals@.contains_key(k) implies {
            &&& self.config is Some
            &&& self.proposals@[k].votes_for >= 0
            &&& self.proposals@[k].votes_against >= 0
        } by {
            if k != id {
                assert(old_proposals.contains_key(k));
            }
        }
        Ok(id)
    }

    /// The error of `vote`, checked in the order of the contract; `weight` is
    /// the voter's token balance.
    pub open spec fn vote_error(&self, voter: AccountId, proposal_id: u64, support: bool, weight: i128, now: u64) -> Option<
        GrantError,
    > {
        if !self.proposals@.contains_key(proposal_id) {
            Some(GrantError::ProposalNotFound)
        } else if resolve_overflows(self.proposals@[proposal_id], now) {
            Some(GrantError::Overflow)
        } else if self.current(proposal_id, now).status != ProposalStatus::Voting {
            Some(GrantError::NotInVoting)
        } else if now > self.proposals@[proposal_id].voting_ends_at {
            Some(GrantError::VotingClosed)
        } else if self.has_voted(proposal_id, voter) {
            Some(GrantError::AlreadyVoted)
        } else if weight <= 0 {
            Some(GrantError::NoVotingPower)
        } else if support && self.proposals@[proposal_id].votes_for + weight > i128::MAX {
            Some(GrantError::Overflow)
        } else if !support && self.proposals@[proposal_id].votes_against + weight > i128::MAX {
            Some(GrantError::Overflow)
        } else {
            None
        }
    }

    /// Casts `voter`'s vote, weighted by the balance `weight` that the token
    /// contract reported.
    pub fn vote(&mut self, voter: AccountId, proposal_id: u64, support: bool, weight: i128, now: u64) -> (r: Result<
        (),
        GrantError,
    >)
        requires
            old(self).wf(),
        ensures
            final(self).wf(),
            match old(self).vote_error(voter, proposal_id, support, weight, now) {
                Some(e) => r == Err::<(), GrantError>(e) && *final(self) == *old(self),
                None => {
                    let p = old(self).proposals@[proposal_id];
                    &&& r is Ok
                    &&& final(self).proposals@ == old(self).proposals@.insert(
                        proposal_id,
                        if support {
                            GrantProposal { votes_for: (p.votes_for + weight) as i128, ..p }
                        } else {
                            GrantProposal { votes_against: (p.votes_against + weight) as i128, ..p }
                        },
                    )
                    &&& final(self).voted@ == old(self).voted@.insert(pair_key_spec(proposal_id, voter))
                    &&& final(self).config == old(self).config
                    &&& final(self).next_proposal_id == old(self).next_proposal_id
                    &&& final(self).contract == old(self).contract
                },
            },
    {
        let quorum = match self.proposals.get(&proposal_id) {
            Some(_) => self.config.unwrap().quorum,
            None => return Err(GrantError::ProposalNotFound),
        };
        let (status, _approved, votes_for, votes_against, ends) = {
            let p = self.proposals.get(&proposal_id).unwrap();
            let (st, at) = match resolution(p, now, quorum) {
                Ok(x) => x,
                Err(e) => return Err(e),
            };
            (st, at, p.votes_for, p.votes_against, p.voting_ends_at)
        };
        if status != ProposalStatus::Voting {
            return Err(GrantError::NotInVoting);
        }
        if now > ends {
            return Err(GrantError::VotingClosed);
        }
        let key = pair_key(proposal_id, voter);
        if self.voted.contains(&key) {
            return Err(GrantError::AlreadyVoted);
        }
        if weight <= 0 {
            return Err(GrantError::NoVotingPower);
        }
        if support && votes_for > i128::MAX - weight {
            return Err(GrantError::Overflow);
        }
        if !support && votes_against > i128::MAX - weight {
            return Err(GrantError::Overflow);
        }
        let ghost old_proposals = self.proposals@;
        let mut p = self.proposals.remove(&proposal_id).unwrap();
        if support {
            p.votes_for = p.votes_for + weight;
        } else {
            p.votes_against = p.votes_against + weight;
        }
        self.proposals.insert(proposal_id, p);
        self.voted.insert(key);
        assert forall|k: u64| #[trigger] self.proposals@.contains_key(k) implies {
            &&& self.config is Some
            &&& self.proposals@[k].votes_for >= 0
            &&& self.proposals@[k].votes_against >= 0
        } by {
            assert(old_proposals.contains_key(k));
        }
        Ok(())
    }

    /// The error shared by the milestone calls once the proposal is resolved.
    pub open spec fn milestone_lookup_error(&self, proposal_id: u64, milestone_index: u32, now: u64) -> Option<GrantError> {
        if !self.proposals@.contains_key(proposal_id) {
            Some(GrantError::ProposalNotFound)
        } else if resolve_overflows(self.proposals@[proposal_id], now) {
            Some(GrantError::Overflow)
        } else if self.current(proposal_id, now).status != ProposalStatus::Approved {
            Some(GrantError::NotApproved)
        } else {
            None
        }
    }

    /// Marks a milestone of an approved proposal verified; the admin only.
    pub fn verify_milestone(&mut self, admin: AccountId, proposal_id: u64, milestone_index: u32, now: u64) -> (r: Result<
        (),
        GrantError,
    >)
        requires
            old(self).wf(),
        ensures
            final(self).wf(),
            match (if old(self).config is None {
                Some(GrantError::NotInitialized)
            } else if old(self).config.unwrap().admin != admin {
                Some(GrantError::AdminOnly)
            } else if old(self).milestone_lookup_error(proposal_id, milestone_index, now) is Some {
                old(self).milestone_lookup_error(proposal_id, milestone_index, now)
            } else if milestone_index >= old(self).proposals@[proposal_id].milestones@.len() {
                Some(GrantError::MilestoneNotFound)
            } else if old(self).proposals@[proposal_id].milestones@[milestone_index as int].verified {
                Some(GrantError::AlreadyVerified)
            } else {
                None
            }) {
                Some(e) => r == Err::<(), GrantError>(e) && *final(self) == *old(self),
                None => {
                    let c = old(self).current(proposal_id, now);
                    let m = c.milestones@[milestone_index as int];
                    let np = final(self).proposals@[proposal_id];
                    &&& r is Ok
                    &&& np.same(&GrantProposal { milestones: np.milestones, ..c })
                    &&& np.milestones@ == c.milestones@.update(
                        milestone_index as int,
                        GrantMilestone { verified: true, ..m },
                    )
                    &&& final(self).others_same(old(self), proposal_id)
                    &&& final(self).voted@ == old(self).voted@
                },
            },
    {
        let cfg = match self.config {
            Some(c) => c,
            None => return Err(GrantError::NotInitialized),
        };
        if cfg.admin != admin {
            return Err(GrantError::AdminOnly);
        }
        let (status, approved) = match self.proposals.get(&proposal_id) {
            Some(p) => match resolution(p, now, cfg.quorum) {
                Ok(x) => x,
                Err(e) => return Err(e),
            },
            None => return Err(GrantError::ProposalNotFound),
        };
        let idx = milestone_index as usize;
        {
            let p = self.proposals.get(&proposal_id).unwrap();
            if status != ProposalStatus::Approved {
                return Err(GrantError::NotApproved);
            }
            if idx >= p.milestones.len() {
                return Err(GrantError::MilestoneNotFound);
            }
            if p.milestones[idx].verified {
                return Err(GrantError::AlreadyVerified);
            }
        }
        let ghost old_proposals = self.proposals@;
        let mut p = self.proposals.remove(&proposal_id).unwrap();
        p.status = status;
        p.approved_at = approved;
        let mut m = p.milestones[idx].copy();
        m.verified = true;
        p.milestones.set(idx, m);
        self.proposals.insert(proposal_id, p);
        assert(self.proposals@.dom() =~= old_proposals.dom());
        assert forall|k: u64| #[trigger] self.proposals@.contains_key(k) implies {
            &&& self.config is Some
            &&& self.proposals@[k].votes_for >= 0
            &&& self.proposals@[k].votes_against >= 0
        } by {
            assert(old_proposals.contains_key(k));
        }
        Ok(())
    }

    /// The error of `claim_milestone`, checked in the order of the contract.
    pub open spec fn claim_error(&self, applicant: AccountId, proposal_id: u64, milestone_index: u32, now: u64) -> Option<
        GrantError,
    > {
        if self.milestone_lookup_error(proposal_id, milestone_index, now) is Some {
            self.milestone_lookup_error(proposal_id, milestone_index, now)
        } else if self.proposals@[proposal_id].applicant != applicant {
            Some(GrantError::OnlyApplicant)
        } else if milestone_index >= self.proposals@[proposal_id].milestones@.len() {
            Some(GrantError::MilestoneNotFound)
        } else if !self.proposals@[proposal_id].milestones@[milestone_index as int].verified {
            Some(GrantError::NotVerified)
        } else if self.proposals@[proposal_id].milestones@[milestone_index as int].claimed {
            Some(GrantError::AlreadyClaimed)
        } else {
            None
        }
    }

    /// Pays the applicant a verified milestone of an approved proposal, once;
    /// returns the payment.
    pub fn claim_milestone(&mut self, applicant: AccountId, proposal_id: u64, milestone_index: u32, now: u64) -> (r:
        Result<Transfer, GrantError>)
        requires
            old(self).wf(),
        ensures
            final(self).wf(),
            r is Ok ==> forall|t: u64| #[trigger] final(self).claim_error(applicant, proposal_id, milestone_index, t) is Some,
            match old(self).claim_error(applicant, proposal_id, milestone_index, now) {
                Some(e) => r == Err::<Transfer, GrantError>(e) && *final(self) == *old(self),
                None => {
                    let c = old(self).current(proposal_id, now);
                    let m = c.milestones@[milestone_index as int];
                    let np = final(self).proposals@[proposal_id];
                    &&& r == Ok::<Transfer, GrantError>(
                        Transfer { token: old(self).config.unwrap().token, from: old(self).contract, to: applicant, amount: m.amount },
                    )
                    &&& np.same(&GrantProposal { milestones: np.milestones, ..c })
                    &&& np.milestones@ == c.milestones@.update(
                        milestone_index as int,
                        GrantMilestone { claimed: true, ..m },
                    )
                    &&& final(self).others_same(old(self), proposal_id)
                    &&& final(self).voted@ == old(self).voted@
                },
            },
    {
        let cfg = match self.proposals.get(&proposal_id) {
            Some(_) => self.config.unwrap(),
            None => return Err(GrantError::ProposalNotFound),
        };
        let (status, approved) = match resolution(self.proposals.get(&proposal_id).unwrap(), now, cfg.quorum) {
            Ok(x) => x,
            Err(e) => return Err(e),
        };
        let idx = milestone_index as usize;
        {
            let p = self.proposals.get(&proposal_id).unwrap();
            if status != ProposalStatus::Approved {
                return Err(GrantError::NotApproved);
            }
            if p.applicant != applicant {
                return Err(GrantError::OnlyApplicant);
            }
            if idx >= p.milestones.len() {
                return Err(GrantError::MilestoneNotFound);
            }
            if !p.milestones[idx].verified {
                return Err(GrantError::NotVerified);
            }
            if p.milestones[idx].claimed {
                return Err(GrantError::AlreadyClaimed);
            }
        }
        let ghost old_proposals = self.proposals@;
        let mut p = self.proposals.remove(&proposal_id).unwrap();
        p.status = status;
        p.approved_at = approved;
        let mut m = p.milestones[idx].copy();
        m.claimed = true;
        let amount = m.amount;
        p.milestones.set(idx, m);
        self.proposals.insert(proposal_id, p);
        assert(self.proposals@.dom() =~= old_proposals.dom());
        assert forall|k: u64| #[trigger] self.proposals@.contains_key(k) implies {
            &&& self.config is Some
            &&& self.proposals@[k].votes_for >= 0
            &&& self.proposals@[k].votes_against >= 0
        } by {
            assert(old_proposals.contains_key(k));
        }
        Ok(Transfer { token: cfg.token, from: self.contract, to: applicant, amount })
    }

    /// The proposal as resolved at `now`; the resolution is stored.
    pub fn get_proposal(&mut self, proposal_id: u64, now: u64) -> (r: Result<GrantProposal, GrantError>)
        requires
            old(self).wf(),
        ensures
            r is Ok && old(self).proposals@[proposal_id].status == ProposalStatus::Voting && now > old(self).proposals@[proposal_id].voting_ends_at ==> ({
                let p = old(self).proposals@[proposal_id];
                let quorum = old(self).config.unwrap().quorum;
                &&& (r.unwrap().status == ProposalStatus::Approved <==> (p.votes_for + p.votes_against >= quorum
                    && p.votes_for > p.votes_against))
                &&& (p.votes_against >= p.votes_for ==> r.unwrap().status == ProposalStatus::Rejected)
                &&& (r.unwrap().status == ProposalStatus::Approved ==> r.unwrap().approved_at == Some(p.voting_ends_at))
            }),
            final(self).wf(),
            !old(self).proposals@.contains_key(proposal_id) ==> r == Err::<GrantProposal, GrantError>(
                GrantError::ProposalNotFound,
            ) && *final(self) == *old(self),
            old(self).proposals@.contains_key(proposal_id) && resolve_overflows(old(self).proposals@[proposal_id], now)
                ==> r == Err::<GrantProposal, GrantError>(GrantError::Overflow) && *final(self) == *old(self),
            old(self).proposals@.contains_key(proposal_id) && !resolve_overflows(
                old(self).proposals@[proposal_id],
                now,
            ) ==> {
                &&& r is Ok
                &&& r.unwrap().same(&old(self).current(proposal_id, now))
                &&& final(self).proposals@ == old(self).proposals@.insert(proposal_id, old(self).current(proposal_id, now))
                &&& final(self).voted@ == old(self).voted@
                &&& final(self).config == old(self).config
                &&& final(self).next_proposal_id == old(self).next_proposal_id
                &&& final(self).contract == old(self).contract
            },
    {
        let quorum = match self.proposals.get(&proposal_id) {
            Some(_) => self.config.unwrap().quorum,
            None => return Err(GrantError::ProposalNotFound),
        };
        let (status, approved) = match resolution(self.proposals.get(&proposal_id).unwrap(), now, quorum) {
            Ok(x) => x,
            Err(e) => return Err(e),
        };
        let ghost old_proposals = self.proposals@;
        let mut p = self.proposals.remove(&proposal_id).unwrap();
        p.status = status;
        p.approved_at = approved;
        let out = p.copy();
        self.proposals.insert(proposal_id, p);
        assert forall|k: u64| #[trigger] self.proposals@.contains_key(k) implies {
            &&& self.config is Some
            &&& self.proposals@[k].votes_for >= 0
            &&& self.proposals@[k].votes_against >= 0
        } by {
            assert(old_proposals.contains_key(k));
        }
        Ok(out)
    }
}

/// Once the check of a prefix fails, the check of every longer prefix fails
/// with the same error.
proof fn lemma_total_err_stays(ms: Seq<GrantMilestone>, i: int)
    requires
        0 <= i <= ms.len(),
        milestones_total(ms.take(i)) is Err,
    ensures
        milestones_total(ms) == milestones_total(ms.take(i)),
    decreases ms.len() - i,
{
    if i < ms.len() {
        assert(ms.take(i + 1).drop_last() =~= ms.take(i));
        lemma_total_err_stays(ms, i + 1);
    } else {
        assert(ms.take(i) =~= ms);
    }
}

/// When a proposal's voting window has closed, it is approved exactly when
/// the votes cast reach the quorum and more are for than against; with at
/// least as many against as for it is rejected whatever the turnout. Before
/// the window closes, or once decided, it is left as it is.
pub proof fn lemma_resolution_needs_majority(p: GrantProposal, now: u64, quorum: i128)
    ensures
        p.status == ProposalStatus::Voting && now > p.voting_ends_at ==> {
            &&& (resolved(p, now, quorum).status == ProposalStatus::Approved <==> (p.votes_for + p.votes_against
                >= quorum && p.votes_for > p.votes_against))
            &&& (p.votes_against >= p.votes_for ==> resolved(p, now, quorum).status == ProposalStatus::Rejected)
            &&& (resolved(p, now, quorum).status == ProposalStatus::Approved ==> resolved(p, now, quorum).approved_at
                == Some(p.voting_ends_at))
        },
        !(p.status == ProposalStatus::Voting && now > p.voting_ends_at) ==> resolved(p, now, quorum) == p,
{
}

} // verus!
