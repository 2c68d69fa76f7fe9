//! Flash challenges: the admin funds a reward pool for a puzzle over a time
//! window; the first players whose solutions the oracle accepts become
//! winners, and the pool is split evenly among the places.
use vstd::prelude::*;
use std::collections::HashMap;
use crate::util::{AccountId, Transfer, contains_u64};

verus! {

broadcast use vstd::std_specs::hash::group_hash_axioms;

#[derive(Clone, Copy, Debug, PartialEq, Eq, Structural)]
pub enum ChallengeStatus {
    Scheduled,
    Active,
    Completed,
    Expired,
}

pub struct FlashChallenge {
    pub id: u32,
    pub puzzle_id: u32,
    pub reward_pool: i128,
    pub max_winners: u32,
    pub start_at: u64,
    pub end_at: u64,
    pub winners: Vec<AccountId>,
    pub status: ChallengeStatus,
}

#[derive(Clone, Copy, Debug, PartialEq, Eq, Structural)]
pub struct FlashConfig {
    pub admin: AccountId,
    pub token: AccountId,
    pub oracle: AccountId,
}

#[derive(Clone, Copy, Debug, PartialEq, Eq, Structural)]
pub enum FlashError {
    AlreadyInitialized,
    NotInitialized,
    InvalidParameters,
    ChallengeNotFound,
    ChallengeNotActive,
    NotStarted,
    ChallengeExpired,
    AlreadyWinner,
    IncorrectSolution,
    NotEnded,
    AlreadyFinalized,
    Overflow,
}

/// The storage of the contract; `contract` is its own account.
pub struct FlashChallengeContract {
    pub contract: AccountId,
    pub config: Option<FlashConfig>,
    pub challenge_count: u32,
    pub challenges: HashMap<u32, FlashChallenge>,
}

/// Payments of `amount` of `token` from `from` to each of `winners`, in order.
pub open spec fn payouts(winners: Seq<AccountId>, token: AccountId, from: AccountId, amount: i128) -> Seq<Transfer> {
    winners.map_values(|w: AccountId| Transfer { token, from, to: w, amount })
}

/// The total amount that a list of transfers moves.
pub open spec fn transfer_total(s: Seq<Transfer>) -> int
    decreases s.len(),
{
    if s.len() == 0 {
        0
    } else {
        transfer_total(s.drop_last()) + s.last().amount
    }
}

proof fn lemma_total_concat(a: Seq<Transfer>, b: Seq<Transfer>)
    ensures
        transfer_total(a + b) == transfer_total(a) + transfer_total(b),
    decreases b.len(),
{
    if b.len() == 0 {
        assert(a + b =~= a);
    } else {
        assert((a + b).drop_last() =~= a + b.drop_last());
        lemma_total_concat(a, b.drop_last());
    }
}

proof fn lemma_total_payouts(winners: Seq<AccountId>, token: AccountId, from: AccountId, amount: i128)
    ensures
        transfer_total(payouts(winners, token, from, amount)) == winners.len() * amount,
    decreases winners.len(),
{
    if winners.len() > 0 {
        assert(payouts(winners, token, from, amount).drop_last() =~= payouts(winners.drop_last(), token, from, amount));
        lemma_total_payouts(winners.drop_last(), token, from, amount);
        let p = payouts(winners, token, from, amount);
        assert(p.len() == winners.len());
        assert(p.last().amount == amount);
        assert(transfer_total(p) == transfer_total(p.drop_last()) + p.last().amount);
        assert(winners.len() * amount == (winners.len() - 1) * amount + amount) by (nonlinear_arith);
    } else {
        assert(payouts(winners, token, from, amount).len() == 0);
    }
}

fn payouts_exec(winners: &Vec<AccountId>, token: AccountId, from: AccountId, amount: i128) -> (r: Vec<Transfer>)
    ensures
        r@ == payouts(winners@, token, from, amount),
{
    let mut r: Vec<Transfer> = Vec::new();
    let mut i: usize = 0;
    while i < winners.len()
        invariant
            i <= winners.len(),
            r@ == payouts(winners@.take(i as int), token, from, amount),
        decreases winners.len() - i,
    {
        r.push(Transfer { token, from, to: winners[i], amount });
        i = i + 1;
        assert(r@ =~= payouts(winners@.take(i as int), token, from, amount));
    }
    assert(winners@.take(winners.len() as int) =~= winners@);
    r
}

impl FlashChallenge {
    pub open spec fn same(&self, other: &FlashChallenge) -> bool {
        &&& self.id == other.id
        &&& self.puzzle_id == other.puzzle_id
        &&& self.reward_pool == other.reward_pool
        &&& self.max_winners == other.max_winners
        &&& self.start_at == other.start_at
        &&& self.end_at == other.end_at
        &&& self.winners@ == other.winners@
        &&& self.status == other.status
    }

    /// A positive pool, at least one place, and never more winners than places.
    pub open spec fn wf(&self) -> bool {
        &&& self.reward_pool > 0
        &&& self.max_winners > 0
        &&& self.winners@.len() <= self.max_winners
        &&& self.status != ChallengeStatus::Completed ==> self.winners@.len() < self.max_winners
        &&& self.start_at <= self.end_at
    }
}

impl FlashChallengeContract {
    pub open spec fn wf(&self) -> bool {
        forall|id: u32| #[trigger] self.challenges@.contains_key(id) ==> self.challenges@[id].wf()
    }

    /// A contract with empty storage, deployed at `contract`.
    pub fn new(contract: AccountId) -> (r: Self)
        ensures
            r.contract == contract,
            r.config is None,
            r.challenge_count == 0,
            r.challenges@ == Map::<u32, FlashChallenge>::empty(),
            r.wf(),
    {
        FlashChallengeContract { contract, config: None, challenge_count: 0, challenges: HashMap::new() }
    }

    /// Stores the admin, the reward token and the oracle.
    pub fn initialize(&mut self, admin: AccountId, token: AccountId, oracle: AccountId) -> (r: Result<(), FlashError>)
        requires
            old(self).wf(),
        ensures
            final(self).wf(),
            old(self).config is Some ==> r == Err::<(), FlashError>(FlashError::AlreadyInitialized) && *final(self)
                == *old(self),
            old(self).config is None ==> r is Ok && final(self).config == Some(FlashConfig { admin, token, oracle })
                && final(self).challenge_count == old(self).challenge_count && final(self).challenges@ == old(self).challenges@ && final(self).contract == old(self).contract,
    {
        if self.config.is_some() {
            return Err(FlashError::AlreadyInitialized);
        }
        self.config = Some(FlashConfig { admin, token, oracle });
        Ok(())
    }

    /// The error of `schedule`, checked in the order of the contract.
    pub open spec fn schedule_error(&self, reward_pool: i128, start_at: u64, duration_minutes: u64, max_winners: u32) -> Option<
        FlashError,
    > {
        if self.config is None {
            Some(FlashError::NotInitialized)
        } else if reward_pool <= 0 || max_winners == 0 || duration_minutes == 0 {
            Some(FlashError::InvalidParameters)
        } else if self.challenge_count == u32::MAX || start_at + duration_minutes * 60 > u64::MAX {
            Some(FlashError::Overflow)
        } else {
            None
        }
    }

    /// Schedules a challenge on `puzzle_id` funded by the admin's
    /// `reward_pool`, open from `start_at` for `duration_minutes`; returns its
    /// id and the funding payment.
    pub fn schedule(&mut self, puzzle_id: u32, reward_pool: i128, start_at: u64, duration_minutes: u64, max_winners: u32) -> (r:
        Result<(u32, Transfer), FlashError>)
        requires
            old(self).wf(),
        ensures
            final(self).wf(),
            match old(self).schedule_error(reward_pool, start_at, duration_minutes, max_winners) {
                Some(e) => r == Err::<(u32, Transfer), FlashError>(e) && *final(self) == *old(self),
                None => {
                    let cfg = old(self).config.unwrap();
                    let id = (old(self).challenge_count + 1) as u32;
                    let c = final(self).challenges@[id];
                    &&& r == Ok::<(u32, Transfer), FlashError>(
                        (id, Transfer { token: cfg.token, from: cfg.admin, to: old(self).contract, amount: reward_pool }),
                    )
                    &&& final(self).challenge_count == id
                    &&& final(self).challenges@.dom() == old(self).challenges@.dom().insert(id)
                    &&& c.id == id && c.puzzle_id == puzzle_id && c.reward_pool == reward_pool
                    &&& c.max_winners == max_winners && c.start_at == start_at
                    &&& c.end_at == start_at + duration_minutes * 60
                    &&& c.winners@.len() == 0
                    &&& c.status == ChallengeStatus::Scheduled
                    &&& forall|k: u32| k != id && #[trigger] old(self).challenges@.contains_key(k)
                        ==> final(self).challenges@[k] == old(self).challenges@[k]
                    &&& final(self).config == old(self).config
                    &&& final(self).contract == old(self).contract
                },
            },
    {
        let cfg = match self.config {
            Some(c) => c,
            None => return Err(FlashError::NotInitialized),
        };
        if reward_pool <= 0 || max_winners == 0 || duration_minutes == 0 {
            return Err(FlashError::InvalidParameters);
        }
        if self.challenge_count == u32::MAX {
            return Err(FlashError::Overflow);
        }
        let span = match duration_minutes.checked_mul(60) {
            Some(s) => s,
            None => return Err(FlashError::Overflow),
        };
        let end_at = match start_at.checked_add(span) {
            Some(e) => e,
            None => return Err(FlashError::Overflow),
        };
        let id = self.challenge_count + 1;
        self.challenge_count = id;
        let ghost old_challenges = self.challenges@;
        self.challenges.insert(
            id,
            FlashChallenge {
                id,
                puzzle_id,
                reward_pool,
                max_winners,
                start_at,
                end_at,
                winners: Vec::new(),
                status: ChallengeStatus::Scheduled,
            },
        );
        assert(self.challenges@.dom() =~= old_challenges.dom().insert(id));
        assert forall|k: u32| #[trigger] self.challenges@.contains_key(k) implies self.challenges@[k].wf() by {
            if k != id {
                assert(old_challenges.contains_key(k));
            }
        }
        Ok((id, Transfer { token: cfg.token, from: cfg.admin, to: self.contract, amount: reward_pool }))
    }

    /// The error of a submission, checked in the order of the contract;
    /// `is_correct` is the oracle's verdict on the solution.
    pub open spec fn submit_error(&self, challenge_id: u32, player: AccountId, is_correct: bool, now: u64) -> Option<
        FlashError,
    > {
        if !self.challenges@.contains_key(challenge_id) {
            Some(FlashError::ChallengeNotFound)
        } else if self.challenges@[challenge_id].status == ChallengeStatus::Completed
            || self.challenges@[challenge_id].status == ChallengeStatus::Expired {
            Some(FlashError::ChallengeNotActive)
        } else if now < self.challenges@[challenge_id].start_at {
            Some(FlashError::NotStarted)
        } else if now > self.challenges@[challenge_id].end_at {
            Some(FlashError::ChallengeExpired)
        } else if self.challenges@[challenge_id].winners@.contains(player) {
            Some(FlashError::AlreadyWinner)
        } else if self.config is None {
            Some(FlashError::NotInitialized)
        } else if !is_correct {
            Some(FlashError::IncorrectSolution)
        } else {
            None
        }
    }

    /// Records `player` as the next winner when the oracle accepted the
    /// solution; the last place completes the challenge and pays every
    /// winner an even share of the pool. Returns the payments.
    pub fn submit_solution(&mut self, challenge_id: u32, player: AccountId, is_correct: bool, now: u64) -> (r: Result<
        Vec<Transfer>,
        FlashError,
    >)
        requires
            old(self).wf(),
        ensures
            final(self).wf(),
            match old(self).submit_error(challenge_id, player, is_correct, now) {
                Some(e) => r == Err::<Vec<Transfer>, FlashError>(e) && *final(self) == *old(self),
                None => {
                    let c = old(self).challenges@[challenge_id];
                    let winners = c.winners@.push(player);
                    let done = winners.len() == c.max_winners;
                    let each = (c.reward_pool as int / c.max_winners as int) as i128;
                    let nc = final(self).challenges@[challenge_id];
                    &&& r is Ok
                    &&& r.unwrap()@ == if done {
                        payouts(winners, old(self).config.unwrap().token, old(self).contract, each)
                    } else {
                        Seq::<Transfer>::empty()
                    }
                    &&& final(self).challenges@.dom() == old(self).challenges@.dom()
                    &&& nc.winners@ == winners
                    &&& nc.status == if done { ChallengeStatus::Completed } else { ChallengeStatus::Active }
                    &&& nc.id == c.id && nc.puzzle_id == c.puzzle_id && nc.reward_pool == c.reward_pool
                    &&& nc.max_winners == c.max_winners && nc.start_at == c.start_at && nc.end_at == c.end_at
                    &&& forall|k: u32| k != challenge_id && #[trigger] old(self).challenges@.contains_key(k)
                        ==> final(self).challenges@[k] == old(self).challenges@[k]
                    &&& final(self).config == old(self).config
                    &&& final(self).challenge_count == old(self).challenge_count
                    &&& final(self).contract == old(self).contract
                },
            },
    {
        match self.challenges.get(&challenge_id) {
            Some(c) => {
                if c.status == ChallengeStatus::Completed || c.status == ChallengeStatus::Expired {
                    return Err(FlashError::ChallengeNotActive);
                }
                if now < c.start_at {
                    return Err(FlashError::NotStarted);
                }
                if now > c.end_at {
                    return Err(FlashError::ChallengeExpired);
                }
                if contains_u64(&c.winners, player) {
                    return Err(FlashError::AlreadyWinner);
                }
            },
            None => return Err(FlashError::ChallengeNotFound),
        }
        let cfg = match self.config {
            Some(c) => c,
            None => return Err(FlashError::NotInitialized),
        };
        if !is_correct {
            return Err(FlashError::IncorrectSolution);
        }
        let ghost old_challenges = self.challenges@;
        assert(self.challenges@.contains_key(challenge_id));
        let mut c = self.challenges.remove(&challenge_id).unwrap();
        assert(c.wf());
        assert(c.winners@.len() < c.max_winners) by {
            if c.winners@.len() == c.max_winners {
                assert(c.status != ChallengeStatus::Completed);
            }
        }
        c.status = ChallengeStatus::Active;
        c.winners.push(player);
        let mut transfers: Vec<Transfer> = Vec::new();
        if c.winners.len() == c.max_winners as usize {
            c.status = ChallengeStatus::Completed;
            let each = c.reward_pool / (c.max_winners as i128);
            transfers = payouts_exec(&c.winners, cfg.token, self.contract, each);
        }
        self.challenges.insert(challenge_id, c);
        assert(self.challenges@.dom() =~= old_challenges.dom());
        assert forall|k: u32| #[trigger] self.challenges@.contains_key(k) implies self.challenges@[k].wf() by {
            if k != challenge_id {
                assert(old_challenges.contains_key(k));
            }
        }
        Ok(transfers)
    }

    /// The error of `expire_challenge`, checked in the order of the contract.
    pub open spec fn expire_error(&self, challenge_id: u32, now: u64) -> Option<FlashError> {
        if !self.challenges@.contains_key(challenge_id) {
            Some(FlashError::ChallengeNotFound)
        } else if now <= self.challenges@[challenge_id].end_at {
            Some(FlashError::NotEnded)
        } else if self.challenges@[challenge_id].status == ChallengeStatus::Completed
            || self.challenges@[challenge_id].status == ChallengeStatus::Expired {
            Some(FlashError::AlreadyFinalized)
        } else if self.config is None {
            Some(FlashError::NotInitialized)
        } else {
            None
        }
    }

    /// Closes a challenge whose window has passed: each winner gets the share
    /// of one place and the admin gets what is left of the pool. Returns the
    /// payments.
    pub fn expire_challenge(&mut self, challenge_id: u32, now: u64) -> (r: Result<Vec<Transfer>, FlashError>)
        requires
            old(self).wf(),
        ensures
            final(self).wf(),
            r matches Ok(ts) ==> transfer_total(ts@) == old(self).challenges@[challenge_id].reward_pool,
            match old(self).expire_error(challenge_id, now) {
                Some(e) => r == Err::<Vec<Transfer>, FlashError>(e) && *final(self) == *old(self),
                None => {
                    let c = old(self).challenges@[challenge_id];
                    let cfg = old(self).config.unwrap();
                    let each = c.reward_pool as int / c.max_winners as int;
                    let left = c.reward_pool - c.winners@.len() * each;
                    let nc = final(self).challenges@[challenge_id];
                    &&& r is Ok
                    &&& r.unwrap()@ == payouts(c.winners@, cfg.token, old(self).contract, each as i128) + if left > 0 {
                        seq![Transfer { token: cfg.token, from: old(self).contract, to: cfg.admin, amount: left as i128 }]
                    } else {
                        Seq::<Transfer>::empty()
                    }
                    &&& final(self).challenges@.dom() == old(self).challenges@.dom()
                    &&& nc.status == ChallengeStatus::Expired
                    &&& nc.winners@ == c.winners@
                    &&& nc.id == c.id && nc.puzzle_id == c.puzzle_id && nc.reward_pool == c.reward_pool
                    &&& nc.max_winners == c.max_winners && nc.start_at == c.start_at && nc.end_at == c.end_at
                    &&& forall|k: u32| k != challenge_id && #[trigger] old(self).challenges@.contains_key(k)
                        ==> final(self).challenges@[k] == old(self).challenges@[k]
                    &&& final(self).config == old(self).config
                    &&& final(self).challenge_count == old(self).challenge_count
                    &&& final(self).contract == old(self).contract
                },
            },
    {
        match self.challenges.get(&challenge_id) {
            Some(c) => {
                if now <= c.end_at {
                    return Err(FlashError::NotEnded);
                }
                if c.status == ChallengeStatus::Completed || c.status == ChallengeStatus::Expired {
                    return Err(FlashError::AlreadyFinalized);
                }
            },
            None => return Err(FlashError::ChallengeNotFound),
        }
        let cfg = match self.config {
            Some(c) => c,
            None => return Err(FlashError::NotInitialized),
        };
        let ghost old_challenges = self.challenges@;
        assert(self.challenges@.contains_key(challenge_id));
        let mut c = self.challenges.remove(&challenge_id).unwrap();
        assert(c.wf());
        c.status = ChallengeStatus::Expired;
        let each = c.reward_pool / (c.max_winners as i128);
        let n = c.winners.len();
        assert(n * each <= c.reward_pool && 0 <= each) by (nonlinear_arith)
            requires
                n <= c.max_winners,
                c.max_winners > 0,
                c.reward_pool > 0,
                each == c.reward_pool as int / (c.max_winners as int),
        ;
        let mut transfers = payouts_exec(&c.winners, cfg.token, self.contract, each);
        let left = c.reward_pool - (n as i128) * each;
        if left > 0 {
            transfers.push(Transfer { token: cfg.token, from: self.contract, to: cfg.admin, amount: left });
        }
        proof {
            let ps = payouts(c.winners@, cfg.token, self.contract, each);
            lemma_total_payouts(c.winners@, cfg.token, self.contract, each);
            assert(transfer_total(ps) == n * each);
            if left > 0 {
                let tail = seq![Transfer { token: cfg.token, from: self.contract, to: cfg.admin, amount: left }];
                assert(transfers@ =~= ps + tail);
                lemma_total_concat(ps, tail);
                assert(tail.drop_last() =~= Seq::<Transfer>::empty());
                assert(transfer_total(Seq::<Transfer>::empty()) == 0);
                assert(tail.len() == 1 && tail.last().amount == left);
                assert(transfer_total(tail) == transfer_total(tail.drop_last()) + tail.last().amount);
                assert(transfer_total(transfers@) == c.reward_pool);
            } else {
                assert(transfers@ == ps);
                assert(transfer_total(transfers@) == c.reward_pool);
            }
        }
        self.challenges.insert(challenge_id, c);
        assert(self.challenges@.dom() =~= old_challenges.dom());
        assert forall|k: u32| #[trigger] self.challenges@.contains_key(k) implies self.challenges@[k].wf() by {
            if k != challenge_id {
                assert(old_challenges.contains_key(k));
            }
        }
        Ok(transfers)
    }

    /// The status, the winners and the seconds left of a challenge at `now`.
    pub fn get_challenge(&self, id: u32, now: u64) -> (r: Result<(ChallengeStatus, Vec<AccountId>, u64), FlashError>)
        requires
            self.wf(),
        ensures
            !self.challenges@.contains_key(id) ==> r == Err::<(ChallengeStatus, Vec<AccountId>, u64), FlashError>(
                FlashError::ChallengeNotFound,
            ),
            self.challenges@.contains_key(id) ==> {
                let c = self.challenges@[id];
                &&& r is Ok
                &&& r.unwrap().0 == c.status
                &&& r.unwrap().1@ == c.winners@
                &&& r.unwrap().2 == if now < c.end_at && c.status != ChallengeStatus::Completed && c.status
                    != ChallengeStatus::Expired {
                    if now >= c.start_at {
                        c.end_at - now
                    } else {
                        c.end_at - c.start_at
                    }
                } else {
                    0
                }
            },
    {
        match self.challenges.get(&id) {
            Some(c) => {
                let mut remaining: u64 = 0;
                if now < c.end_at && c.status != ChallengeStatus::Completed && c.status != ChallengeStatus::Expired {
                    if now >= c.start_at {
                        remaining = c.end_at - now;
                    } else {
                        assert(self.challenges@.contains_key(id));
                        remaining = c.end_at - c.start_at;
                    }
                }
                Ok((c.status, crate::util::copy_vec(&c.winners), remaining))
            },
            None => Err(FlashError::ChallengeNotFound),
        }
    }
}

} // verus!
