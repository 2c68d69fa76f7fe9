//! Rewards that can be taken back: each recorded reward stays open to
//! dispute for a window after it was issued. Within the window the admin may
//! flag it and then claw it back to the pool; once the window has passed it
//! can be locked for good.
use vstd::prelude::*;
use crate::util::{AccountId, Transfer};

verus! {

#[derive(Clone, Copy, Debug, PartialEq, Eq, Structural)]
pub enum RewardStatus {
    Active,
    ClawedBack,
    Locked,
}

#[derive(Clone, Copy, Debug, PartialEq, Eq, Structural)]
pub enum ClawbackError {
    NotAdmin,
    RewardNotFound,
    NotActive,
    WindowClosed,
    WindowOpen,
    NotFlagged,
    TooManyRewards,
}

pub struct RewardRecord {
    pub id: u64,
    pub recipient: AccountId,
    pub amount: i128,
    pub issued_at: u64,
    pub status: RewardStatus,
    pub flag_reason: Option<String>,
}

/// The reason as text, where there is one.
pub open spec fn reason_view(r: Option<String>) -> Option<Seq<char>> {
    match r {
        Some(s) => Some(s@),
        None => None,
    }
}

impl RewardRecord {
    /// Field by field equality, the reason compared as text.
    pub open spec fn same(&self, other: &RewardRecord) -> bool {
        &&& self.id == other.id
        &&& self.recipient == other.recipient
        &&& self.amount == other.amount
        &&& self.issued_at == other.issued_at
        &&& self.status == other.status
        &&& reason_view(self.flag_reason) == reason_view(other.flag_reason)
    }

    pub open spec fn is_flagged(&self) -> bool {
        self.flag_reason is Some
    }

    /// Whether the dispute window of `window` seconds is still open at `now`.
    pub open spec fn window_open(&self, window: u64, now: u64) -> bool {
        (now as int) < self.issued_at as int + window as int
    }

    fn copy(&self) -> (r: RewardRecord)
        ensures
            r.same(self),
    {
        let flag_reason = match &self.flag_reason {
            Some(s) => Some(s.clone()),
            None => None,
        };
        RewardRecord {
            id: self.id,
            recipient: self.recipient,
            amount: self.amount,
            issued_at: self.issued_at,
            status: self.status,
            flag_reason,
        }
    }
}

/// The storage of the contract: rewards are paid in `token` and clawed back
/// to `pool`; `records[i]` is the reward with id `i`.
pub struct ClawbackRewardContract {
    pub admin: AccountId,
    pub token: AccountId,
    pub pool: AccountId,
    pub dispute_window: u64,
    pub records: Vec<RewardRecord>,
}

/// The rewards of `recipient` among `s` that were clawed back, in order.
pub open spec fn clawed_back_of(s: Seq<RewardRecord>, recipient: AccountId) -> Seq<RewardRecord>
    decreases s.len(),
{
    if s.len() == 0 {
        Seq::empty()
    } else {
        let rest = clawed_back_of(s.drop_last(), recipient);
        let last = s.last();
        if last.recipient == recipient && last.status == RewardStatus::ClawedBack {
            rest.push(last)
        } else {
            rest
        }
    }
}

/// Two sequences of records that agree element by element.
pub open spec fn same_records(a: Seq<RewardRecord>, b: Seq<RewardRecord>) -> bool {
    a.len() == b.len() && forall|i: int| 0 <= i < a.len() ==> #[trigger] a[i].same(&b[i])
}

impl ClawbackRewardContract {
    /// Every record sits at the index of its id.
    pub open spec fn wf(&self) -> bool {
        forall|i: int| 0 <= i < self.records@.len() ==> #[trigger] self.records@[i].id == i
    }

    /// The storage after the record at `id` has been replaced by `rec`, all
    /// else unchanged.
    pub open spec fn updated(&self, post: &Self, id: int, rec: RewardRecord) -> bool {
        &&& post.admin == self.admin
        &&& post.token == self.token
        &&& post.pool == self.pool
        &&& post.dispute_window == self.dispute_window
        &&& post.records@.len() == self.records@.len()
        &&& post.records@[id].same(&rec)
        &&& forall|j: int| 0 <= j < self.records@.len() && j != id ==> post.records@[j] == self.records@[j]
    }

    /// Why `flag_reward` refuses, in the order of its checks.
    pub open spec fn flag_error(&self, caller: AccountId, reward_id: u64, now: u64) -> Option<ClawbackError> {
        if caller != self.admin {
            Some(ClawbackError::NotAdmin)
        } else if reward_id >= self.records@.len() {
            Some(ClawbackError::RewardNotFound)
        } else if self.records@[reward_id as int].status != RewardStatus::Active {
            Some(ClawbackError::NotActive)
        } else if !self.records@[reward_id as int].window_open(self.dispute_window, now) {
            Some(ClawbackError::WindowClosed)
        } else {
            None
        }
    }

    /// Why `execute_clawback` refuses, in the order of its checks.
    pub open spec fn clawback_error(&self, caller: AccountId, reward_id: u64, now: u64) -> Option<ClawbackError> {
        if caller != self.admin {
            Some(ClawbackError::NotAdmin)
        } else if reward_id >= self.records@.len() {
            Some(ClawbackError::RewardNotFound)
        } else if self.records@[reward_id as int].status != RewardStatus::Active {
            Some(ClawbackError::NotActive)
        } else if !self.records@[reward_id as int].is_flagged() {
            Some(ClawbackError::NotFlagged)
        } else if !self.records@[reward_id as int].window_open(self.dispute_window, now) {
            Some(ClawbackError::WindowClosed)
        } else {
            None
        }
    }

    /// Why `lock_reward` refuses, in the order of its checks.
    pub open spec fn lock_error(&self, reward_id: u64, now: u64) -> Option<ClawbackError> {
        if reward_id >= self.records@.len() {
            Some(ClawbackError::RewardNotFound)
        } else if self.records@[reward_id as int].status != RewardStatus::Active {
            Some(ClawbackError::NotActive)
        } else if self.records@[reward_id as int].window_open(self.dispute_window, now) {
            Some(ClawbackError::WindowOpen)
        } else {
            None
        }
    }

    /// A contract with no rewards recorded yet.
    pub fn new(admin: AccountId, token: AccountId, pool: AccountId, dispute_window: u64) -> (r: Self)
        ensures
            r.admin == admin,
            r.token == token,
            r.pool == pool,
            r.dispute_window == dispute_window,
            r.records@.len() == 0,
            r.wf(),
    {
        ClawbackRewardContract { admin, token, pool, dispute_window, records: Vec::new() }
    }

    fn window_open_exec(&self, i: usize, now: u64) -> (r: bool)
        requires
            i < self.records@.len(),
        ensures
            r == self.records@[i as int].window_open(self.dispute_window, now),
    {
        (now as u128) < (self.records[i].issued_at as u128) + (self.dispute_window as u128)
    }

    /// Records an active, unflagged reward of `amount` for `recipient`,
    /// issued at `now`, and returns its id: the number of rewards recorded
    /// before it.
    pub fn record_reward(&mut self, recipient: AccountId, amount: i128, now: u64) -> (r: Result<u64, ClawbackError>)
        requires
            old(self).wf(),
        ensures
            final(self).wf(),
            old(self).records@.len() >= u64::MAX ==> r == Err::<u64, ClawbackError>(ClawbackError::TooManyRewards)
                && *final(self) == *old(self),
            old(self).records@.len() < u64::MAX ==> {
                &&& r == Ok::<u64, ClawbackError>(old(self).records@.len() as u64)
                &&& final(self).admin == old(self).admin && final(self).token == old(self).token
                &&& final(self).pool == old(self).pool && final(self).dispute_window == old(self).dispute_window
                &&& final(self).records@ == old(self).records@.push(RewardRecord {
                    id: old(self).records@.len() as u64,
                    recipient,
                    amount,
                    issued_at: now,
                    status: RewardStatus::Active,
                    flag_reason: None,
                })
            },
    {
        let n: usize = self.records.len();
        if n as u128 >= u64::MAX as u128 {
            return Err(ClawbackError::TooManyRewards);
        }
        let id: u64 = n as u64;
        self.records.push(RewardRecord {
            id,
            recipient,
            amount,
            issued_at: now,
            status: RewardStatus::Active,
            flag_reason: None,
        });
        Ok(id)
    }

    /// The admin flags an active reward, within its dispute window, with
    /// `reason`.
    pub fn flag_reward(&mut self, caller: AccountId, reward_id: u64, reason: String, now: u64) -> (r: Result<(), ClawbackError>)
        requires
            old(self).wf(),
        ensures
            final(self).wf(),
            old(self).flag_error(caller, reward_id, now) matches Some(e) ==> r == Err::<(), ClawbackError>(e)
                && *final(self) == *old(self),
            old(self).flag_error(caller, reward_id, now) is None ==> r is Ok && old(self).updated(
                &*final(self),
                reward_id as int,
                RewardRecord { flag_reason: Some(reason), ..old(self).records@[reward_id as int] },
            ),
    {
        if caller != self.admin {
            return Err(ClawbackError::NotAdmin);
        }
        if reward_id as u128 >= self.records.len() as u128 {
            return Err(ClawbackError::RewardNotFound);
        }
        let i: usize = reward_id as usize;
        if self.records[i].status != RewardStatus::Active {
            return Err(ClawbackError::NotActive);
        }
        if !self.window_open_exec(i, now) {
            return Err(ClawbackError::WindowClosed);
        }
        let ghost pre = *self;
        let mut rec = self.records[i].copy();
        rec.flag_reason = Some(reason);
        self.records[i] = rec;
        proof {
            assert(pre.updated(&*self, reward_id as int, RewardRecord { flag_reason: Some(reason), ..pre.records@[reward_id as int] }));
        }
        Ok(())
    }

    /// The admin claws a flagged, active reward back within its dispute
    /// window: the reward becomes `ClawedBack` and its amount is ordered from
    /// the recipient back to the pool.
    pub fn execute_clawback(&mut self, caller: AccountId, reward_id: u64, now: u64) -> (r: Result<Transfer, ClawbackError>)
        requires
            old(self).wf(),
        ensures
            r is Ok ==> forall|c: AccountId, t: u64| #[trigger] final(self).flag_error(c, reward_id, t) is Some && final(self).clawback_error(c, reward_id, t) is Some && final(self).lock_error(reward_id, t) is Some,
            final(self).wf(),
            old(self).clawback_error(caller, reward_id, now) matches Some(e) ==> r == Err::<Transfer, ClawbackError>(e)
                && *final(self) == *old(self),
            old(self).clawback_error(caller, reward_id, now) is None ==> {
                let rec = old(self).records@[reward_id as int];
                &&& r == Ok::<Transfer, ClawbackError>(Transfer {
                    token: old(self).token,
                    from: rec.recipient,
                    to: old(self).pool,
                    amount: rec.amount,
                })
                &&& old(self).updated(&*final(self), reward_id as int, RewardRecord { status: RewardStatus::ClawedBack, ..rec })
            },
    {
        if caller != self.admin {
            return Err(ClawbackError::NotAdmin);
        }
        if reward_id as u128 >= self.records.len() as u128 {
            return Err(ClawbackError::RewardNotFound);
        }
        let i: usize = reward_id as usize;
        if self.records[i].status != RewardStatus::Active {
            return Err(ClawbackError::NotActive);
        }
        if self.records[i].flag_reason.is_none() {
            return Err(ClawbackError::NotFlagged);
        }
        if !self.window_open_exec(i, now) {
            return Err(ClawbackError::WindowClosed);
        }
        let mut rec = self.records[i].copy();
        rec.status = RewardStatus::ClawedBack;
        let t = Transfer { token: self.token, from: rec.recipient, to: self.pool, amount: rec.amount };
        self.records[i] = rec;
        Ok(t)
    }

    /// Locks an active reward once its dispute window has passed; it can then
    /// no longer be flagged or clawed back.
    pub fn lock_reward(&mut self, reward_id: u64, now: u64) -> (r: Result<(), ClawbackError>)
        requires
            old(self).wf(),
        ensures
            r is Ok ==> forall|c: AccountId, t: u64| #[trigger] final(self).flag_error(c, reward_id, t) is Some && final(self).clawback_error(c, reward_id, t) is Some && final(self).lock_error(reward_id, t) is Some,
            final(self).wf(),
            old(self).lock_error(reward_id, now) matches Some(e) ==> r == Err::<(), ClawbackError>(e)
                && *final(self) == *old(self),
            old(self).lock_error(reward_id, now) is None ==> r is Ok && old(self).updated(
                &*final(self),
                reward_id as int,
                RewardRecord { status: RewardStatus::Locked, ..old(self).records@[reward_id as int] },
            ),
    {
        if reward_id as u128 >= self.records.len() as u128 {
            return Err(ClawbackError::RewardNotFound);
        }
        let i: usize = reward_id as usize;
        if self.records[i].status != RewardStatus::Active {
            return Err(ClawbackError::NotActive);
        }
        if self.window_open_exec(i, now) {
            return Err(ClawbackError::WindowOpen);
        }
        let mut rec = self.records[i].copy();
        rec.status = RewardStatus::Locked;
        self.records[i] = rec;
        Ok(())
    }

    /// The record of `reward_id`.
    pub fn get_reward(&self, reward_id: u64) -> (r: Result<RewardRecord, ClawbackError>)
        ensures
            reward_id >= self.records@.len() ==> r == Err::<RewardRecord, ClawbackError>(ClawbackError::RewardNotFound),
            reward_id < self.records@.len() ==> (r matches Ok(rec) && rec.same(&self.records@[reward_id as int])),
    {
        if reward_id as u128 >= self.records.len() as u128 {
            return Err(ClawbackError::RewardNotFound);
        }
        Ok(self.records[reward_id as usize].copy())
    }

    /// The rewards of `recipient` that were clawed back, in the order they
    /// were recorded.
    pub fn get_clawback_history(&self, recipient: AccountId) -> (r: Vec<RewardRecord>)
        ensures
            same_records(r@, clawed_back_of(self.records@, recipient)),
    {
        let mut out: Vec<RewardRecord> = Vec::new();
        let mut i: usize = 0;
        while i < self.records.len()
            invariant
                i <= self.records@.len(),
                same_records(out@, clawed_back_of(self.records@.take(i as int), recipient)),
            decreases self.records@.len() - i,
        {
            let ghost prev = out@;
            proof {
                let t = self.records@.take(i as int + 1);
                assert(t.drop_last() =~= self.records@.take(i as int));
                assert(t.last() == self.records@[i as int]);
            }
            if self.records[i].recipient == recipient && self.records[i].status == RewardStatus::ClawedBack {
                out.push(self.records[i].copy());
                proof {
                    let c = clawed_back_of(self.records@.take(i as int + 1), recipient);
                    assert forall|j: int| 0 <= j < out@.len() implies #[trigger] out@[j].same(&c[j]) by {
                        if j < prev.len() {
                            assert(out@[j] == prev[j]);
                        }
                    }
                }
            }
            i = i + 1;
        }
        assert(self.records@.take(self.records@.len() as int) =~= self.records@);
        out
    }
}

} // verus!
