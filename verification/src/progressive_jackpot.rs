//! A progressive jackpot: contributions accumulate in the current cycle; the
//! winner of the cycle's puzzle takes it before the deadline, and otherwise
//! the whole balance rolls over into the next cycle.
use vstd::prelude::*;
use std::collections::HashMap;
use crate::util::AccountId;

verus! {

broadcast use vstd::std_specs::hash::group_hash_axioms;

#[derive(Clone, Copy, Debug, PartialEq, Eq, Structural)]
pub enum JackpotStatus {
    Active,
    Claimed,
    Expired,
}

#[derive(Clone, Copy, Debug, PartialEq, Eq, Structural)]
pub struct Jackpot {
    pub cycle_id: u64,
    pub balance: i128,
    pub target_puzzle_id: u64,
    pub deadline: u64,
    pub winner: Option<AccountId>,
    pub status: JackpotStatus,
}

#[derive(Clone, Copy, Debug, PartialEq, Eq, Structural)]
pub enum JackpotError {
    NotInitialized,
    InvalidCycle,
    NotClaimable,
    DeadlinePassed,
    AlreadyClaimed,
    HistoryNotFound,
    Overflow,
}

/// The storage of the contract.
pub struct ProgressiveJackpot {
    pub admin: Option<AccountId>,
    pub oracle: Option<AccountId>,
    pub current: Option<Jackpot>,
    pub history: HashMap<u64, Jackpot>,
}

impl ProgressiveJackpot {
    /// An empty contract.
    pub fn new() -> (r: Self)
        ensures
            r.admin is None && r.oracle is None && r.current is None,
            r.history@ == Map::<u64, Jackpot>::empty(),
    {
        ProgressiveJackpot { admin: None, oracle: None, current: None, history: HashMap::new() }
    }

    /// Stores the admin and the oracle and starts cycle 1 with nothing in it.
    pub fn init(&mut self, admin: AccountId, oracle: AccountId)
        ensures
            final(self).admin == Some(admin),
            final(self).oracle == Some(oracle),
            final(self).current == Some(
                Jackpot {
                    cycle_id: 1,
                    balance: 0,
                    target_puzzle_id: 0,
                    deadline: 0,
                    winner: None,
                    status: JackpotStatus::Active,
                },
            ),
            final(self).history@ == old(self).history@,
    {
        self.admin = Some(admin);
        self.oracle = Some(oracle);
        self.current = Some(
            Jackpot {
                cycle_id: 1,
                balance: 0,
                target_puzzle_id: 0,
                deadline: 0,
                winner: None,
                status: JackpotStatus::Active,
            },
        );
    }

    /// Adds `amount` to the current jackpot (the oracle's call).
    pub fn contribute(&mut self, amount: i128) -> (r: Result<(), JackpotError>)
        ensures
            (old(self).oracle is None || old(self).current is None) ==> r == Err::<(), JackpotError>(
                JackpotError::NotInitialized,
            ) && *final(self) == *old(self),
            old(self).oracle is Some && old(self).current is Some && (old(self).current.unwrap().balance + amount
                > i128::MAX || old(self).current.unwrap().balance + amount < i128::MIN) ==> r == Err::<(), JackpotError>(
                JackpotError::Overflow,
            ) && *final(self) == *old(self),
            old(self).oracle is Some && old(self).current is Some && i128::MIN <= old(self).current.unwrap().balance
                + amount <= i128::MAX ==> r is Ok && *final(self) == (ProgressiveJackpot {
                current: Some(
                    Jackpot {
                        balance: (old(self).current.unwrap().balance + amount) as i128,
                        ..old(self).current.unwrap()
                    },
                ),
                ..*old(self)
            }),
    {
        if self.oracle.is_none() {
            return Err(JackpotError::NotInitialized);
        }
        let mut j = match self.current {
            Some(j) => j,
            None => return Err(JackpotError::NotInitialized),
        };
        j.balance = match j.balance.checked_add(amount) {
            Some(b) => b,
            None => return Err(JackpotError::Overflow),
        };
        self.current = Some(j);
        Ok(())
    }

    /// Sets the current cycle's puzzle and deadline (the admin's call).
    pub fn set_jackpot_puzzle(&mut self, puzzle_id: u64, deadline: u64) -> (r: Result<(), JackpotError>)
        ensures
            (old(self).admin is None || old(self).current is None) ==> r == Err::<(), JackpotError>(
                JackpotError::NotInitialized,
            ) && *final(self) == *old(self),
            old(self).admin is Some && old(self).current is Some ==> r is Ok && *final(self) == (ProgressiveJackpot {
                current: Some(Jackpot { target_puzzle_id: puzzle_id, deadline, ..old(self).current.unwrap() }),
                ..*old(self)
            }),
    {
        if self.admin.is_none() {
            return Err(JackpotError::NotInitialized);
        }
        let mut j = match self.current {
            Some(j) => j,
            None => return Err(JackpotError::NotInitialized),
        };
        j.target_puzzle_id = puzzle_id;
        j.deadline = deadline;
        self.current = Some(j);
        Ok(())
    }

    /// The error of `claim_jackpot`, checked in the order of the contract.
    pub open spec fn claim_error(&self, cycle_id: u64, now: u64) -> Option<JackpotError> {
        if self.oracle is None || self.current is None {
            Some(JackpotError::NotInitialized)
        } else if self.current.unwrap().cycle_id != cycle_id {
            Some(JackpotError::InvalidCycle)
        } else if self.current.unwrap().status != JackpotStatus::Active {
            Some(JackpotError::NotClaimable)
        } else if now > self.current.unwrap().deadline {
            Some(JackpotError::DeadlinePassed)
        } else {
            None
        }
    }

    /// Awards the current cycle's jackpot to `player` at time `now` (with the
    /// oracle's approval); the cycle is recorded as claimed. Returns the
    /// amount won.
    pub fn claim_jackpot(&mut self, cycle_id: u64, player: AccountId, now: u64) -> (r: Result<i128, JackpotError>)
        ensures
            r is Ok ==> forall|t: u64| #[trigger] final(self).claim_error(cycle_id, t) is Some,
            match old(self).claim_error(cycle_id, now) {
                Some(e) => r == Err::<i128, JackpotError>(e) && *final(self) == *old(self),
                None => {
                    let j = old(self).current.unwrap();
                    let done = Jackpot { balance: 0, winner: Some(player), status: JackpotStatus::Claimed, ..j };
                    &&& r == Ok::<i128, JackpotError>(j.balance)
                    &&& final(self).current == Some(done)
                    &&& final(self).history@ == old(self).history@.insert(cycle_id, done)
                    &&& final(self).admin == old(self).admin
                    &&& final(self).oracle == old(self).oracle
                },
            },
    {
        if self.oracle.is_none() {
            return Err(JackpotError::NotInitialized);
        }
        let j = match self.current {
            Some(j) => j,
            None => return Err(JackpotError::NotInitialized),
        };
        if j.cycle_id != cycle_id {
            return Err(JackpotError::InvalidCycle);
        }
        if j.status != JackpotStatus::Active {
            return Err(JackpotError::NotClaimable);
        }
        if now > j.deadline {
            return Err(JackpotError::DeadlinePassed);
        }
        let done = Jackpot { balance: 0, winner: Some(player), status: JackpotStatus::Claimed, ..j };
        self.history.insert(cycle_id, done);
        self.current = Some(done);
        Ok(j.balance)
    }

    /// Closes an unclaimed cycle: records it as expired and opens the next
    /// cycle with the same balance.
    pub fn rollover(&mut self) -> (r: Result<(), JackpotError>)
        ensures
            match (if old(self).current is None {
                Some(JackpotError::NotInitialized)
            } else if old(self).current.unwrap().status == JackpotStatus::Claimed {
                Some(JackpotError::AlreadyClaimed)
            } else if old(self).current.unwrap().cycle_id == u64::MAX {
                Some(JackpotError::Overflow)
            } else {
                None
            }) {
                Some(e) => r == Err::<(), JackpotError>(e) && *final(self) == *old(self),
                None => {
                    let j = old(self).current.unwrap();
                    &&& r is Ok
                    &&& final(self).history@ == old(self).history@.insert(
                        j.cycle_id,
                        Jackpot { status: JackpotStatus::Expired, ..j },
                    )
                    &&& final(self).current == Some(
                        Jackpot {
                            cycle_id: (j.cycle_id + 1) as u64,
                            balance: j.balance,
                            target_puzzle_id: 0,
                            deadline: 0,
                            winner: None,
                            status: JackpotStatus::Active,
                        },
                    )
                    &&& final(self).admin == old(self).admin
                    &&& final(self).oracle == old(self).oracle
                },
            },
    {
        let j = match self.current {
            Some(j) => j,
            None => return Err(JackpotError::NotInitialized),
        };
        if j.status == JackpotStatus::Claimed {
            return Err(JackpotError::AlreadyClaimed);
        }
        if j.cycle_id == u64::MAX {
            return Err(JackpotError::Overflow);
        }
        self.history.insert(j.cycle_id, Jackpot { status: JackpotStatus::Expired, ..j });
        self.current = Some(
            Jackpot {
                cycle_id: j.cycle_id + 1,
                balance: j.balance,
                target_puzzle_id: 0,
                deadline: 0,
                winner: None,
                status: JackpotStatus::Active,
            },
        );
        Ok(())
    }

    /// The current jackpot.
    pub fn get_jackpot(&self) -> (r: Result<Jackpot, JackpotError>)
        ensures
            match self.current {
                Some(j) => r == Ok::<Jackpot, JackpotError>(j),
                None => r == Err::<Jackpot, JackpotError>(JackpotError::NotInitialized),
            },
    {
        match self.current {
            Some(j) => Ok(j),
            None => Err(JackpotError::NotInitialized),
        }
    }

    /// The recorded outcome of cycle `cycle_id`.
    pub fn get_jackpot_history(&self, cycle_id: u64) -> (r: Result<Jackpot, JackpotError>)
        ensures
            self.history@.contains_key(cycle_id) ==> r == Ok::<Jackpot, JackpotError>(self.history@[cycle_id]),
            !self.history@.contains_key(cycle_id) ==> r == Err::<Jackpot, JackpotError>(JackpotError::HistoryNotFound),
    {
        match self.history.get(&cycle_id) {
            Some(j) => Ok(*j),
            None => Err(JackpotError::HistoryNotFound),
        }
    }
}

} // verus!
