//! A staking pool paying puzzle solvers and stakers by epoch: an oracle
//! records weighted solves during an epoch; when the admin closes it with a
//! reward budget, each player may claim a solver share in proportion to its
//! solves and a staker share in proportion to its stake.
use vstd::prelude::*;
use std::collections::{HashMap, HashSet};
use crate::util::{AccountId, Transfer, pair_key, pair_key_spec, trunc_div, contains_u64, seq_without, without_u64};

verus! {

broadcast use vstd::std_specs::hash::group_hash_axioms;

pub const BASIS_POINTS: u32 = 10000;

/// The time a stake stays locked: seven days, in seconds.
pub const LOCK_PERIOD_SECONDS: u64 = 604800;

#[derive(Clone, Copy, Debug, PartialEq, Eq, Structural)]
pub struct PoolConfig {
    pub admin: AccountId,
    pub staking_token: AccountId,
    pub reward_token: AccountId,
    pub oracle: AccountId,
    pub epoch_duration: u64,
    pub lock_period: u64,
    pub staker_yield_share: u32,
    pub solver_yield_share: u32,
    pub paused: bool,
}

#[derive(Clone, Copy, Debug, PartialEq, Eq, Structural)]
pub struct StakePosition {
    pub staker: AccountId,
    pub amount: i128,
    pub staked_at: u64,
    pub last_claim_epoch: u64,
}

#[derive(Clone, Copy, Debug, PartialEq, Eq, Structural)]
pub struct Epoch {
    pub epoch_id: u64,
    pub start_at: u64,
    pub end_at: u64,
    pub total_solves: i128,
    pub total_staked: i128,
    pub reward_budget: i128,
    pub distributed: bool,
}

#[derive(Clone, Copy, Debug, PartialEq, Eq, Structural)]
pub struct PlayerSolves {
    pub player: AccountId,
    pub weighted_solves: i128,
}

pub struct StakeInfo {
    pub position: StakePosition,
    pub unclaimed_epochs: Vec<u64>,
}

#[derive(Clone, Copy, Debug, PartialEq, Eq, Structural)]
pub enum PoolError {
    AlreadyInitialized,
    NotInitialized,
    AdminOnly,
    OracleOnly,
    Paused,
    InvalidYieldShares,
    AmountNotPositive,
    NoStakePosition,
    InsufficientStake,
    StakeLocked,
    DifficultyNotPositive,
    EpochNotFound,
    EpochEnded,
    EpochNotEnded,
    EpochAlreadyClosed,
    AlreadyClaimed,
    NotDistributed,
    NoReward,
    Overflow,
}

/// The storage of the contract; `contract` is its own account.
pub struct PuzzlePoolStaking {
    pub contract: AccountId,
    pub config: Option<PoolConfig>,
    pub positions: HashMap<u64, StakePosition>,
    pub epochs: HashMap<u64, Epoch>,
    /// Weighted solves by `pair_key(player, epoch id)`.
    pub solves: HashMap<u128, PlayerSolves>,
    /// The rewards claimed, by `pair_key(player, epoch id)`.
    pub claimed: HashSet<u128>,
    pub total_staked: i128,
    pub current_epoch_id: u64,
    pub stakers: Vec<AccountId>,
}

/// A share of `budget`: `bps` basis points of it, split in proportion
/// `weight / total`, each step rounded toward zero; `None` where a product
/// overflows.
pub open spec fn share_of(budget: i128, bps: u32, weight: i128, total: i128) -> Option<int> {
    let p1 = budget * bps;
    if p1 > i128::MAX || p1 < i128::MIN {
        None
    } else {
        let share = trunc_div(p1, 10000);
        let p2 = share * weight;
        if p2 > i128::MAX || p2 < i128::MIN {
            None
        } else {
            Some(trunc_div(p2, total as int))
        }
    }
}

fn share_exec(budget: i128, bps: u32, weight: i128, total: i128) -> (r: Option<i128>)
    requires
        total > 0,
    ensures
        match share_of(budget, bps, weight, total) {
            Some(v) => r == Some(v as i128),
            None => r is None,
        },
{
    let p1 = match budget.checked_mul(bps as i128) {
        Some(p) => p,
        None => return None,
    };
    let share = p1 / 10000;
    let p2 = match share.checked_mul(weight) {
        Some(p) => p,
        None => return None,
    };
    Some(p2 / total)
}

impl PuzzlePoolStaking {
    /// The solver part of `player`'s reward for epoch `e`: `Some(0)` where it
    /// has none, `None` where it overflows.
    pub open spec fn solver_part(&self, player: AccountId, epoch_id: u64, e: Epoch, cfg: PoolConfig) -> Option<int> {
        let key = pair_key_spec(player, epoch_id);
        if self.solves@.contains_key(key) && e.total_solves > 0 && self.solves@[key].weighted_solves > 0 {
            share_of(e.reward_budget, cfg.solver_yield_share, self.solves@[key].weighted_solves, e.total_solves)
        } else {
            Some(0)
        }
    }

    /// The staker part of `player`'s reward for epoch `e`.
    pub open spec fn staker_part(&self, player: AccountId, e: Epoch, cfg: PoolConfig) -> Option<int> {
        if self.positions@.contains_key(player) && self.positions@[player].amount > 0 && e.total_staked > 0 {
            share_of(e.reward_budget, cfg.staker_yield_share, self.positions@[player].amount, e.total_staked)
        } else {
            Some(0)
        }
    }

    /// `player`'s reward for epoch `e`; `None` where a step overflows.
    pub open spec fn reward_of(&self, player: AccountId, epoch_id: u64, e: Epoch, cfg: PoolConfig) -> Option<int> {
        match (self.solver_part(player, epoch_id, e, cfg), self.staker_part(player, e, cfg)) {
            (Some(a), Some(b)) => if a + b > i128::MAX || a + b < i128::MIN {
                None
            } else {
                Some(a + b)
            },
            _ => None,
        }
    }

    fn reward_exec(&self, player: AccountId, epoch_id: u64, e: Epoch, cfg: PoolConfig) -> (r: Option<i128>)
        ensures
            match self.reward_of(player, epoch_id, e, cfg) {
                Some(v) => r == Some(v as i128),
                None => r is None,
            },
    {
        let mut total: i128 = 0;
        match self.solves.get(&pair_key(player, epoch_id)) {
            Some(s) => {
                if e.total_solves > 0 && s.weighted_solves > 0 {
                    total = match share_exec(e.reward_budget, cfg.solver_yield_share, s.weighted_solves, e.total_solves) {
                        Some(v) => v,
                        None => return None,
                    };
                }
            },
            None => {},
        }
        match self.positions.get(&player) {
            Some(p) => {
                if p.amount > 0 && e.total_staked > 0 {
                    let part = match share_exec(e.reward_budget, cfg.staker_yield_share, p.amount, e.total_staked) {
                        Some(v) => v,
                        None => return None,
                    };
                    total = match total.checked_add(part) {
                        Some(t) => t,
                        None => return None,
                    };
                }
            },
            None => {},
        }
        Some(total)
    }

    /// The ids in `from .. to` of distributed epochs that `player` has not
    /// claimed, in order.
    pub open spec fn unclaimed(&self, player: AccountId, from: u64, to: nat) -> Seq<u64>
        decreases to,
    {
        if to <= from {
            Seq::empty()
        } else {
            let rest = self.unclaimed(player, from, (to - 1) as nat);
            let id = (to - 1) as u64;
            if self.epochs@.contains_key(id) && self.epochs@[id].distributed && !self.claimed@.contains(
                pair_key_spec(player, id),
            ) {
                rest.push(id)
            } else {
                rest
            }
        }
    }

    /// The error of the admin's calls.
    pub open spec fn admin_error(&self, admin: AccountId) -> Option<PoolError> {
        if self.config is None {
            Some(PoolError::NotInitialized)
        } else if self.config.unwrap().admin != admin {
            Some(PoolError::AdminOnly)
        } else {
            None
        }
    }

    /// The check that the pool is running.
    pub open spec fn pause_error(&self) -> Option<PoolError> {
        if self.config is None {
            Some(PoolError::NotInitialized)
        } else if self.config.unwrap().paused {
            Some(PoolError::Paused)
        } else {
            None
        }
    }

    /// Every table but the configuration is the same.
    pub open spec fn tables_same(&self, other: &Self) -> bool {
        &&& self.contract == other.contract
        &&& self.positions@ == other.positions@
        &&& self.epochs@ == other.epochs@
        &&& self.solves@ == other.solves@
        &&& self.claimed@ == other.claimed@
        &&& self.total_staked == other.total_staked
        &&& self.current_epoch_id == other.current_epoch_id
        &&& self.stakers@ == other.stakers@
    }

    /// A contract with empty storage, deployed at `contract`.
    pub fn new(contract: AccountId) -> (r: Self)
        ensures
            r.contract == contract,
            r.config is None,
            r.positions@ == Map::<u64, StakePosition>::empty(),
            r.epochs@ == Map::<u64, Epoch>::empty(),
            r.solves@ == Map::<u128, PlayerSolves>::empty(),
            r.claimed@ == Set::<u128>::empty(),
            r.total_staked == 0,
            r.current_epoch_id == 0,
            r.stakers@.len() == 0,
    {
        PuzzlePoolStaking {
            contract,
            config: None,
            positions: HashMap::new(),
            epochs: HashMap::new(),
            solves: HashMap::new(),
            claimed: HashSet::new(),
            total_staked: 0,
            current_epoch_id: 0,
            stakers: Vec::new(),
        }
    }

    /// Stores the configuration (30% of each budget to stakers, 70% to
    /// solvers, a seven-day lock) and opens epoch 0 at time `now`.
    pub fn initialize(
        &mut self,
        admin: AccountId,
        staking_token: AccountId,
        reward_token: AccountId,
        oracle: AccountId,
        epoch_duration: u64,
        now: u64,
    ) -> (r: Result<(), PoolError>)
        ensures
            old(self).config is Some ==> r == Err::<(), PoolError>(PoolError::AlreadyInitialized) && *final(self)
                == *old(self),
            old(self).config is None && now + epoch_duration > u64::MAX ==> r == Err::<(), PoolError>(
                PoolError::Overflow,
            ) && *final(self) == *old(self),
            old(self).config is None && now + epoch_duration <= u64::MAX ==> {
                &&& r is Ok
                &&& final(self).config == Some(
                    PoolConfig {
                        admin,
                        staking_token,
                        reward_token,
                        oracle,
                        epoch_duration,
                        lock_period: LOCK_PERIOD_SECONDS,
                        staker_yield_share: 3000,
                        solver_yield_share: 7000,
                        paused: false,
                    },
                )
                &&& final(self).total_staked == 0
                &&& final(self).current_epoch_id == 0
                &&& final(self).epochs@ == old(self).epochs@.insert(
                    0,
                    Epoch {
                        epoch_id: 0,
                        start_at: now,
                        end_at: (now + epoch_duration) as u64,
                        total_solves: 0,
                        total_staked: 0,
                        reward_budget: 0,
                        distributed: false,
                    },
                )
                &&& final(self).positions@ == old(self).positions@
                &&& final(self).solves@ == old(self).solves@
                &&& final(self).claimed@ == old(self).claimed@
                &&& final(self).stakers@ == old(self).stakers@
                &&& final(self).contract == old(self).contract
            },
    {
        if self.config.is_some() {
            return Err(PoolError::AlreadyInitialized);
        }
        if now > u64::MAX - epoch_duration {
            return Err(PoolError::Overflow);
        }
        self.config = Some(
            PoolConfig {
                admin,
                staking_token,
                reward_token,
                oracle,
                epoch_duration,
                lock_period: LOCK_PERIOD_SECONDS,
                staker_yield_share: 3000,
                solver_yield_share: 7000,
                paused: false,
            },
        );
        self.total_staked = 0;
        self.current_epoch_id = 0;
        self.epochs.insert(
            0,
            Epoch {
                epoch_id: 0,
                start_at: now,
                end_at: now + epoch_duration,
                total_solves: 0,
                total_staked: 0,
                reward_budget: 0,
                distributed: false,
            },
        );
        Ok(())
    }

    fn check_admin(&self, admin: AccountId) -> (r: Result<PoolConfig, PoolError>)
        ensures
            match self.admin_error(admin) {
                Some(e) => r == Err::<PoolConfig, PoolError>(e),
                None => r == Ok::<PoolConfig, PoolError>(self.config.unwrap()),
            },
    {
        match self.config {
            None => Err(PoolError::NotInitialized),
            Some(c) => if c.admin != admin {
                Err(PoolError::AdminOnly)
            } else {
                Ok(c)
            },
        }
    }

    fn check_running(&self) -> (r: Result<PoolConfig, PoolError>)
        ensures
            match self.pause_error() {
                Some(e) => r == Err::<PoolConfig, PoolError>(e),
                None => r == Ok::<PoolConfig, PoolError>(self.config.unwrap()),
            },
    {
        match self.config {
            None => Err(PoolError::NotInitialized),
            Some(c) => if c.paused {
                Err(PoolError::Paused)
            } else {
                Ok(c)
            },
        }
    }

    /// Sets the stakers' and solvers' shares of each budget (the admin's
    /// call); they must add up to 10000 basis points.
    pub fn update_yield_shares(&mut self, admin: AccountId, staker_yield_share: u32, solver_yield_share: u32) -> (r:
        Result<(), PoolError>)
        ensures
            match (if old(self).admin_error(admin) is Some {
                old(self).admin_error(admin)
            } else if staker_yield_share + solver_yield_share > u32::MAX {
                Some(PoolError::Overflow)
            } else if staker_yield_share + solver_yield_share != BASIS_POINTS {
                Some(PoolError::InvalidYieldShares)
            } else {
                None
            }) {
                Some(e) => r == Err::<(), PoolError>(e) && *final(self) == *old(self),
                None => r is Ok && final(self).config == Some(
                    PoolConfig { staker_yield_share, solver_yield_share, ..old(self).config.unwrap() },
                ) && final(self).tables_same(old(self)),
            },
    {
        let mut cfg = match self.check_admin(admin) {
            Ok(c) => c,
            Err(e) => return Err(e),
        };
        let sum = match staker_yield_share.checked_add(solver_yield_share) {
            Some(s) => s,
            None => return Err(PoolError::Overflow),
        };
        if sum != BASIS_POINTS {
            return Err(PoolError::InvalidYieldShares);
        }
        cfg.staker_yield_share = staker_yield_share;
        cfg.solver_yield_share = solver_yield_share;
        self.config = Some(cfg);
        Ok(())
    }

    /// Replaces the oracle (the admin's call).
    pub fn update_oracle(&mut self, admin: AccountId, oracle: AccountId) -> (r: Result<(), PoolError>)
        ensures
            match old(self).admin_error(admin) {
                Some(e) => r == Err::<(), PoolError>(e) && *final(self) == *old(self),
                None => r is Ok && final(self).config == Some(PoolConfig { oracle, ..old(self).config.unwrap() })
                    && final(self).tables_same(old(self)),
            },
    {
        let mut cfg = match self.check_admin(admin) {
            Ok(c) => c,
            Err(e) => return Err(e),
        };
        cfg.oracle = oracle;
        self.config = Some(cfg);
        Ok(())
    }

    /// Pauses or resumes the pool (the admin's call).
    pub fn set_paused(&mut self, admin: AccountId, paused: bool) -> (r: Result<(), PoolError>)
        ensures
            match old(self).admin_error(admin) {
                Some(e) => r == Err::<(), PoolError>(e) && *final(self) == *old(self),
                None => r is Ok && final(self).config == Some(PoolConfig { paused, ..old(self).config.unwrap() })
                    && final(self).tables_same(old(self)),
            },
    {
        let mut cfg = match self.check_admin(admin) {
            Ok(c) => c,
            Err(e) => return Err(e),
        };
        cfg.paused = paused;
        self.config = Some(cfg);
        Ok(())
    }

    /// The admin's deposit of `amount` reward tokens.
    pub fn add_rewards(&self, admin: AccountId, amount: i128) -> (r: Result<Transfer, PoolError>)
        ensures
            match self.admin_error(admin) {
                Some(e) => r == Err::<Transfer, PoolError>(e),
                None => r == Ok::<Transfer, PoolError>(
                    Transfer { token: self.config.unwrap().reward_token, from: admin, to: self.contract, amount },
                ),
            },
    {
        let cfg = match self.check_admin(admin) {
            Ok(c) => c,
            Err(e) => return Err(e),
        };
        Ok(Transfer { token: cfg.reward_token, from: admin, to: self.contract, amount })
    }

    /// The position of `staker`, if any.
    pub open spec fn position_or_new(&self, staker: AccountId, now: u64) -> StakePosition {
        if self.positions@.contains_key(staker) {
            self.positions@[staker]
        } else {
            StakePosition { staker, amount: 0, staked_at: now, last_claim_epoch: 0 }
        }
    }

    /// Adds `amount` to `staker`'s stake at time `now`, which restarts its
    /// lock; returns the deposit.
    pub fn stake(&mut self, staker: AccountId, amount: i128, now: u64) -> (r: Result<Transfer, PoolError>)
        ensures
            match (if old(self).pause_error() is Some {
                old(self).pause_error()
            } else if amount <= 0 {
                Some(PoolError::AmountNotPositive)
            } else if old(self).position_or_new(staker, now).amount + amount > i128::MAX || old(self).total_staked
                + amount > i128::MAX {
                Some(PoolError::Overflow)
            } else {
                None
            }) {
                Some(e) => r == Err::<Transfer, PoolError>(e) && *final(self) == *old(self),
                None => {
                    let p = old(self).position_or_new(staker, now);
                    &&& r == Ok::<Transfer, PoolError>(
                        Transfer {
                            token: old(self).config.unwrap().staking_token,
                            from: staker,
                            to: old(self).contract,
                            amount,
                        },
                    )
                    &&& final(self).positions@ == old(self).positions@.insert(
                        staker,
                        StakePosition { amount: (p.amount + amount) as i128, staked_at: now, ..p },
                    )
                    &&& final(self).total_staked == old(self).total_staked + amount
                    &&& final(self).stakers@ == if old(self).stakers@.contains(staker) {
                        old(self).stakers@
                    } else {
                        old(self).stakers@.push(staker)
                    }
                    &&& final(self).config == old(self).config
                    &&& final(self).epochs@ == old(self).epochs@
                    &&& final(self).solves@ == old(self).solves@
                    &&& final(self).claimed@ == old(self).claimed@
                    &&& final(self).current_epoch_id == old(self).current_epoch_id
                    &&& final(self).contract == old(self).contract
                },
            },
    {
        let cfg = match self.check_running() {
            Ok(c) => c,
            Err(e) => return Err(e),
        };
        if amount <= 0 {
            return Err(PoolError::AmountNotPositive);
        }
        let p = match self.positions.get(&staker) {
            Some(p) => *p,
            None => StakePosition { staker, amount: 0, staked_at: now, last_claim_epoch: 0 },
        };
        if p.amount > i128::MAX - amount || self.total_staked > i128::MAX - amount {
            return Err(PoolError::Overflow);
        }
        self.positions.insert(staker, StakePosition { amount: p.amount + amount, staked_at: now, ..p });
        self.total_staked = self.total_staked + amount;
        if !contains_u64(&self.stakers, staker) {
            self.stakers.push(staker);
        }
        Ok(Transfer { token: cfg.staking_token, from: staker, to: self.contract, amount })
    }

    /// The error of `unstake`, checked in the order of the contract.
    pub open spec fn unstake_error(&self, staker: AccountId, amount: i128, now: u64) -> Option<PoolError> {
        if self.pause_error() is Some {
            self.pause_error()
        } else if amount <= 0 {
            Some(PoolError::AmountNotPositive)
        } else if !self.positions@.contains_key(staker) {
            Some(PoolError::NoStakePosition)
        } else if self.positions@[staker].amount < amount {
            Some(PoolError::InsufficientStake)
        } else if now < self.positions@[staker].staked_at {
            Some(PoolError::Overflow)
        } else if now - self.positions@[staker].staked_at < self.config.unwrap().lock_period {
            Some(PoolError::StakeLocked)
        } else if self.total_staked - amount < i128::MIN {
            Some(PoolError::Overflow)
        } else {
            None
        }
    }

    /// Takes `amount` out of `staker`'s stake once its lock has passed at
    /// `now`; a stake brought to zero leaves the stakers' list. Returns the
    /// payment.
    pub fn unstake(&mut self, staker: AccountId, amount: i128, now: u64) -> (r: Result<Transfer, PoolError>)
        ensures
            match old(self).unstake_error(staker, amount, now) {
                Some(e) => r == Err::<Transfer, PoolError>(e) && *final(self) == *old(self),
                None => {
                    let p = old(self).positions@[staker];
                    let left = p.amount - amount;
                    &&& r == Ok::<Transfer, PoolError>(
                        Transfer {
                            token: old(self).config.unwrap().staking_token,
                            from: old(self).contract,
                            to: staker,
                            amount,
                        },
                    )
                    &&& final(self).positions@ == old(self).positions@.insert(
                        staker,
                        StakePosition { amount: left as i128, ..p },
                    )
                    &&& final(self).total_staked == old(self).total_staked - amount
                    &&& final(self).stakers@ == if left == 0 {
                        seq_without(old(self).stakers@, staker)
                    } else {
                        old(self).stakers@
                    }
                    &&& final(self).config == old(self).config
                    &&& final(self).epochs@ == old(self).epochs@
                    &&& final(self).solves@ == old(self).solves@
                    &&& final(self).claimed@ == old(self).claimed@
                    &&& final(self).current_epoch_id == old(self).current_epoch_id
                    &&& final(self).contract == old(self).contract
                },
            },
    {
        let cfg = match self.check_running() {
            Ok(c) => c,
            Err(e) => return Err(e),
        };
        if amount <= 0 {
            return Err(PoolError::AmountNotPositive);
        }
        let p = match self.positions.get(&staker) {
            Some(p) => *p,
            None => return Err(PoolError::NoStakePosition),
        };
        if p.amount < amount {
            return Err(PoolError::InsufficientStake);
        }
        if now < p.staked_at {
            return Err(PoolError::Overflow);
        }
        if now - p.staked_at < cfg.lock_period {
            return Err(PoolError::StakeLocked);
        }
        if self.total_staked < i128::MIN + amount {
            return Err(PoolError::Overflow);
        }
        let left = p.amount - amount;
        self.positions.insert(staker, StakePosition { amount: left, ..p });
        self.total_staked = self.total_staked - amount;
        if left == 0 {
            self.stakers = without_u64(&self.stakers, staker);
        }
        Ok(Transfer { token: cfg.staking_token, from: self.contract, to: staker, amount })
    }

    /// The error of `record_solve`, checked in the order of the contract.
    pub open spec fn solve_error(&self, oracle: AccountId, player: AccountId, difficulty: u32, now: u64) -> Option<PoolError> {
        let key = pair_key_spec(player, self.current_epoch_id);
        let prev = if self.solves@.contains_key(key) { self.solves@[key].weighted_solves as int } else { 0 };
        if self.config is None {
            Some(PoolError::NotInitialized)
        } else if self.config.unwrap().oracle != oracle {
            Some(PoolError::OracleOnly)
        } else if self.config.unwrap().paused {
            Some(PoolError::Paused)
        } else if difficulty == 0 {
            Some(PoolError::DifficultyNotPositive)
        } else if !self.epochs@.contains_key(self.current_epoch_id) {
            Some(PoolError::EpochNotFound)
        } else if now > self.epochs@[self.current_epoch_id].end_at {
            Some(PoolError::EpochEnded)
        } else if prev + difficulty > i128::MAX || self.epochs@[self.current_epoch_id].total_solves + difficulty
            > i128::MAX {
            Some(PoolError::Overflow)
        } else {
            None
        }
    }

    /// Adds a solve of weight `puzzle_difficulty` to `player` and to the open
    /// epoch (the oracle's call).
    pub fn record_solve(&mut self, oracle: AccountId, player: AccountId, puzzle_difficulty: u32, now: u64) -> (r: Result<
        (),
        PoolError,
    >)
        ensures
            match old(self).solve_error(oracle, player, puzzle_difficulty, now) {
                Some(e) => r == Err::<(), PoolError>(e) && *final(self) == *old(self),
                None => {
                    let id = old(self).current_epoch_id;
                    let key = pair_key_spec(player, id);
                    let prev = if old(self).solves@.contains_key(key) {
                        old(self).solves@[key].weighted_solves as int
                    } else {
                        0
                    };
                    let e = old(self).epochs@[id];
                    &&& r is Ok
                    &&& final(self).solves@ == old(self).solves@.insert(
                        key,
                        PlayerSolves {
                            player: if old(self).solves@.contains_key(key) { old(self).solves@[key].player } else { player },
                            weighted_solves: (prev + puzzle_difficulty) as i128,
                        },
                    )
                    &&& final(self).epochs@ == old(self).epochs@.insert(
                        id,
                        Epoch { total_solves: (e.total_solves + puzzle_difficulty) as i128, ..e },
                    )
                    &&& final(self).config == old(self).config
                    &&& final(self).positions@ == old(self).positions@
                    &&& final(self).claimed@ == old(self).claimed@
                    &&& final(self).total_staked == old(self).total_staked
                    &&& final(self).current_epoch_id == old(self).current_epoch_id
                    &&& final(self).stakers@ == old(self).stakers@
                    &&& final(self).contract == old(self).contract
                },
            },
    {
        let cfg = match self.config {
            Some(c) => c,
            None => return Err(PoolError::NotInitialized),
        };
        if cfg.oracle != oracle {
            return Err(PoolError::OracleOnly);
        }
        if cfg.paused {
            return Err(PoolError::Paused);
        }
        if puzzle_difficulty == 0 {
            return Err(PoolError::DifficultyNotPositive);
        }
        let id = self.current_epoch_id;
        let e = match self.epochs.get(&id) {
            Some(e) => *e,
            None => return Err(PoolError::EpochNotFound),
        };
        if now > e.end_at {
            return Err(PoolError::EpochEnded);
        }
        let key = pair_key(player, id);
        let s = match self.solves.get(&key) {
            Some(s) => *s,
            None => PlayerSolves { player, weighted_solves: 0 },
        };
        if s.weighted_solves > i128::MAX - puzzle_difficulty as i128 || e.total_solves > i128::MAX
            - puzzle_difficulty as i128 {
            return Err(PoolError::Overflow);
        }
        self.solves.insert(
            key,
            PlayerSolves { player: s.player, weighted_solves: s.weighted_solves + puzzle_difficulty as i128 },
        );
        self.epochs.insert(id, Epoch { total_solves: e.total_solves + puzzle_difficulty as i128, ..e });
        Ok(())
    }

    /// The error of `close_epoch`, checked in the order of the contract.
    pub open spec fn close_error(&self, admin: AccountId, now: u64) -> Option<PoolError> {
        if self.admin_error(admin) is Some {
            self.admin_error(admin)
        } else if self.config.unwrap().paused {
            Some(PoolError::Paused)
        } else if !self.epochs@.contains_key(self.current_epoch_id) {
            Some(PoolError::EpochNotFound)
        } else if now < self.epochs@[self.current_epoch_id].end_at {
            Some(PoolError::EpochNotEnded)
        } else if self.epochs@[self.current_epoch_id].distributed {
            Some(PoolError::EpochAlreadyClosed)
        } else if self.current_epoch_id == u64::MAX || self.epochs@[self.current_epoch_id].end_at
            + self.config.unwrap().epoch_duration > u64::MAX {
            Some(PoolError::Overflow)
        } else {
            None
        }
    }

    /// Closes the ended epoch with `reward_budget`, recording the total stake,
    /// and opens the next one where it ended (the admin's call).
    pub fn close_epoch(&mut self, admin: AccountId, reward_budget: i128, now: u64) -> (r: Result<(), PoolError>)
        ensures
            match old(self).close_error(admin, now) {
                Some(e) => r == Err::<(), PoolError>(e) && *final(self) == *old(self),
                None => {
                    let id = old(self).current_epoch_id;
                    let e = old(self).epochs@[id];
                    let next = (id + 1) as u64;
                    &&& r is Ok
                    &&& final(self).epochs@ == old(self).epochs@.insert(
                        id,
                        Epoch { reward_budget, total_staked: old(self).total_staked, distributed: true, ..e },
                    ).insert(
                        next,
                        Epoch {
                            epoch_id: next,
                            start_at: e.end_at,
                            end_at: (e.end_at + old(self).config.unwrap().epoch_duration) as u64,
                            total_solves: 0,
                            total_staked: 0,
                            reward_budget: 0,
                            distributed: false,
                        },
                    )
                    &&& final(self).current_epoch_id == next
                    &&& final(self).config == old(self).config
                    &&& final(self).positions@ == old(self).positions@
                    &&& final(self).solves@ == old(self).solves@
                    &&& final(self).claimed@ == old(self).claimed@
                    &&& final(self).total_staked == old(self).total_staked
                    &&& final(self).stakers@ == old(self).stakers@
                    &&& final(self).contract == old(self).contract
                },
            },
    {
        let cfg = match self.check_admin(admin) {
            Ok(c) => c,
            Err(e) => return Err(e),
        };
        if cfg.paused {
            return Err(PoolError::Paused);
        }
        let id = self.current_epoch_id;
        let e = match self.epochs.get(&id) {
            Some(e) => *e,
            None => return Err(PoolError::EpochNotFound),
        };
        if now < e.end_at {
            return Err(PoolError::EpochNotEnded);
        }
        if e.distributed {
            return Err(PoolError::EpochAlreadyClosed);
        }
        if id == u64::MAX || e.end_at > u64::MAX - cfg.epoch_duration {
            return Err(PoolError::Overflow);
        }
        self.epochs.insert(id, Epoch { reward_budget, total_staked: self.total_staked, distributed: true, ..e });
        let next = id + 1;
        self.epochs.insert(
            next,
            Epoch {
                epoch_id: next,
                start_at: e.end_at,
                end_at: e.end_at + cfg.epoch_duration,
                total_solves: 0,
                total_staked: 0,
                reward_budget: 0,
                distributed: false,
            },
        );
        self.current_epoch_id = next;
        Ok(())
    }

    /// The error of `claim_epoch_reward`, checked in the order of the contract.
    pub open spec fn claim_error(&self, player: AccountId, epoch_id: u64) -> Option<PoolError> {
        if self.pause_error() is Some {
            self.pause_error()
        } else if self.claimed@.contains(pair_key_spec(player, epoch_id)) {
            Some(PoolError::AlreadyClaimed)
        } else if !self.epochs@.contains_key(epoch_id) {
            Some(PoolError::EpochNotFound)
        } else if !self.epochs@[epoch_id].distributed {
            Some(PoolError::NotDistributed)
        } else if self.reward_of(player, epoch_id, self.epochs@[epoch_id], self.config.unwrap()) is None {
            Some(PoolError::Overflow)
        } else if self.reward_of(player, epoch_id, self.epochs@[epoch_id], self.config.unwrap())->0 <= 0 {
            Some(PoolError::NoReward)
        } else {
            None
        }
    }

    /// Pays `player` its reward for a closed epoch, once: a solver share in
    /// proportion to its solves and a staker share in proportion to its
    /// stake. Returns the reward and its payment.
    pub fn claim_epoch_reward(&mut self, player: AccountId, epoch_id: u64) -> (r: Result<(i128, Transfer), PoolError>)
        ensures
            r is Ok ==> final(self).claim_error(player, epoch_id) is Some,
            match old(self).claim_error(player, epoch_id) {
                Some(e) => r == Err::<(i128, Transfer), PoolError>(e) && *final(self) == *old(self),
                None => {
                    let cfg = old(self).config.unwrap();
                    let reward = old(self).reward_of(player, epoch_id, old(self).epochs@[epoch_id], cfg)->0 as i128;
                    &&& r == Ok::<(i128, Transfer), PoolError>(
                        (reward, Transfer { token: cfg.reward_token, from: old(self).contract, to: player, amount: reward }),
                    )
                    &&& final(self).claimed@ == old(self).claimed@.insert(pair_key_spec(player, epoch_id))
                    &&& final(self).positions@ == if old(self).positions@.contains_key(player) && epoch_id > old(
                        self).positions@[player].last_claim_epoch {
                        old(self).positions@.insert(
                            player,
                            StakePosition { last_claim_epoch: epoch_id, ..old(self).positions@[player] },
                        )
                    } else {
                        old(self).positions@
                    }
                    &&& final(self).config == old(self).config
                    &&& final(self).epochs@ == old(self).epochs@
                    &&& final(self).solves@ == old(self).solves@
                    &&& final(self).total_staked == old(self).total_staked
                    &&& final(self).current_epoch_id == old(self).current_epoch_id
                    &&& final(self).stakers@ == old(self).stakers@
                    &&& final(self).contract == old(self).contract
                },
            },
    {
        let cfg = match self.check_running() {
            Ok(c) => c,
            Err(e) => return Err(e),
        };
        let key = pair_key(player, epoch_id);
        if self.claimed.contains(&key) {
            return Err(PoolError::AlreadyClaimed);
        }
        let e = match self.epochs.get(&epoch_id) {
            Some(e) => *e,
            None => return Err(PoolError::EpochNotFound),
        };
        if !e.distributed {
            return Err(PoolError::NotDistributed);
        }
        let reward = match self.reward_exec(player, epoch_id, e, cfg) {
            Some(r) => r,
            None => return Err(PoolError::Overflow),
        };
        if reward <= 0 {
            return Err(PoolError::NoReward);
        }
        self.claimed.insert(key);
        match self.positions.get(&player) {
            Some(p) => {
                if epoch_id > p.last_claim_epoch {
                    let q = StakePosition { last_claim_epoch: epoch_id, ..*p };
                    self.positions.insert(player, q);
                }
            },
            None => {},
        }
        Ok((reward, Transfer { token: cfg.reward_token, from: self.contract, to: player, amount: reward }))
    }

    /// `player`'s position (an empty one where none exists) and the
    /// distributed epochs it has not claimed since its last claim.
    pub fn get_stake(&self, player: AccountId) -> (r: Result<StakeInfo, PoolError>)
        ensures
            ({
                let p = if self.positions@.contains_key(player) {
                    self.positions@[player]
                } else {
                    StakePosition { staker: player, amount: 0, staked_at: 0, last_claim_epoch: 0 }
                };
                if p.last_claim_epoch == u64::MAX {
                    r == Err::<StakeInfo, PoolError>(PoolError::Overflow)
                } else {
                    let start = if p.last_claim_epoch == 0 { 0 } else { (p.last_claim_epoch + 1) as u64 };
                    &&& r is Ok
                    &&& r.unwrap().position == p
                    &&& r.unwrap().unclaimed_epochs@ == self.unclaimed(player, start, self.current_epoch_id as nat)
                }
            }),
    {
        let p = match self.positions.get(&player) {
            Some(p) => *p,
            None => StakePosition { staker: player, amount: 0, staked_at: 0, last_claim_epoch: 0 },
        };
        if p.last_claim_epoch == u64::MAX {
            return Err(PoolError::Overflow);
        }
        let start = if p.last_claim_epoch == 0 { 0 } else { p.last_claim_epoch + 1 };
        let mut out: Vec<u64> = Vec::new();
        let mut id: u64 = start;
        if start < self.current_epoch_id {
            while id < self.current_epoch_id
                invariant
                    start <= id <= self.current_epoch_id,
                    out@ == self.unclaimed(player, start, id as nat),
                decreases self.current_epoch_id - id,
            {
                match self.epochs.get(&id) {
                    Some(e) => {
                        if e.distributed && !self.claimed.contains(&pair_key(player, id)) {
                            out.push(id);
                        }
                    },
                    None => {},
                }
                id = id + 1;
            }
        } else {
            assert(self.unclaimed(player, start, self.current_epoch_id as nat) =~= Seq::<u64>::empty());
        }
        Ok(StakeInfo { position: p, unclaimed_epochs: out })
    }

    /// The epoch `epoch_id`.
    pub fn get_epoch(&self, epoch_id: u64) -> (r: Result<Epoch, PoolError>)
        ensures
            self.epochs@.contains_key(epoch_id) ==> r == Ok::<Epoch, PoolError>(self.epochs@[epoch_id]),
            !self.epochs@.contains_key(epoch_id) ==> r == Err::<Epoch, PoolError>(PoolError::EpochNotFound),
    {
        match self.epochs.get(&epoch_id) {
            Some(e) => Ok(*e),
            None => Err(PoolError::EpochNotFound),
        }
    }

    /// The id of the open epoch.
    pub fn get_current_epoch_id(&self) -> (r: u64)
        ensures
            r == self.current_epoch_id,
    {
        self.current_epoch_id
    }

    /// The total stake.
    pub fn get_total_staked(&self) -> (r: i128)
        ensures
            r == self.total_staked,
    {
        self.total_staked
    }

    /// `player`'s solves in epoch `epoch_id`, if any.
    pub fn get_player_solves(&self, player: AccountId, epoch_id: u64) -> (r: Option<PlayerSolves>)
        ensures
            r == (if self.solves@.contains_key(pair_key_spec(player, epoch_id)) {
                Some(self.solves@[pair_key_spec(player, epoch_id)])
            } else {
                None::<PlayerSolves>
            }),
    {
        match self.solves.get(&pair_key(player, epoch_id)) {
            Some(s) => Some(*s),
            None => None,
        }
    }

    /// Whether `player` claimed its reward for `epoch_id`.
    pub fn is_reward_claimed(&self, player: AccountId, epoch_id: u64) -> (r: bool)
        ensures
            r == self.claimed@.contains(pair_key_spec(player, epoch_id)),
    {
        self.claimed.contains(&pair_key(player, epoch_id))
    }

    /// The configuration.
    pub fn get_config(&self) -> (r: Result<PoolConfig, PoolError>)
        ensures
            match self.config {
                Some(c) => r == Ok::<PoolConfig, PoolError>(c),
                None => r == Err::<PoolConfig, PoolError>(PoolError::NotInitialized),
            },
    {
        match self.config {
            Some(c) => Ok(c),
            None => Err(PoolError::NotInitialized),
        }
    }

    /// The stakers, in order of first stake.
    pub fn get_all_stakers(&self) -> (r: Vec<AccountId>)
        ensures
            r@ == self.stakers@,
    {
        crate::util::copy_vec(&self.stakers)
    }
}

} // verus!
