//! Liquidity mining by epochs: the admin funds and opens an epoch, then
//! closes it, fixing the LP stake of record; each provider then claims a
//! share of the epoch's budget in proportion to its stake, and must claim
//! every closed epoch before moving its stake.
use vstd::prelude::*;
use std::collections::{HashMap, HashSet};
use crate::util::{AccountId, Transfer, pair_key, pair_key_spec};

verus! {

broadcast use vstd::std_specs::hash::group_hash_axioms;

/// The time a stake stays locked after it last grew: one day, in seconds.
pub const UNSTAKE_COOLDOWN: u64 = 86400;

#[derive(Clone, Copy, Debug, PartialEq, Eq, Structural)]
pub struct MiningPosition {
    pub provider: AccountId,
    pub lp_tokens: i128,
    pub staked_at: u64,
    pub last_claim_epoch: u32,
    pub total_claimed: i128,
}

#[derive(Clone, Copy, Debug, PartialEq, Eq, Structural)]
pub struct MiningEpoch {
    pub epoch_id: u32,
    pub start_at: u64,
    /// 0 while the epoch is open.
    pub end_at: u64,
    pub reward_budget: i128,
    pub total_lp_staked: i128,
    pub distributed: bool,
}

#[derive(Clone, Copy, Debug, PartialEq, Eq, Structural)]
pub struct MiningConfig {
    pub admin: AccountId,
    pub lp_token: AccountId,
    pub reward_token: AccountId,
}

#[derive(Clone, Copy, Debug, PartialEq, Eq, Structural)]
pub enum MiningError {
    AlreadyInitialized,
    NotInitialized,
    InvalidBudget,
    EpochNotFound,
    PreviousEpochOpen,
    NoActiveEpoch,
    EpochAlreadyClosed,
    InvalidAmount,
    PendingClaims,
    InsufficientStake,
    CooldownActive,
    EpochNotClosed,
    AlreadyClaimed,
    InvalidEpochOrder,
    Overflow,
}

/// The storage of the contract; `contract` is its own account.
pub struct LiquidityMiningContract {
    pub contract: AccountId,
    pub config: Option<MiningConfig>,
    pub current_epoch_id: u32,
    pub global_lp_staked: i128,
    pub epochs: HashMap<u32, MiningEpoch>,
    pub positions: HashMap<u64, MiningPosition>,
    /// The claims made, by `pair_key(provider, epoch id)`.
    pub claimed: HashSet<u128>,
}

impl LiquidityMiningContract {
    /// The position of `provider` (an empty one where none exists).
    pub open spec fn position_of(&self, provider: AccountId) -> MiningPosition {
        if self.positions@.contains_key(provider) {
            self.positions@[provider]
        } else {
            MiningPosition { provider, lp_tokens: 0, staked_at: 0, last_claim_epoch: 0, total_claimed: 0 }
        }
    }

    /// Whether `provider` claimed epoch `epoch_id`.
    pub open spec fn claimed_by(&self, provider: AccountId, epoch_id: u32) -> bool {
        self.claimed@.contains(pair_key_spec(provider, epoch_id as u64))
    }

    /// Whether a closed epoch after `provider`'s last claim is unclaimed.
    pub open spec fn has_pending(&self, provider: AccountId) -> bool {
        exists|i: u32|
            self.position_of(provider).last_claim_epoch < i <= self.current_epoch_id && #[trigger] self.epochs@.contains_key(i)
                && self.epochs@[i].end_at != 0 && !self.claimed_by(provider, i)
    }

    /// The check that `provider` has no unclaimed closed epoch.
    pub open spec fn pending_error(&self, provider: AccountId) -> Option<MiningError> {
        if self.position_of(provider).last_claim_epoch == u32::MAX {
            Some(MiningError::Overflow)
        } else if self.has_pending(provider) {
            Some(MiningError::PendingClaims)
        } else {
            None
        }
    }

    fn position(&self, provider: AccountId) -> (r: MiningPosition)
        ensures
            r == self.position_of(provider),
    {
        match self.positions.get(&provider) {
            Some(p) => *p,
            None => MiningPosition { provider, lp_tokens: 0, staked_at: 0, last_claim_epoch: 0, total_claimed: 0 },
        }
    }

    fn check_no_pending_claims(&self, provider: AccountId) -> (r: Result<(), MiningError>)
        ensures
            match self.pending_error(provider) {
                Some(e) => r == Err::<(), MiningError>(e),
                None => r is Ok,
            },
    {
        let pos = self.position(provider);
        if pos.last_claim_epoch == u32::MAX {
            return Err(MiningError::Overflow);
        }
        let mut i: u64 = pos.last_claim_epoch as u64 + 1;
        while i <= self.current_epoch_id as u64
            invariant
                pos == self.position_of(provider),
                pos.last_claim_epoch < i <= u32::MAX as u64 + 1,
                forall|j: u32| pos.last_claim_epoch < j < i && j <= self.current_epoch_id ==> !(
                    #[trigger] self.epochs@.contains_key(j) && self.epochs@[j].end_at != 0 && !self.claimed_by(provider, j)),
            decreases self.current_epoch_id as u64 + 1 - i,
        {
            let e = i as u32;
            match self.epochs.get(&e) {
                Some(ep) => {
                    if ep.end_at != 0 && !self.claimed.contains(&pair_key(provider, e as u64)) {
                        assert(self.epochs@.contains_key(e));
                        return Err(MiningError::PendingClaims);
                    }
                },
                None => {},
            }
            i = i + 1;
        }
        Ok(())
    }

    /// A contract with empty storage, deployed at `contract`.
    pub fn new(contract: AccountId) -> (r: Self)
        ensures
            r.contract == contract,
            r.config is None,
            r.current_epoch_id == 0,
            r.global_lp_staked == 0,
            r.epochs@ == Map::<u32, MiningEpoch>::empty(),
            r.positions@ == Map::<u64, MiningPosition>::empty(),
            r.claimed@ == Set::<u128>::empty(),
    {
        LiquidityMiningContract {
            contract,
            config: None,
            current_epoch_id: 0,
            global_lp_staked: 0,
            epochs: HashMap::new(),
            positions: HashMap::new(),
            claimed: HashSet::new(),
        }
    }

    /// Stores the admin, the LP token and the reward token.
    pub fn initialize(&mut self, admin: AccountId, lp_token: AccountId, reward_token: AccountId) -> (r: Result<
        (),
        MiningError,
    >)
        ensures
            old(self).config is Some ==> r == Err::<(), MiningError>(MiningError::AlreadyInitialized) && *final(self)
                == *old(self),
            old(self).config is None ==> r is Ok && *final(self) == (LiquidityMiningContract {
                config: Some(MiningConfig { admin, lp_token, reward_token }),
                ..*old(self)
            }),
    {
        if self.config.is_some() {
            return Err(MiningError::AlreadyInitialized);
        }
        self.config = Some(MiningConfig { admin, lp_token, reward_token });
        Ok(())
    }

    /// The error of `fund_and_open_epoch`, checked in the order of the contract.
    pub open spec fn open_error(&self, reward_budget: i128) -> Option<MiningError> {
        if self.config is None {
            Some(MiningError::NotInitialized)
        } else if reward_budget <= 0 {
            Some(MiningError::InvalidBudget)
        } else if self.current_epoch_id > 0 && !self.epochs@.contains_key(self.current_epoch_id) {
            Some(MiningError::EpochNotFound)
        } else if self.current_epoch_id > 0 && self.epochs@[self.current_epoch_id].end_at == 0 {
            Some(MiningError::PreviousEpochOpen)
        } else if self.current_epoch_id == u32::MAX {
            Some(MiningError::Overflow)
        } else {
            None
        }
    }

    /// Opens the next epoch at time `now` with the admin's `reward_budget`;
    /// returns its id and the funding payment.
    pub fn fund_and_open_epoch(&mut self, reward_budget: i128, now: u64) -> (r: Result<(u32, Transfer), MiningError>)
        ensures
            match old(self).open_error(reward_budget) {
                Some(e) => r == Err::<(u32, Transfer), MiningError>(e) && *final(self) == *old(self),
                None => {
                    let cfg = old(self).config.unwrap();
                    let id = (old(self).current_epoch_id + 1) as u32;
                    &&& r == Ok::<(u32, Transfer), MiningError>(
                        (id, Transfer { token: cfg.reward_token, from: cfg.admin, to: old(self).contract, amount: reward_budget }),
                    )
                    &&& final(self).epochs@ == old(self).epochs@.insert(
                        id,
                        MiningEpoch {
                            epoch_id: id,
                            start_at: now,
                            end_at: 0,
                            reward_budget,
                            total_lp_staked: 0,
                            distributed: false,
                        },
                    )
                    &&& final(self).current_epoch_id == id
                    &&& final(self).positions@ == old(self).positions@
                    &&& final(self).claimed@ == old(self).claimed@
                    &&& final(self).global_lp_staked == old(self).global_lp_staked
                    &&& final(self).config == old(self).config
                    &&& final(self).contract == old(self).contract
                },
            },
    {
        let cfg = match self.config {
            Some(c) => c,
            None => return Err(MiningError::NotInitialized),
        };
        if reward_budget <= 0 {
            return Err(MiningError::InvalidBudget);
        }
        let current = self.current_epoch_id;
        if current > 0 {
            match self.epochs.get(&current) {
                None => return Err(MiningError::EpochNotFound),
                Some(e) => {
                    if e.end_at == 0 {
                        return Err(MiningError::PreviousEpochOpen);
                    }
                },
            }
        }
        if current == u32::MAX {
            return Err(MiningError::Overflow);
        }
        let id = current + 1;
        self.epochs.insert(
            id,
            MiningEpoch { epoch_id: id, start_at: now, end_at: 0, reward_budget, total_lp_staked: 0, distributed: false },
        );
        self.current_epoch_id = id;
        Ok((id, Transfer { token: cfg.reward_token, from: cfg.admin, to: self.contract, amount: reward_budget }))
    }

    /// Closes the open epoch at time `now`, recording the total LP stake;
    /// returns its id.
    pub fn close_epoch(&mut self, now: u64) -> (r: Result<u32, MiningError>)
        ensures
            match (if old(self).config is None {
                Some(MiningError::NotInitialized)
            } else if old(self).current_epoch_id == 0 {
                Some(MiningError::NoActiveEpoch)
            } else if !old(self).epochs@.contains_key(old(self).current_epoch_id) {
                Some(MiningError::EpochNotFound)
            } else if old(self).epochs@[old(self).current_epoch_id].end_at != 0 {
                Some(MiningError::EpochAlreadyClosed)
            } else {
                None
            }) {
                Some(e) => r == Err::<u32, MiningError>(e) && *final(self) == *old(self),
                None => {
                    let id = old(self).current_epoch_id;
                    &&& r == Ok::<u32, MiningError>(id)
                    &&& final(self).epochs@ == old(self).epochs@.insert(
                        id,
                        MiningEpoch { end_at: now, total_lp_staked: old(self).global_lp_staked, ..old(self).epochs@[id] },
                    )
                    &&& final(self).current_epoch_id == id
                    &&& final(self).positions@ == old(self).positions@
                    &&& final(self).claimed@ == old(self).claimed@
                    &&& final(self).global_lp_staked == old(self).global_lp_staked
                    &&& final(self).config == old(self).config
                    &&& final(self).contract == old(self).contract
                },
            },
    {
        if self.config.is_none() {
            return Err(MiningError::NotInitialized);
        }
        let current = self.current_epoch_id;
        if current == 0 {
            return Err(MiningError::NoActiveEpoch);
        }
        let e = match self.epochs.get(&current) {
            Some(e) => *e,
            None => return Err(MiningError::EpochNotFound),
        };
        if e.end_at != 0 {
            return Err(MiningError::EpochAlreadyClosed);
        }
        self.epochs.insert(current, MiningEpoch { end_at: now, total_lp_staked: self.global_lp_staked, ..e });
        Ok(current)
    }

    /// The error of `stake_lp`, checked in the order of the contract.
    pub open spec fn stake_error(&self, provider: AccountId, amount: i128) -> Option<MiningError> {
        if amount <= 0 {
            Some(MiningError::InvalidAmount)
        } else if self.pending_error(provider) is Some {
            self.pending_error(provider)
        } else if self.config is None {
            Some(MiningError::NotInitialized)
        } else if self.position_of(provider).lp_tokens + amount > i128::MAX || self.global_lp_staked + amount > i128::MAX {
            Some(MiningError::Overflow)
        } else {
            None
        }
    }

    /// Adds `amount` LP tokens to `provider`'s stake at time `now`, which
    /// restarts its cooldown; returns the deposit.
    pub fn stake_lp(&mut self, provider: AccountId, amount: i128, now: u64) -> (r: Result<Transfer, MiningError>)
        ensures
            match old(self).stake_error(provider, amount) {
                Some(e) => r == Err::<Transfer, MiningError>(e) && *final(self) == *old(self),
                None => {
                    let p = old(self).position_of(provider);
                    &&& r == Ok::<Transfer, MiningError>(
                        Transfer { token: old(self).config.unwrap().lp_token, from: provider, to: old(self).contract, amount },
                    )
                    &&& final(self).positions@ == old(self).positions@.insert(
                        provider,
                        MiningPosition { lp_tokens: (p.lp_tokens + amount) as i128, staked_at: now, ..p },
                    )
                    &&& final(self).global_lp_staked == old(self).global_lp_staked + amount
                    &&& final(self).epochs@ == old(self).epochs@
                    &&& final(self).claimed@ == old(self).claimed@
                    &&& final(self).current_epoch_id == old(self).current_epoch_id
                    &&& final(self).config == old(self).config
                    &&& final(self).contract == old(self).contract
                },
            },
    {
        if amount <= 0 {
            return Err(MiningError::InvalidAmount);
        }
        match self.check_no_pending_claims(provider) {
            Ok(()) => {},
            Err(e) => return Err(e),
        }
        let cfg = match self.config {
            Some(c) => c,
            None => return Err(MiningError::NotInitialized),
        };
        let p = self.position(provider);
        if p.lp_tokens > i128::MAX - amount || self.global_lp_staked > i128::MAX - amount {
            return Err(MiningError::Overflow);
        }
        self.positions.insert(provider, MiningPosition { lp_tokens: p.lp_tokens + amount, staked_at: now, ..p });
        self.global_lp_staked = self.global_lp_staked + amount;
        Ok(Transfer { token: cfg.lp_token, from: provider, to: self.contract, amount })
    }

    /// The error of `unstake_lp`, checked in the order of the contract.
    pub open spec fn unstake_error(&self, provider: AccountId, amount: i128, now: u64) -> Option<MiningError> {
        if amount <= 0 {
            Some(MiningError::InvalidAmount)
        } else if self.position_of(provider).lp_tokens < amount {
            Some(MiningError::InsufficientStake)
        } else if self.position_of(provider).staked_at + UNSTAKE_COOLDOWN > u64::MAX {
            Some(MiningError::Overflow)
        } else if now < self.position_of(provider).staked_at + UNSTAKE_COOLDOWN {
            Some(MiningError::CooldownActive)
        } else if self.pending_error(provider) is Some {
            self.pending_error(provider)
        } else if self.global_lp_staked - amount < i128::MIN {
            Some(MiningError::Overflow)
        } else if self.config is None {
            Some(MiningError::NotInitialized)
        } else {
            None
        }
    }

    /// Takes `amount` LP tokens out of `provider`'s stake once the cooldown
    /// has passed at `now`; returns the payment.
    pub fn unstake_lp(&mut self, provider: AccountId, amount: i128, now: u64) -> (r: Result<Transfer, MiningError>)
        ensures
            match old(self).unstake_error(provider, amount, now) {
                Some(e) => r == Err::<Transfer, MiningError>(e) && *final(self) == *old(self),
                None => {
                    let p = old(self).position_of(provider);
                    &&& r == Ok::<Transfer, MiningError>(
                        Transfer { token: old(self).config.unwrap().lp_token, from: old(self).contract, to: provider, amount },
                    )
                    &&& final(self).positions@ == old(self).positions@.insert(
                        provider,
                        MiningPosition { lp_tokens: (p.lp_tokens - amount) as i128, ..p },
                    )
                    &&& final(self).global_lp_staked == old(self).global_lp_staked - amount
                    &&& final(self).epochs@ == old(self).epochs@
                    &&& final(self).claimed@ == old(self).claimed@
                    &&& final(self).current_epoch_id == old(self).current_epoch_id
                    &&& final(self).config == old(self).config
                    &&& final(self).contract == old(self).contract
                },
            },
    {
        if amount <= 0 {
            return Err(MiningError::InvalidAmount);
        }
        let p = self.position(provider);
        if p.lp_tokens < amount {
            return Err(MiningError::InsufficientStake);
        }
        if p.staked_at > u64::MAX - UNSTAKE_COOLDOWN {
            return Err(MiningError::Overflow);
        }
        if now < p.staked_at + UNSTAKE_COOLDOWN {
            return Err(MiningError::CooldownActive);
        }
        match self.check_no_pending_claims(provider) {
            Ok(()) => {},
            Err(e) => return Err(e),
        }
        if self.global_lp_staked < i128::MIN + amount {
            return Err(MiningError::Overflow);
        }
        let cfg = match self.config {
            Some(c) => c,
            None => return Err(MiningError::NotInitialized),
        };
        self.positions.insert(provider, MiningPosition { lp_tokens: p.lp_tokens - amount, ..p });
        self.global_lp_staked = self.global_lp_staked - amount;
        Ok(Transfer { token: cfg.lp_token, from: self.contract, to: provider, amount })
    }

    /// The share of epoch `e` that a stake of `lp` earns.
    pub open spec fn reward_of(lp: i128, e: MiningEpoch) -> int {
        if e.total_lp_staked > 0 {
            crate::util::trunc_div(lp * e.reward_budget, e.total_lp_staked as int)
        } else {
            0
        }
    }

    /// The error of `claim_mining_reward`, checked in the order of the contract.
    pub open spec fn claim_error(&self, provider: AccountId, epoch_id: u32) -> Option<MiningError> {
        let p = self.position_of(provider);
        if !self.epochs@.contains_key(epoch_id) {
            Some(MiningError::EpochNotFound)
        } else if self.epochs@[epoch_id].end_at == 0 {
            Some(MiningError::EpochNotClosed)
        } else if self.claimed_by(provider, epoch_id) {
            Some(MiningError::AlreadyClaimed)
        } else if p.lp_tokens == 0 {
            None
        } else if p.last_claim_epoch >= epoch_id {
            Some(MiningError::InvalidEpochOrder)
        } else if self.epochs@[epoch_id].total_lp_staked > 0 && (p.lp_tokens * self.epochs@[epoch_id].reward_budget
            > i128::MAX || p.lp_tokens * self.epochs@[epoch_id].reward_budget < i128::MIN) {
            Some(MiningError::Overflow)
        } else if p.total_claimed + Self::reward_of(p.lp_tokens, self.epochs@[epoch_id]) > i128::MAX
            || p.total_claimed + Self::reward_of(p.lp_tokens, self.epochs@[epoch_id]) < i128::MIN {
            Some(MiningError::Overflow)
        } else if Self::reward_of(p.lp_tokens, self.epochs@[epoch_id]) > 0 && self.config is None {
            Some(MiningError::NotInitialized)
        } else {
            None
        }
    }

    /// Pays `provider` its share of a closed epoch, once; a provider without
    /// stake gets nothing and nothing is recorded. Returns the reward and its
    /// payment, when positive.
    pub fn claim_mining_reward(&mut self, provider: AccountId, epoch_id: u32) -> (r: Result<
        (i128, Option<Transfer>),
        MiningError,
    >)
        ensures
            r is Ok && old(self).position_of(provider).lp_tokens != 0 ==> final(self).claim_error(provider, epoch_id) is Some,
            match old(self).claim_error(provider, epoch_id) {
                Some(e) => r == Err::<(i128, Option<Transfer>), MiningError>(e) && *final(self) == *old(self),
                None => {
                    let p = old(self).position_of(provider);
                    let reward = Self::reward_of(p.lp_tokens, old(self).epochs@[epoch_id]) as i128;
                    if p.lp_tokens == 0 {
                        r == Ok::<(i128, Option<Transfer>), MiningError>((0, None)) && *final(self) == *old(self)
                    } else {
                        &&& r == Ok::<(i128, Option<Transfer>), MiningError>(
                            (
                                reward,
                                if reward > 0 {
                                    Some(
                                        Transfer {
                                            token: old(self).config.unwrap().reward_token,
                                            from: old(self).contract,
                                            to: provider,
                                            amount: reward,
                                        },
                                    )
                                } else {
                                    None
                                },
                            ),
                        )
                        &&& final(self).claimed@ == old(self).claimed@.insert(pair_key_spec(provider, epoch_id as u64))
                        &&& final(self).positions@ == old(self).positions@.insert(
                            provider,
                            MiningPosition {
                                last_claim_epoch: epoch_id,
                                total_claimed: (p.total_claimed + reward) as i128,
                                ..p
                            },
                        )
                        &&& final(self).epochs@ == old(self).epochs@
                        &&& final(self).global_lp_staked == old(self).global_lp_staked
                        &&& final(self).current_epoch_id == old(self).current_epoch_id
                        &&& final(self).config == old(self).config
                        &&& final(self).contract == old(self).contract
                    }
                },
            },
    {
        let e = match self.epochs.get(&epoch_id) {
            Some(e) => *e,
            None => return Err(MiningError::EpochNotFound),
        };
        if e.end_at == 0 {
            return Err(MiningError::EpochNotClosed);
        }
        let key = pair_key(provider, epoch_id as u64);
        if self.claimed.contains(&key) {
            return Err(MiningError::AlreadyClaimed);
        }
        let p = self.position(provider);
        if p.lp_tokens == 0 {
            return Ok((0, None));
        }
        if p.last_claim_epoch >= epoch_id {
            return Err(MiningError::InvalidEpochOrder);
        }
        let mut reward: i128 = 0;
        if e.total_lp_staked > 0 {
            let product = match p.lp_tokens.checked_mul(e.reward_budget) {
                Some(v) => v,
                None => return Err(MiningError::Overflow),
            };
            reward = product / e.total_lp_staked;
        }
        let total = match p.total_claimed.checked_add(reward) {
            Some(t) => t,
            None => return Err(MiningError::Overflow),
        };
        let mut payment: Option<Transfer> = None;
        if reward > 0 {
            let cfg = match self.config {
                Some(c) => c,
                None => return Err(MiningError::NotInitialized),
            };
            payment = Some(Transfer { token: cfg.reward_token, from: self.contract, to: provider, amount: reward });
        }
        self.claimed.insert(key);
        self.positions.insert(provider, MiningPosition { last_claim_epoch: epoch_id, total_claimed: total, ..p });
        Ok((reward, payment))
    }

    /// The position of `provider` (an empty one where none exists).
    pub fn get_position(&self, provider: AccountId) -> (r: MiningPosition)
        ensures
            r == self.position_of(provider),
    {
        self.position(provider)
    }
}

} // verus!
