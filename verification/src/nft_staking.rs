//! NFT staking: a holder locks an NFT of a configured rarity and earns
//! reward tokens per ledger at the rarity's rate; rewards can be claimed at
//! any time, and the NFT comes back no sooner than 48 hours after staking.
use vstd::prelude::*;
use std::collections::HashMap;
use crate::util::{AccountId, NftTransfer};

verus! {

broadcast use vstd::std_specs::hash::group_hash_axioms;

/// The shortest stake: 48 hours, in seconds.
pub const MIN_STAKE_SECONDS: u64 = 172800;

#[derive(Clone, Copy, Debug, PartialEq, Eq, Structural)]
pub enum NftStakingError {
    AlreadyInitialized,
    NotInitialized,
    Unauthorized,
    PositionAlreadyExists,
    PositionNotFound,
    NotTokenOwner,
    UnstakeTooEarly,
    InvalidRewardRate,
    RarityNotConfigured,
    InvalidTokenRarity,
    Overflow,
}

#[derive(Clone, Copy, Debug, PartialEq, Eq, Structural)]
pub struct Config {
    pub admin: AccountId,
    pub nft_contract: AccountId,
    pub reward_token: AccountId,
}

#[derive(Clone, Copy, Debug, PartialEq, Eq, Structural)]
pub struct NFTStakePosition {
    pub staker: AccountId,
    pub token_id: u32,
    pub rarity: u32,
    pub staked_at: u64,
    pub last_claim_ledger: u32,
    pub total_claimed: i128,
}

#[derive(Clone, Copy, Debug, PartialEq, Eq, Structural)]
pub struct RarityConfig {
    pub rarity: u32,
    pub tokens_per_ledger: i128,
}

#[derive(Clone, Copy, Debug, PartialEq, Eq, Structural)]
pub struct PositionView {
    pub position: NFTStakePosition,
    pub pending_rewards: i128,
    pub days_staked: u64,
}

/// A mint of `amount` reward tokens to `to` that an entry point orders.
#[derive(Clone, Copy, Debug, PartialEq, Eq, Structural)]
pub struct Mint {
    pub token: AccountId,
    pub minter: AccountId,
    pub to: AccountId,
    pub amount: i128,
}

/// The storage of the contract; `contract` is its own account.
pub struct NftStakingContract {
    pub contract: AccountId,
    pub config: Option<Config>,
    pub positions: HashMap<u32, NFTStakePosition>,
    pub rarity_configs: HashMap<u32, RarityConfig>,
    pub token_rarity: HashMap<u32, u32>,
}

impl NftStakingContract {
    /// Every configured rate is positive.
    pub open spec fn wf(&self) -> bool {
        forall|r: u32| #[trigger] self.rarity_configs@.contains_key(r) ==> self.rarity_configs@[r].tokens_per_ledger > 0
    }

    /// The rewards `pos` has earned by ledger `ledger`: its rarity's rate for
    /// each ledger since the last claim.
    pub open spec fn pending_of(&self, pos: NFTStakePosition, ledger: u32) -> Result<i128, NftStakingError> {
        if ledger <= pos.last_claim_ledger {
            Ok(0)
        } else if !self.rarity_configs@.contains_key(pos.rarity) {
            Err(NftStakingError::RarityNotConfigured)
        } else if self.rarity_configs@[pos.rarity].tokens_per_ledger * (ledger - pos.last_claim_ledger) > i128::MAX {
            Err(NftStakingError::Overflow)
        } else {
            Ok((self.rarity_configs@[pos.rarity].tokens_per_ledger * (ledger - pos.last_claim_ledger)) as i128)
        }
    }

    fn pending(&self, pos: &NFTStakePosition, ledger: u32) -> (r: Result<i128, NftStakingError>)
        requires
            self.wf(),
        ensures
            r == self.pending_of(*pos, ledger),
            r matches Ok(p) ==> p >= 0,
    {
        if ledger <= pos.last_claim_ledger {
            return Ok(0);
        }
        let rate = match self.rarity_configs.get(&pos.rarity) {
            Some(c) => c.tokens_per_ledger,
            None => return Err(NftStakingError::RarityNotConfigured),
        };
        let ledgers = (ledger - pos.last_claim_ledger) as i128;
        match rate.checked_mul(ledgers) {
            Some(p) => Ok(p),
            None => Err(NftStakingError::Overflow),
        }
    }

    /// A contract with empty storage, deployed at `contract`.
    pub fn new(contract: AccountId) -> (r: Self)
        ensures
            r.contract == contract,
            r.config is None,
            r.positions@ == Map::<u32, NFTStakePosition>::empty(),
            r.rarity_configs@ == Map::<u32, RarityConfig>::empty(),
            r.token_rarity@ == Map::<u32, u32>::empty(),
            r.wf(),
    {
        NftStakingContract {
            contract,
            config: None,
            positions: HashMap::new(),
            rarity_configs: HashMap::new(),
            token_rarity: HashMap::new(),
        }
    }

    /// Stores the admin, the NFT contract and the reward token.
    pub fn initialize(&mut self, admin: AccountId, nft_contract: AccountId, reward_token: AccountId) -> (r: Result<
        (),
        NftStakingError,
    >)
        requires
            old(self).wf(),
        ensures
            final(self).wf(),
            old(self).config is Some ==> r == Err::<(), NftStakingError>(NftStakingError::AlreadyInitialized)
                && *final(self) == *old(self),
            old(self).config is None ==> r is Ok && *final(self) == (NftStakingContract {
                config: Some(Config { admin, nft_contract, reward_token }),
                ..*old(self)
            }),
    {
        if self.config.is_some() {
            return Err(NftStakingError::AlreadyInitialized);
        }
        self.config = Some(Config { admin, nft_contract, reward_token });
        Ok(())
    }

    /// The error of the admin's calls.
    pub open spec fn admin_error(&self, admin: AccountId) -> Option<NftStakingError> {
        if self.config is None {
            Some(NftStakingError::NotInitialized)
        } else if self.config.unwrap().admin != admin {
            Some(NftStakingError::Unauthorized)
        } else {
            None
        }
    }

    /// Sets the reward rate of `rarity`; the admin only, the rate positive.
    pub fn set_rarity_config(&mut self, admin: AccountId, rarity: u32, tokens_per_ledger: i128) -> (r: Result<
        (),
        NftStakingError,
    >)
        requires
            old(self).wf(),
        ensures
            final(self).wf(),
            match (if old(self).admin_error(admin) is Some {
                old(self).admin_error(admin)
            } else if tokens_per_ledger <= 0 {
                Some(NftStakingError::InvalidRewardRate)
            } else {
                None
            }) {
                Some(e) => r == Err::<(), NftStakingError>(e) && *final(self) == *old(self),
                None => r is Ok && final(self).rarity_configs@ == old(self).rarity_configs@.insert(
                    rarity,
                    RarityConfig { rarity, tokens_per_ledger },
                ) && final(self).positions@ == old(self).positions@ && final(self).token_rarity@ == old(
                    self).token_rarity@ && final(self).config == old(self).config && final(self).contract == old(
                    self).contract,
            },
    {
        match self.config {
            None => return Err(NftStakingError::NotInitialized),
            Some(c) => {
                if c.admin != admin {
                    return Err(NftStakingError::Unauthorized);
                }
            },
        }
        if tokens_per_ledger <= 0 {
            return Err(NftStakingError::InvalidRewardRate);
        }
        let ghost old_configs = self.rarity_configs@;
        self.rarity_configs.insert(rarity, RarityConfig { rarity, tokens_per_ledger });
        assert forall|q: u32| #[trigger] self.rarity_configs@.contains_key(q) implies self.rarity_configs@[q].tokens_per_ledger > 0 by {
            if q != rarity {
                assert(old_configs.contains_key(q));
            }
        }
        Ok(())
    }

    /// Assigns a configured rarity to `token_id`; the admin only.
    pub fn set_token_rarity(&mut self, admin: AccountId, token_id: u32, rarity: u32) -> (r: Result<(), NftStakingError>)
        requires
            old(self).wf(),
        ensures
            final(self).wf(),
            match (if old(self).admin_error(admin) is Some {
                old(self).admin_error(admin)
            } else if !old(self).rarity_configs@.contains_key(rarity) {
                Some(NftStakingError::RarityNotConfigured)
            } else {
                None
            }) {
                Some(e) => r == Err::<(), NftStakingError>(e) && *final(self) == *old(self),
                None => r is Ok && final(self).token_rarity@ == old(self).token_rarity@.insert(token_id, rarity)
                    && final(self).positions@ == old(self).positions@ && final(self).rarity_configs@ == old(
                    self).rarity_configs@ && final(self).config == old(self).config && final(self).contract == old(
                    self).contract,
            },
    {
        match self.config {
            None => return Err(NftStakingError::NotInitialized),
            Some(c) => {
                if c.admin != admin {
                    return Err(NftStakingError::Unauthorized);
                }
            },
        }
        if !self.rarity_configs.contains_key(&rarity) {
            return Err(NftStakingError::RarityNotConfigured);
        }
        self.token_rarity.insert(token_id, rarity);
        Ok(())
    }

    /// The error of `stake`, checked in the order of the contract; `owner` is
    /// what the NFT contract answered for the token's owner.
    pub open spec fn stake_error(&self, staker: AccountId, token_id: u32, owner: AccountId) -> Option<NftStakingError> {
        if self.config is None {
            Some(NftStakingError::NotInitialized)
        } else if self.positions@.contains_key(token_id) {
            Some(NftStakingError::PositionAlreadyExists)
        } else if owner != staker {
            Some(NftStakingError::NotTokenOwner)
        } else if !self.token_rarity@.contains_key(token_id) {
            Some(NftStakingError::InvalidTokenRarity)
        } else if !self.rarity_configs@.contains_key(self.token_rarity@[token_id]) {
            Some(NftStakingError::RarityNotConfigured)
        } else {
            None
        }
    }

    /// Locks `token_id` at time `now` and ledger `ledger`; returns the NFT
    /// move into the contract.
    pub fn stake(&mut self, staker: AccountId, token_id: u32, owner: AccountId, now: u64, ledger: u32) -> (r: Result<
        NftTransfer,
        NftStakingError,
    >)
        requires
            old(self).wf(),
        ensures
            final(self).wf(),
            match old(self).stake_error(staker, token_id, owner) {
                Some(e) => r == Err::<NftTransfer, NftStakingError>(e) && *final(self) == *old(self),
                None => {
                    &&& r == Ok::<NftTransfer, NftStakingError>(
                        NftTransfer {
                            nft_contract: old(self).config.unwrap().nft_contract,
                            from: staker,
                            to: old(self).contract,
                            nft_id: token_id,
                        },
                    )
                    &&& final(self).positions@ == old(self).positions@.insert(
                        token_id,
                        NFTStakePosition {
                            staker,
                            token_id,
                            rarity: old(self).token_rarity@[token_id],
                            staked_at: now,
                            last_claim_ledger: ledger,
                            total_claimed: 0,
                        },
                    )
                    &&& final(self).rarity_configs@ == old(self).rarity_configs@
                    &&& final(self).token_rarity@ == old(self).token_rarity@
                    &&& final(self).config == old(self).config
                    &&& final(self).contract == old(self).contract
                },
            },
    {
        let cfg = match self.config {
            Some(c) => c,
            None => return Err(NftStakingError::NotInitialized),
        };
        if self.positions.contains_key(&token_id) {
            return Err(NftStakingError::PositionAlreadyExists);
        }
        if owner != staker {
            return Err(NftStakingError::NotTokenOwner);
        }
        let rarity = match self.token_rarity.get(&token_id) {
            Some(r) => *r,
            None => return Err(NftStakingError::InvalidTokenRarity),
        };
        if !self.rarity_configs.contains_key(&rarity) {
            return Err(NftStakingError::RarityNotConfigured);
        }
        self.positions.insert(
            token_id,
            NFTStakePosition { staker, token_id, rarity, staked_at: now, last_claim_ledger: ledger, total_claimed: 0 },
        );
        Ok(NftTransfer { nft_contract: cfg.nft_contract, from: staker, to: self.contract, nft_id: token_id })
    }

    /// The error of `claim_rewards`, checked in the order of the contract.
    pub open spec fn claim_error(&self, staker: AccountId, token_id: u32, ledger: u32) -> Option<NftStakingError> {
        if !self.positions@.contains_key(token_id) {
            Some(NftStakingError::PositionNotFound)
        } else if self.positions@[token_id].staker != staker {
            Some(NftStakingError::Unauthorized)
        } else if self.pending_of(self.positions@[token_id], ledger) is Err {
            Some(self.pending_of(self.positions@[token_id], ledger)->Err_0)
        } else if self.pending_of(self.positions@[token_id], ledger)->Ok_0 > 0 && self.positions@[token_id].total_claimed
            + self.pending_of(self.positions@[token_id], ledger)->Ok_0 > i128::MAX {
            Some(NftStakingError::Overflow)
        } else if self.pending_of(self.positions@[token_id], ledger)->Ok_0 > 0 && self.config is None {
            Some(NftStakingError::NotInitialized)
        } else {
            None
        }
    }

    /// Pays the rewards earned up to ledger `ledger` and restarts the count
    /// there; returns them and the mint, when positive.
    pub fn claim_rewards(&mut self, staker: AccountId, token_id: u32, ledger: u32) -> (r: Result<
        (i128, Option<Mint>),
        NftStakingError,
    >)
        requires
            old(self).wf(),
        ensures
            final(self).wf(),
            match old(self).claim_error(staker, token_id, ledger) {
                Some(e) => r == Err::<(i128, Option<Mint>), NftStakingError>(e) && *final(self) == *old(self),
                None => {
                    let pos = old(self).positions@[token_id];
                    let p = old(self).pending_of(pos, ledger)->Ok_0;
                    &&& r is Ok
                    &&& r.unwrap().0 == p
                    &&& r.unwrap().1 == if p > 0 {
                        Some(
                            Mint {
                                token: old(self).config.unwrap().reward_token,
                                minter: old(self).contract,
                                to: staker,
                                amount: p,
                            },
                        )
                    } else {
                        None
                    }
                    &&& final(self).positions@ == old(self).positions@.insert(
                        token_id,
                        NFTStakePosition {
                            last_claim_ledger: ledger,
                            total_claimed: if p > 0 { (pos.total_claimed + p) as i128 } else { pos.total_claimed },
                            ..pos
                        },
                    )
                    &&& final(self).rarity_configs@ == old(self).rarity_configs@
                    &&& final(self).token_rarity@ == old(self).token_rarity@
                    &&& final(self).config == old(self).config
                    &&& final(self).contract == old(self).contract
                },
            },
    {
        let pos = match self.positions.get(&token_id) {
            Some(p) => *p,
            None => return Err(NftStakingError::PositionNotFound),
        };
        if pos.staker != staker {
            return Err(NftStakingError::Unauthorized);
        }
        let p = match self.pending(&pos, ledger) {
            Ok(p) => p,
            Err(e) => return Err(e),
        };
        let mut total = pos.total_claimed;
        let mut mint: Option<Mint> = None;
        if p > 0 {
            total = match pos.total_claimed.checked_add(p) {
                Some(t) => t,
                None => return Err(NftStakingError::Overflow),
            };
            let cfg = match self.config {
                Some(c) => c,
                None => return Err(NftStakingError::NotInitialized),
            };
            mint = Some(Mint { token: cfg.reward_token, minter: self.contract, to: staker, amount: p });
        }
        self.positions.insert(token_id, NFTStakePosition { last_claim_ledger: ledger, total_claimed: total, ..pos });
        Ok((p, mint))
    }

    /// The error of `unstake`, checked in the order of the contract.
    pub open spec fn unstake_error(&self, staker: AccountId, token_id: u32, now: u64, ledger: u32) -> Option<NftStakingError> {
        if self.config is None {
            Some(NftStakingError::NotInitialized)
        } else if !self.positions@.contains_key(token_id) {
            Some(NftStakingError::PositionNotFound)
        } else if self.positions@[token_id].staker != staker {
            Some(NftStakingError::Unauthorized)
        } else if now < self.positions@[token_id].staked_at || now - self.positions@[token_id].staked_at < MIN_STAKE_SECONDS {
            Some(NftStakingError::UnstakeTooEarly)
        } else if self.pending_of(self.positions@[token_id], ledger) is Err {
            Some(self.pending_of(self.positions@[token_id], ledger)->Err_0)
        } else {
            None
        }
    }

    /// Ends a stake of at least 48 hours: pays the rewards earned up to
    /// ledger `ledger` and returns the NFT. Returns the rewards, their mint
    /// when positive, and the NFT move.
    pub fn unstake(&mut self, staker: AccountId, token_id: u32, now: u64, ledger: u32) -> (r: Result<
        (i128, Option<Mint>, NftTransfer),
        NftStakingError,
    >)
        requires
            old(self).wf(),
        ensures
            final(self).wf(),
            match old(self).unstake_error(staker, token_id, now, ledger) {
                Some(e) => r == Err::<(i128, Option<Mint>, NftTransfer), NftStakingError>(e) && *final(self) == *old(
                    self),
                None => {
                    let pos = old(self).positions@[token_id];
                    let cfg = old(self).config.unwrap();
                    let p = old(self).pending_of(pos, ledger)->Ok_0;
                    &&& r is Ok
                    &&& r.unwrap().0 == p
                    &&& r.unwrap().1 == if p > 0 {
                        Some(Mint { token: cfg.reward_token, minter: old(self).contract, to: pos.staker, amount: p })
                    } else {
                        None
                    }
                    &&& r.unwrap().2 == NftTransfer {
                        nft_contract: cfg.nft_contract,
                        from: old(self).contract,
                        to: pos.staker,
                        nft_id: token_id,
                    }
                    &&& final(self).positions@ == old(self).positions@.remove(token_id)
                    &&& final(self).rarity_configs@ == old(self).rarity_configs@
                    &&& final(self).token_rarity@ == old(self).token_rarity@
                    &&& final(self).config == old(self).config
                    &&& final(self).contract == old(self).contract
                },
            },
    {
        let cfg = match self.config {
            Some(c) => c,
            None => return Err(NftStakingError::NotInitialized),
        };
        let pos = match self.positions.get(&token_id) {
            Some(p) => *p,
            None => return Err(NftStakingError::PositionNotFound),
        };
        if pos.staker != staker {
            return Err(NftStakingError::Unauthorized);
        }
        if now < pos.staked_at || now - pos.staked_at < MIN_STAKE_SECONDS {
            return Err(NftStakingError::UnstakeTooEarly);
        }
        let p = match self.pending(&pos, ledger) {
            Ok(p) => p,
            Err(e) => return Err(e),
        };
        let mint = if p > 0 {
            Some(Mint { token: cfg.reward_token, minter: self.contract, to: pos.staker, amount: p })
        } else {
            None
        };
        self.positions.remove(&token_id);
        Ok((p, mint, NftTransfer { nft_contract: cfg.nft_contract, from: self.contract, to: pos.staker, nft_id: token_id }))
    }

    /// The rewards `token_id` has earned by ledger `ledger`.
    pub fn pending_rewards(&self, token_id: u32, ledger: u32) -> (r: Result<i128, NftStakingError>)
        requires
            self.wf(),
        ensures
            !self.positions@.contains_key(token_id) ==> r == Err::<i128, NftStakingError>(
                NftStakingError::PositionNotFound,
            ),
            self.positions@.contains_key(token_id) ==> r == self.pending_of(self.positions@[token_id], ledger),
    {
        match self.positions.get(&token_id) {
            Some(p) => self.pending(p, ledger),
            None => Err(NftStakingError::PositionNotFound),
        }
    }

    /// The position of `token_id` with its pending rewards at ledger
    /// `ledger` and its whole days staked at time `now`.
    pub fn get_position(&self, token_id: u32, now: u64, ledger: u32) -> (r: Result<PositionView, NftStakingError>)
        requires
            self.wf(),
        ensures
            !self.positions@.contains_key(token_id) ==> r == Err::<PositionView, NftStakingError>(
                NftStakingError::PositionNotFound,
            ),
            self.positions@.contains_key(token_id) ==> {
                let pos = self.positions@[token_id];
                match self.pending_of(pos, ledger) {
                    Err(e) => r == Err::<PositionView, NftStakingError>(e),
                    Ok(p) => r == Ok::<PositionView, NftStakingError>(
                        PositionView {
                            position: pos,
                            pending_rewards: p,
                            days_staked: (if now > pos.staked_at { now - pos.staked_at } else { 0 }) as u64 / 86400,
                        },
                    ),
                }
            },
    {
        let pos = match self.positions.get(&token_id) {
            Some(p) => *p,
            None => return Err(NftStakingError::PositionNotFound),
        };
        let p = match self.pending(&pos, ledger) {
            Ok(p) => p,
            Err(e) => return Err(e),
        };
        let seconds = now.saturating_sub(pos.staked_at);
        Ok(PositionView { position: pos, pending_rewards: p, days_staked: seconds / 86400 })
    }
}

} // verus!
