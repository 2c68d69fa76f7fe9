//! Fractional ownership of an NFT: the owner locks the NFT in a vault and
//! receives all its fractions; a buyer can then start a buyout by escrowing
//! an offer, which opens a voting period.
use vstd::prelude::*;
use std::collections::HashMap;
use crate::util::{AccountId, NftTransfer, Transfer, pair_key, pair_key_spec, value_at};

verus! {

broadcast use vstd::std_specs::hash::group_hash_axioms;

/// The length of a buyout vote: seven days, in seconds.
pub const VOTING_PERIOD_SECS: u64 = 604800;

#[derive(Clone, Copy, Debug, PartialEq, Eq, Structural)]
pub enum VaultStatus {
    Active,
    BuyoutPending,
    Completed,
    Rejected,
}

#[derive(Clone, Copy, Debug, PartialEq, Eq, Structural)]
pub struct FractionalVault {
    pub id: u64,
    pub nft_contract: AccountId,
    pub nft_id: u32,
    pub owner: AccountId,
    pub total_fractions: i128,
    pub fraction_token: AccountId,
    pub status: VaultStatus,
    pub buyout_price: i128,
    pub payment_token: AccountId,
    pub buyout_votes_for: i128,
    pub buyout_votes_against: i128,
    pub buyout_buyer: Option<AccountId>,
    pub buyout_offer_price: i128,
    pub buyout_deadline: u64,
}

#[derive(Clone, Copy, Debug, PartialEq, Eq, Structural)]
pub enum FractionalError {
    AlreadyInitialized,
    NotNftOwner,
    VaultNotFound,
    VaultNotActive,
    OfferBelowBuyoutPrice,
    Overflow,
}

/// The storage of the contract; `contract` is its own account.
pub struct FractionalNftContract {
    pub contract: AccountId,
    pub admin: Option<AccountId>,
    pub vault_count: u64,
    pub vaults: HashMap<u64, FractionalVault>,
    /// Fraction balances by `pair_key(vault id, holder)`.
    pub balances: HashMap<u128, i128>,
}

impl FractionalNftContract {
    /// The fractions of vault `vault_id` that `holder` has.
    pub open spec fn balance_of(&self, vault_id: u64, holder: AccountId) -> i128 {
        value_at(self.balances@, pair_key_spec(vault_id, holder), 0)
    }

    /// A contract with empty storage, deployed at `contract`.
    pub fn new(contract: AccountId) -> (r: Self)
        ensures
            r.contract == contract,
            r.admin is None,
            r.vault_count == 0,
            r.vaults@ == Map::<u64, FractionalVault>::empty(),
            r.balances@ == Map::<u128, i128>::empty(),
    {
        FractionalNftContract {
            contract,
            admin: None,
            vault_count: 0,
            vaults: HashMap::new(),
            balances: HashMap::new(),
        }
    }

    /// Stores the admin; vault ids start at 1.
    pub fn initialize(&mut self, admin: AccountId) -> (r: Result<(), FractionalError>)
        ensures
            old(self).admin is Some ==> r == Err::<(), FractionalError>(FractionalError::AlreadyInitialized)
                && *final(self) == *old(self),
            old(self).admin is None ==> r is Ok && final(self).admin == Some(admin) && final(self).vault_count == 0
                && final(self).vaults@ == old(self).vaults@ && final(self).balances@ == old(self).balances@
                && final(self).contract == old(self).contract,
    {
        if self.admin.is_some() {
            return Err(FractionalError::AlreadyInitialized);
        }
        self.admin = Some(admin);
        self.vault_count = 0;
        Ok(())
    }

    /// Locks the NFT in a new vault and gives its owner all `total_fractions`;
    /// `current_owner` is what the NFT contract answered for the NFT's owner.
    /// Returns the vault id and the NFT move into the contract.
    pub fn fractionalize(
        &mut self,
        owner: AccountId,
        nft_contract: AccountId,
        nft_id: u32,
        total_fractions: i128,
        buyout_price: i128,
        payment_token: AccountId,
        current_owner: AccountId,
    ) -> (r: Result<(u64, NftTransfer), FractionalError>)
        ensures
            current_owner != owner ==> r == Err::<(u64, NftTransfer), FractionalError>(FractionalError::NotNftOwner)
                && *final(self) == *old(self),
            current_owner == owner && old(self).vault_count == u64::MAX ==> r == Err::<
                (u64, NftTransfer),
                FractionalError,
            >(FractionalError::Overflow) && *final(self) == *old(self),
            current_owner == owner && old(self).vault_count < u64::MAX ==> {
                let id = (old(self).vault_count + 1) as u64;
                &&& r == Ok::<(u64, NftTransfer), FractionalError>(
                    (id, NftTransfer { nft_contract, from: owner, to: old(self).contract, nft_id }),
                )
                &&& final(self).vault_count == id
                &&& final(self).vaults@ == old(self).vaults@.insert(
                    id,
                    FractionalVault {
                        id,
                        nft_contract,
                        nft_id,
                        owner,
                        total_fractions,
                        fraction_token: old(self).contract,
                        status: VaultStatus::Active,
                        buyout_price,
                        payment_token,
                        buyout_votes_for: 0,
                        buyout_votes_against: 0,
                        buyout_buyer: None,
                        buyout_offer_price: 0,
                        buyout_deadline: 0,
                    },
                )
                &&& final(self).balances@ == old(self).balances@.insert(pair_key_spec(id, owner), total_fractions)
                &&& final(self).admin == old(self).admin
                &&& final(self).contract == old(self).contract
            },
    {
        if current_owner != owner {
            return Err(FractionalError::NotNftOwner);
        }
        if self.vault_count == u64::MAX {
            return Err(FractionalError::Overflow);
        }
        let id = self.vault_count + 1;
        self.vault_count = id;
        let vault = FractionalVault {
            id,
            nft_contract,
            nft_id,
            owner,
            total_fractions,
            fraction_token: self.contract,
            status: VaultStatus::Active,
            buyout_price,
            payment_token,
            buyout_votes_for: 0,
            buyout_votes_against: 0,
            buyout_buyer: None,
            buyout_offer_price: 0,
            buyout_deadline: 0,
        };
        self.vaults.insert(id, vault);
        self.balances.insert(pair_key(id, owner), total_fractions);
        Ok((id, NftTransfer { nft_contract, from: owner, to: self.contract, nft_id }))
    }

    /// The error of `initiate_buyout`, checked in the order of the contract.
    pub open spec fn buyout_error(&self, vault_id: u64, offer_price: i128, now: u64) -> Option<FractionalError> {
        if !self.vaults@.contains_key(vault_id) {
            Some(FractionalError::VaultNotFound)
        } else if self.vaults@[vault_id].status != VaultStatus::Active {
            Some(FractionalError::VaultNotActive)
        } else if offer_price < self.vaults@[vault_id].buyout_price {
            Some(FractionalError::OfferBelowBuyoutPrice)
        } else if now + VOTING_PERIOD_SECS > u64::MAX {
            Some(FractionalError::Overflow)
        } else {
            None
        }
    }

    /// Escrows the buyer's offer, at least the buyout price, for an active
    /// vault and opens a vote that ends seven days after `now`; returns the
    /// escrow payment.
    pub fn initiate_buyout(&mut self, buyer: AccountId, vault_id: u64, offer_price: i128, now: u64) -> (r: Result<
        Transfer,
        FractionalError,
    >)
        ensures
            match old(self).buyout_error(vault_id, offer_price, now) {
                Some(e) => r == Err::<Transfer, FractionalError>(e) && *final(self) == *old(self),
                None => {
                    let v = old(self).vaults@[vault_id];
                    &&& r == Ok::<Transfer, FractionalError>(
                        Transfer { token: v.payment_token, from: buyer, to: old(self).contract, amount: offer_price },
                    )
                    &&& final(self).vaults@ == old(self).vaults@.insert(
                        vault_id,
                        FractionalVault {
                            status: VaultStatus::BuyoutPending,
                            buyout_buyer: Some(buyer),
                            buyout_offer_price: offer_price,
                            buyout_deadline: (now + VOTING_PERIOD_SECS) as u64,
                            ..v
                        },
                    )
                    &&& final(self).balances@ == old(self).balances@
                    &&& final(self).vault_count == old(self).vault_count
                    &&& final(self).admin == old(self).admin
                    &&& final(self).contract == old(self).contract
                },
            },
    {
        let v = match self.vaults.get(&vault_id) {
            Some(v) => *v,
            None => return Err(FractionalError::VaultNotFound),
        };
        if v.status != VaultStatus::Active {
            return Err(FractionalError::VaultNotActive);
        }
        if offer_price < v.buyout_price {
            return Err(FractionalError::OfferBelowBuyoutPrice);
        }
        if now > u64::MAX - VOTING_PERIOD_SECS {
            return Err(FractionalError::Overflow);
        }
        let deadline = now + VOTING_PERIOD_SECS;
        self.vaults.insert(
            vault_id,
            FractionalVault {
                status: VaultStatus::BuyoutPending,
                buyout_buyer: Some(buyer),
                buyout_offer_price: offer_price,
                buyout_deadline: deadline,
                ..v
            },
        );
        Ok(Transfer { token: v.payment_token, from: buyer, to: self.contract, amount: offer_price })
    }

    /// The fractions of vault `vault_id` that `holder` has.
    pub fn get_balance(&self, vault_id: u64, holder: AccountId) -> (r: i128)
        ensures
            r == self.balance_of(vault_id, holder),
    {
        crate::util::value_or(&self.balances, &pair_key(vault_id, holder), 0)
    }
}

} // verus!
