//! Loyalty points: an oracle awards points to players, players redeem them
//! for the admin's redemption options, and points left unused for a year
//! expire.
use vstd::prelude::*;
use std::collections::HashMap;
use crate::util::AccountId;

verus! {

broadcast use vstd::std_specs::hash::group_hash_axioms;

/// Points expire after a year without activity, in seconds.
pub const EXPIRY_WINDOW: u64 = 31536000;

#[derive(Clone, Copy, Debug, PartialEq, Eq, Structural)]
pub enum LoyaltyError {
    AlreadyInitialized,
    NotInitialized,
    Unauthorized,
    InsufficientBalance,
    OptionNotFound,
    OptionDisabled,
    PointsExpired,
    NonTransferable,
    Overflow,
}

#[derive(Clone, Copy, Debug, PartialEq, Eq, Structural)]
pub struct PointsBalance {
    pub player: AccountId,
    pub total_earned: u64,
    pub total_redeemed: u64,
    pub current_balance: u64,
    pub last_activity: u64,
}

#[derive(Clone, Copy, Debug, PartialEq, Eq, Structural)]
pub enum RewardType {
    Token,
    Discount,
    Item,
}

pub struct RedemptionOption {
    pub id: u32,
    pub name: String,
    pub points_cost: u64,
    pub reward_type: RewardType,
    pub reward_value: u64,
    pub enabled: bool,
}

/// The storage of the contract.
pub struct LoyaltyPointsContract {
    pub admin: Option<AccountId>,
    pub oracle: Option<AccountId>,
    pub next_option_id: u32,
    pub balances: HashMap<u64, PointsBalance>,
    pub options: HashMap<u32, RedemptionOption>,
    pub all_players: Vec<AccountId>,
}

impl RedemptionOption {
    pub open spec fn same(&self, other: &RedemptionOption) -> bool {
        &&& self.id == other.id
        &&& self.name@ == other.name@
        &&& self.points_cost == other.points_cost
        &&& self.reward_type == other.reward_type
        &&& self.reward_value == other.reward_value
        &&& self.enabled == other.enabled
    }

    pub fn copy(&self) -> (r: RedemptionOption)
        ensures
            r == *self,
    {
        RedemptionOption {
            id: self.id,
            name: self.name.clone(),
            points_cost: self.points_cost,
            reward_type: self.reward_type,
            reward_value: self.reward_value,
            enabled: self.enabled,
        }
    }
}

/// Whether points last used at `last_activity` have expired at `now`.
pub open spec fn is_stale(now: u64, last_activity: u64) -> bool {
    now > last_activity && now - last_activity > EXPIRY_WINDOW
}

impl LoyaltyPointsContract {
    /// The balance record of `player` (a zero record where none exists).
    pub open spec fn balance_of(&self, player: AccountId) -> PointsBalance {
        if self.balances@.contains_key(player) {
            self.balances@[player]
        } else {
            PointsBalance { player, total_earned: 0, total_redeemed: 0, current_balance: 0, last_activity: 0 }
        }
    }

    /// No player holds more points than it earned and did not redeem.
    pub open spec fn wf(&self) -> bool {
        forall|p: u64| #[trigger] self.balances@.contains_key(p) ==> self.balances@[p].current_balance
            + self.balances@[p].total_redeemed <= self.balances@[p].total_earned
    }

    /// Every table but the balances and the players is the same.
    pub open spec fn catalog_same(&self, other: &Self) -> bool {
        &&& self.admin == other.admin
        &&& self.oracle == other.oracle
        &&& self.next_option_id == other.next_option_id
        &&& self.options@ == other.options@
    }

    /// An empty contract.
    pub fn new() -> (r: Self)
        ensures
            r.admin is None,
            r.oracle is None,
            r.next_option_id == 0,
            r.balances@ == Map::<u64, PointsBalance>::empty(),
            r.options@ == Map::<u32, RedemptionOption>::empty(),
            r.all_players@ == Seq::<AccountId>::empty(),
            r.wf(),
    {
        LoyaltyPointsContract {
            admin: None,
            oracle: None,
            next_option_id: 0,
            balances: HashMap::new(),
            options: HashMap::new(),
            all_players: Vec::new(),
        }
    }

    /// Stores the admin and the oracle; option ids start at 0.
    pub fn initialize(&mut self, admin: AccountId, oracle: AccountId) -> (r: Result<(), LoyaltyError>)
        requires
            old(self).wf(),
        ensures
            final(self).wf(),
            old(self).admin is Some ==> r == Err::<(), LoyaltyError>(LoyaltyError::AlreadyInitialized)
                && *final(self) == *old(self),
            old(self).admin is None ==> r is Ok && final(self).admin == Some(admin) && final(self).oracle == Some(
                oracle,
            ) && final(self).next_option_id == 0 && final(self).all_players@.len() == 0 && final(self).balances@
                == old(self).balances@ && final(self).options@ == old(self).options@,
    {
        if self.admin.is_some() {
            return Err(LoyaltyError::AlreadyInitialized);
        }
        self.admin = Some(admin);
        self.oracle = Some(oracle);
        self.next_option_id = 0;
        self.all_players = Vec::new();
        Ok(())
    }

    /// The error of `award_points`, checked in the order of the contract.
    pub open spec fn award_error(&self, player: AccountId, amount: u64) -> Option<LoyaltyError> {
        if self.oracle is None {
            Some(LoyaltyError::NotInitialized)
        } else if self.balance_of(player).current_balance + amount > u64::MAX || self.balance_of(player).total_earned
            + amount > u64::MAX {
            Some(LoyaltyError::Overflow)
        } else {
            None
        }
    }

    /// Adds `amount` points to `player` at time `now` (the oracle's call); a
    /// player with nothing earned or redeemed yet is registered. Returns the
    /// new balance.
    pub fn award_points(&mut self, player: AccountId, amount: u64, now: u64) -> (r: Result<u64, LoyaltyError>)
        requires
            old(self).wf(),
        ensures
            final(self).wf(),
            match old(self).award_error(player, amount) {
                Some(e) => r == Err::<u64, LoyaltyError>(e) && *final(self) == *old(self),
                None => {
                    let b = old(self).balance_of(player);
                    let nb = PointsBalance {
                        player: b.player,
                        total_earned: (b.total_earned + amount) as u64,
                        total_redeemed: b.total_redeemed,
                        current_balance: (b.current_balance + amount) as u64,
                        last_activity: now,
                    };
                    &&& r == Ok::<u64, LoyaltyError>(nb.current_balance)
                    &&& final(self).balances@ == old(self).balances@.insert(player, nb)
                    &&& final(self).all_players@ == if b.total_earned == 0 && b.total_redeemed == 0 {
                        old(self).all_players@.push(player)
                    } else {
                        old(self).all_players@
                    }
                    &&& final(self).catalog_same(old(self))
                },
            },
    {
        if self.oracle.is_none() {
            return Err(LoyaltyError::NotInitialized);
        }
        let b = match self.balances.get(&player) {
            Some(b) => *b,
            None => PointsBalance { player, total_earned: 0, total_redeemed: 0, current_balance: 0, last_activity: 0 },
        };
        if b.current_balance > u64::MAX - amount || b.total_earned > u64::MAX - amount {
            return Err(LoyaltyError::Overflow);
        }
        if b.total_earned == 0 && b.total_redeemed == 0 {
            self.all_players.push(player);
        }
        let nb = PointsBalance {
            player: b.player,
            total_earned: b.total_earned + amount,
            total_redeemed: b.total_redeemed,
            current_balance: b.current_balance + amount,
            last_activity: now,
        };
        self.balances.insert(player, nb);
        Ok(nb.current_balance)
    }

    /// The error of `redeem`, checked in the order of the contract.
    pub open spec fn redeem_error(&self, player: AccountId, option_id: u32, now: u64) -> Option<LoyaltyError> {
        if !self.options@.contains_key(option_id) {
            Some(LoyaltyError::OptionNotFound)
        } else if !self.options@[option_id].enabled {
            Some(LoyaltyError::OptionDisabled)
        } else if !self.balances@.contains_key(player) {
            Some(LoyaltyError::InsufficientBalance)
        } else if is_stale(now, self.balances@[player].last_activity) {
            Some(LoyaltyError::PointsExpired)
        } else if self.balances@[player].current_balance < self.options@[option_id].points_cost {
            Some(LoyaltyError::InsufficientBalance)
        } else if self.balances@[player].total_redeemed + self.options@[option_id].points_cost > u64::MAX {
            Some(LoyaltyError::Overflow)
        } else {
            None
        }
    }

    /// Spends the points of an enabled option at time `now`; returns the new
    /// balance.
    pub fn redeem(&mut self, player: AccountId, option_id: u32, now: u64) -> (r: Result<u64, LoyaltyError>)
        requires
            old(self).wf(),
        ensures
            final(self).wf(),
            match old(self).redeem_error(player, option_id, now) {
                Some(e) => r == Err::<u64, LoyaltyError>(e) && *final(self) == *old(self),
                None => {
                    let b = old(self).balances@[player];
                    let cost = old(self).options@[option_id].points_cost;
                    let nb = PointsBalance {
                        current_balance: (b.current_balance - cost) as u64,
                        total_redeemed: (b.total_redeemed + cost) as u64,
                        last_activity: now,
                        ..b
                    };
                    &&& r == Ok::<u64, LoyaltyError>(nb.current_balance)
                    &&& final(self).balances@ == old(self).balances@.insert(player, nb)
                    &&& final(self).all_players@ == old(self).all_players@
                    &&& final(self).catalog_same(old(self))
                },
            },
    {
        let (cost, enabled) = match self.options.get(&option_id) {
            Some(o) => (o.points_cost, o.enabled),
            None => return Err(LoyaltyError::OptionNotFound),
        };
        if !enabled {
            return Err(LoyaltyError::OptionDisabled);
        }
        let b = match self.balances.get(&player) {
            Some(b) => *b,
            None => return Err(LoyaltyError::InsufficientBalance),
        };
        if now.saturating_sub(b.last_activity) > EXPIRY_WINDOW {
            return Err(LoyaltyError::PointsExpired);
        }
        if b.current_balance < cost {
            return Err(LoyaltyError::InsufficientBalance);
        }
        if b.total_redeemed > u64::MAX - cost {
            return Err(LoyaltyError::Overflow);
        }
        let nb = PointsBalance {
            current_balance: b.current_balance - cost,
            total_redeemed: b.total_redeemed + cost,
            last_activity: now,
            ..b
        };
        self.balances.insert(player, nb);
        Ok(nb.current_balance)
    }

    /// Clears the balance of `player` when it has gone a year unused at
    /// `now`; returns the balance left.
    pub fn expire_stale_points(&mut self, player: AccountId, now: u64) -> (r: Result<u64, LoyaltyError>)
        requires
            old(self).wf(),
        ensures
            final(self).wf(),
            !old(self).balances@.contains_key(player) ==> r == Err::<u64, LoyaltyError>(
                LoyaltyError::InsufficientBalance,
            ) && *final(self) == *old(self),
            old(self).balances@.contains_key(player) && !is_stale(now, old(self).balances@[player].last_activity)
                ==> r == Ok::<u64, LoyaltyError>(old(self).balances@[player].current_balance) && *final(self)
                == *old(self),
            old(self).balances@.contains_key(player) && is_stale(now, old(self).balances@[player].last_activity)
                ==> r == Ok::<u64, LoyaltyError>(0) && final(self).balances@ == old(self).balances@.insert(
                player,
                PointsBalance { current_balance: 0, ..old(self).balances@[player] },
            ) && final(self).all_players@ == old(self).all_players@ && final(self).catalog_same(old(self)),
    {
        let b = match self.balances.get(&player) {
            Some(b) => *b,
            None => return Err(LoyaltyError::InsufficientBalance),
        };
        if now.saturating_sub(b.last_activity) <= EXPIRY_WINDOW {
            return Ok(b.current_balance);
        }
        self.balances.insert(player, PointsBalance { current_balance: 0, ..b });
        Ok(0)
    }

    /// Adds a redemption option under the next id (the admin's call);
    /// returns the id.
    pub fn create_option(&mut self, name: String, points_cost: u64, reward_type: RewardType, reward_value: u64) -> (r:
        Result<u32, LoyaltyError>)
        requires
            old(self).wf(),
        ensures
            final(self).wf(),
            old(self).admin is None ==> r == Err::<u32, LoyaltyError>(LoyaltyError::NotInitialized) && *final(self)
                == *old(self),
            old(self).admin is Some && old(self).next_option_id == u32::MAX ==> r == Err::<u32, LoyaltyError>(
                LoyaltyError::Overflow,
            ) && *final(self) == *old(self),
            old(self).admin is Some && old(self).next_option_id < u32::MAX ==> {
                let id = old(self).next_option_id;
                &&& r == Ok::<u32, LoyaltyError>(id)
                &&& final(self).options@ == old(self).options@.insert(
                    id,
                    RedemptionOption { id, name, points_cost, reward_type, reward_value, enabled: true },
                )
                &&& final(self).next_option_id == id + 1
                &&& final(self).admin == old(self).admin
                &&& final(self).oracle == old(self).oracle
                &&& final(self).balances@ == old(self).balances@
                &&& final(self).all_players@ == old(self).all_players@
            },
    {
        if self.admin.is_none() {
            return Err(LoyaltyError::NotInitialized);
        }
        if self.next_option_id == u32::MAX {
            return Err(LoyaltyError::Overflow);
        }
        let id = self.next_option_id;
        self.options.insert(id, RedemptionOption { id, name, points_cost, reward_type, reward_value, enabled: true });
        self.next_option_id = id + 1;
        Ok(id)
    }

    /// Replaces an existing option (the admin's call).
    pub fn update_option(
        &mut self,
        option_id: u32,
        name: String,
        points_cost: u64,
        reward_type: RewardType,
        reward_value: u64,
        enabled: bool,
    ) -> (r: Result<(), LoyaltyError>)
        requires
            old(self).wf(),
        ensures
            final(self).wf(),
            old(self).admin is None ==> r == Err::<(), LoyaltyError>(LoyaltyError::NotInitialized) && *final(self)
                == *old(self),
            old(self).admin is Some && !old(self).options@.contains_key(option_id) ==> r == Err::<(), LoyaltyError>(
                LoyaltyError::OptionNotFound,
            ) && *final(self) == *old(self),
            old(self).admin is Some && old(self).options@.contains_key(option_id) ==> r is Ok && final(self).options@
                == old(self).options@.insert(
                option_id,
                RedemptionOption { id: option_id, name, points_cost, reward_type, reward_value, enabled },
            ) && final(self).next_option_id == old(self).next_option_id && final(self).admin == old(self).admin
                && final(self).oracle == old(self).oracle && final(self).balances@ == old(self).balances@ && final(self).all_players@ == old(self).all_players@,
    {
        if self.admin.is_none() {
            return Err(LoyaltyError::NotInitialized);
        }
        if !self.options.contains_key(&option_id) {
            return Err(LoyaltyError::OptionNotFound);
        }
        self.options.insert(
            option_id,
            RedemptionOption { id: option_id, name, points_cost, reward_type, reward_value, enabled },
        );
        Ok(())
    }

    /// Disables an existing option (the admin's call).
    pub fn disable_option(&mut self, option_id: u32) -> (r: Result<(), LoyaltyError>)
        requires
            old(self).wf(),
        ensures
            final(self).wf(),
            old(self).admin is None ==> r == Err::<(), LoyaltyError>(LoyaltyError::NotInitialized) && *final(self)
                == *old(self),
            old(self).admin is Some && !old(self).options@.contains_key(option_id) ==> r == Err::<(), LoyaltyError>(
                LoyaltyError::OptionNotFound,
            ) && *final(self) == *old(self),
            old(self).admin is Some && old(self).options@.contains_key(option_id) ==> r is Ok && final(self).options@
                == old(self).options@.insert(
                option_id,
                RedemptionOption { enabled: false, ..old(self).options@[option_id] },
            ) && final(self).next_option_id == old(self).next_option_id && final(self).admin == old(self).admin
                && final(self).oracle == old(self).oracle && final(self).balances@ == old(self).balances@ && final(self).all_players@ == old(self).all_players@,
    {
        if self.admin.is_none() {
            return Err(LoyaltyError::NotInitialized);
        }
        if !self.options.contains_key(&option_id) {
            return Err(LoyaltyError::OptionNotFound);
        }
        let mut o = self.options.remove(&option_id).unwrap();
        o.enabled = false;
        self.options.insert(option_id, o);
        Ok(())
    }

    /// Replaces the oracle (the admin's call).
    pub fn set_oracle(&mut self, new_oracle: AccountId) -> (r: Result<(), LoyaltyError>)
        requires
            old(self).wf(),
        ensures
            final(self).wf(),
            old(self).admin is None ==> r == Err::<(), LoyaltyError>(LoyaltyError::NotInitialized) && *final(self)
                == *old(self),
            old(self).admin is Some ==> r is Ok && *final(self) == (LoyaltyPointsContract {
                oracle: Some(new_oracle),
                ..*old(self)
            }),
    {
        if self.admin.is_none() {
            return Err(LoyaltyError::NotInitialized);
        }
        self.oracle = Some(new_oracle);
        Ok(())
    }

    /// The balance record of `player` (a zero record where none exists).
    pub fn get_balance(&self, player: AccountId) -> (r: PointsBalance)
        ensures
            r == self.balance_of(player),
    {
        match self.balances.get(&player) {
            Some(b) => *b,
            None => PointsBalance { player, total_earned: 0, total_redeemed: 0, current_balance: 0, last_activity: 0 },
        }
    }

    /// A copy of the option `option_id`.
    pub fn get_option(&self, option_id: u32) -> (r: Result<RedemptionOption, LoyaltyError>)
        ensures
            self.options@.contains_key(option_id) ==> r == Ok::<RedemptionOption, LoyaltyError>(
                self.options@[option_id],
            ),
            !self.options@.contains_key(option_id) ==> r == Err::<RedemptionOption, LoyaltyError>(
                LoyaltyError::OptionNotFound,
            ),
    {
        match self.options.get(&option_id) {
            Some(o) => Ok(o.copy()),
            None => Err(LoyaltyError::OptionNotFound),
        }
    }
}

/// Points go stale only once more than the expiry window (a year of
/// seconds) has passed since the player's last activity; at exactly a year
/// they still count.
pub proof fn lemma_staleness_window(now: u64, last_activity: u64)
    ensures
        is_stale(now, last_activity) <==> now as int > last_activity as int + 31536000,
{
}

} // verus!
