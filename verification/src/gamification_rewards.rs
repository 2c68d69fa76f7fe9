//! Gamification rewards: the milestone thresholds of the action counter and
//! the boosts that players hold.
use vstd::prelude::*;
use std::collections::HashMap;
use crate::util::AccountId;

verus! {

broadcast use vstd::std_specs::hash::group_hash_axioms;

#[derive(Clone, Copy, Debug, PartialEq, Eq, Structural)]
pub enum MultiplierType {
    Streak,
    Combo,
    Milestone,
    Boost,
}

#[derive(Clone, Copy, Debug, PartialEq, Eq, Structural)]
pub enum StreakType {
    Daily,
    Weekly,
}

#[derive(Clone, Copy, Debug, PartialEq, Eq, Structural)]
pub struct MultiplierState {
    pub base_multiplier: u32,
    pub streak_multiplier: u32,
    pub combo_multiplier: u32,
    pub milestone_multiplier: u32,
    pub boost_multiplier: u32,
    pub total_multiplier: u32,
}

#[derive(Clone, Copy, Debug, PartialEq, Eq, Structural)]
pub struct StreakData {
    pub daily_streak: u32,
    pub weekly_streak: u32,
    pub last_daily_claim: u32,
    pub last_weekly_claim: u32,
    pub best_daily_streak: u32,
    pub best_weekly_streak: u32,
}

#[derive(Clone, Copy, Debug, PartialEq, Eq, Structural)]
pub struct ComboChain {
    pub current_combo: u32,
    pub best_combo: u32,
    pub last_action_ledger: u32,
    pub combo_decay_start: u32,
}

#[derive(Clone, Copy, Debug, PartialEq, Eq, Structural)]
pub struct MilestoneProgress {
    pub total_actions: u32,
    pub milestones_unlocked: u32,
    pub permanent_bonus: u32,
}

#[derive(Clone, Copy, Debug, PartialEq, Eq, Structural)]
pub enum BoostType {
    SpeedBoost,
    LuckBoost,
    PowerBoost,
    SuperBoost,
}

#[derive(Clone, Copy, Debug, PartialEq, Eq, Structural)]
pub struct BoostItem {
    pub boost_type: BoostType,
    pub multiplier_bonus: u32,
    pub start_ledger: u32,
    pub duration_ledgers: u32,
    pub is_active: bool,
}

#[derive(Clone, Copy, Debug, PartialEq, Eq, Structural)]
pub struct Config {
    pub admin: AccountId,
    pub paused: bool,
}

#[derive(Clone, Copy, Debug, PartialEq, Eq, Structural)]
pub enum GamificationError {
    AlreadyInitialized,
}

/// The storage of the contract.
pub struct GamificationRewardsContract {
    pub config: Option<Config>,
    pub admin: Option<AccountId>,
    /// The number of actions that unlocks each milestone level.
    pub thresholds: HashMap<u32, u32>,
    pub boosts: HashMap<AccountId, Vec<BoostItem>>,
}

/// The thresholds that `initialize` sets, over those already there.
pub open spec fn default_thresholds(m: Map<u32, u32>) -> Map<u32, u32> {
    m.insert(1, 10).insert(2, 50).insert(3, 100).insert(4, 250).insert(5, 500).insert(6, 1000)
}

/// The boosts of `player` in `m`, none where there is no entry.
pub open spec fn boosts_of(m: Map<AccountId, Vec<BoostItem>>, player: AccountId) -> Seq<BoostItem> {
    if m.contains_key(player) {
        m[player]@
    } else {
        Seq::empty()
    }
}

impl GamificationRewardsContract {
    /// A contract with empty storage.
    pub fn new() -> (r: Self)
        ensures
            r.config is None,
            r.admin is None,
            r.thresholds@ == Map::<u32, u32>::empty(),
            r.boosts@ == Map::<AccountId, Vec<BoostItem>>::empty(),
    {
        GamificationRewardsContract { config: None, admin: None, thresholds: HashMap::new(), boosts: HashMap::new() }
    }

    /// Stores `admin`, unpaused, and the thresholds of milestone levels 1 to
    /// 6: 10, 50, 100, 250, 500 and 1000 actions.
    pub fn initialize(&mut self, admin: AccountId) -> (r: Result<(), GamificationError>)
        ensures
            old(self).config is Some ==> r == Err::<(), GamificationError>(GamificationError::AlreadyInitialized)
                && final(self).config == old(self).config && final(self).admin == old(self).admin
                && final(self).thresholds@ == old(self).thresholds@ && final(self).boosts@ == old(self).boosts@,
            old(self).config is None ==> {
                &&& r is Ok
                &&& final(self).config == Some(Config { admin, paused: false })
                &&& final(self).admin == Some(admin)
                &&& final(self).thresholds@ == default_thresholds(old(self).thresholds@)
                &&& final(self).boosts@ == old(self).boosts@
            },
    {
        if self.config.is_some() {
            return Err(GamificationError::AlreadyInitialized);
        }
        self.config = Some(Config { admin, paused: false });
        self.admin = Some(admin);
        self.set_milestone_threshold(admin, 1, 10);
        self.set_milestone_threshold(admin, 2, 50);
        self.set_milestone_threshold(admin, 3, 100);
        self.set_milestone_threshold(admin, 4, 250);
        self.set_milestone_threshold(admin, 5, 500);
        self.set_milestone_threshold(admin, 6, 1000);
        Ok(())
    }

    /// Sets the number of actions that unlocks milestone `level`; `admin` is
    /// the account that authorised the call.
    pub fn set_milestone_threshold(&mut self, admin: AccountId, level: u32, threshold: u32)
        ensures
            final(self).thresholds@ == old(self).thresholds@.insert(level, threshold),
            final(self).config == old(self).config,
            final(self).admin == old(self).admin,
            final(self).boosts@ == old(self).boosts@,
    {
        self.thresholds.insert(level, threshold);
    }

    /// Marks the boost at `boost_index` of `player` inactive; where the player
    /// has no boost at that index nothing changes.
    pub fn deactivate_boost(&mut self, admin: AccountId, player: AccountId, boost_index: u32)
        ensures
            final(self).config == old(self).config,
            final(self).admin == old(self).admin,
            final(self).thresholds@ == old(self).thresholds@,
            boost_index >= boosts_of(old(self).boosts@, player).len() ==> final(self).boosts@ == old(self).boosts@,
            boost_index < boosts_of(old(self).boosts@, player).len() ==> {
                let bs = boosts_of(old(self).boosts@, player);
                &&& final(self).boosts@.dom() == old(self).boosts@.dom()
                &&& final(self).boosts@[player]@ == bs.update(
                    boost_index as int,
                    BoostItem { is_active: false, ..bs[boost_index as int] },
                )
                &&& forall|p: AccountId| p != player && #[trigger] old(self).boosts@.contains_key(p)
                    ==> final(self).boosts@[p] == old(self).boosts@[p]
            },
    {
        let mut bs: Vec<BoostItem> = match self.boosts.get(&player) {
            Some(v) => v.clone(),
            None => Vec::new(),
        };
        if (boost_index as usize) < bs.len() {
            let i: usize = boost_index as usize;
            let mut b = bs[i];
            b.is_active = false;
            bs[i] = b;
            self.boosts.insert(player, bs);
            proof {
                assert(self.boosts@.dom() =~= old(self).boosts@.dom());
            }
        }
    }
}

} // verus!
