//! Achievement sets: players complete sets of puzzles (proved by the
//! achievement NFTs they hold), claim a one-time bonus per set, may combine
//! sets into synergies, and appear on per-set and global bonus leaderboards.
//! Sets with a limited-edition cap mint numbered edition tokens that can be
//! traded.
use vstd::prelude::*;
use std::collections::HashMap;
use std::collections::HashSet;
use crate::util::{vec_at, value_at, vec_or_empty, value_or, AccountId, contains_u32, copy_vec, pair_key, pair_key_spec, seq_has_str, contains_string, seq_remove_first, remove_first_u32};

verus! {

broadcast use vstd::std_specs::hash::group_hash_axioms;

#[derive(Clone, Copy, Debug, PartialEq, Eq, Structural)]
pub enum SetTier {
    Common,
    Rare,
    Epic,
    Legendary,
    Mythic,
}

/// Why a call is rejected; the storage is then left as it was.
#[derive(Clone, Copy, Debug, PartialEq, Eq, Structural)]
pub enum SetsError {
    AlreadyInitialized,
    NotInitialized,
    MaxTopEntriesNotPositive,
    AdminOnly,
    EmptySet,
    BaseBonusNotPositive,
    CapNotPositive,
    SynergyNeedsTwoSets,
    BonusNotPositive,
    SetNotFound,
    SynergyNotFound,
    AlreadyClaimed,
    LimitedEditionExhausted,
    NotCompleted,
    SynergyNotCompleted,
    TransferToSelf,
    TokenNotFound,
    NotOwner,
    Overflow,
}

#[derive(Clone, Copy, Debug, PartialEq, Eq, Structural)]
pub struct Config {
    pub admin: AccountId,
    pub achievement_nft: AccountId,
    pub reward_token: AccountId,
    pub max_top_entries: u32,
}

pub struct AchievementSet {
    pub id: u32,
    pub name: String,
    pub required_puzzle_ids: Vec<u32>,
    pub tier: SetTier,
    pub base_bonus: i128,
    pub limited_edition_cap: Option<u32>,
    pub unlock_key: String,
}

pub struct Synergy {
    pub id: u32,
    pub name: String,
    pub required_set_ids: Vec<u32>,
    pub bonus: i128,
    pub unlock_key: String,
}

pub struct SetProgressView {
    pub completed_puzzle_ids: Vec<u32>,
    pub required_count: u32,
    pub completed_count: u32,
    pub is_completed: bool,
    pub is_claimed: bool,
}

#[derive(Clone, Copy, Debug, PartialEq, Eq, Structural)]
pub struct SetLeaderboardEntry {
    pub player: AccountId,
    pub score: i128,
    pub timestamp: u64,
}

#[derive(Clone, Copy, Debug, PartialEq, Eq, Structural)]
pub struct EditionToken {
    pub token_id: u32,
    pub set_id: u32,
    pub serial: u32,
    pub owner: AccountId,
}

/// The storage of the contract.
pub struct AchievementSets {
    pub config: Option<Config>,
    pub next_set_id: u32,
    pub next_synergy_id: u32,
    pub next_edition_token_id: u32,
    pub sets: HashMap<u32, AchievementSet>,
    pub synergies: HashMap<u32, Synergy>,
    /// Completed puzzles of a player for a set, under `pair_key(player, set_id)`.
    pub progress: HashMap<u128, Vec<u32>>,
    /// Keys `pair_key(player, set_id)` of claimed set bonuses.
    pub set_claimed: HashSet<u128>,
    /// Keys `pair_key(player, synergy_id)` of claimed synergy bonuses.
    pub synergy_claimed: HashSet<u128>,
    pub set_claims: HashMap<u32, u32>,
    pub unlocks: HashMap<u64, Vec<String>>,
    pub set_leaderboards: HashMap<u32, Vec<SetLeaderboardEntry>>,
    pub global_leaderboard: Vec<SetLeaderboardEntry>,
    pub total_bonus: HashMap<u64, i128>,
    pub edition_tokens: HashMap<u32, EditionToken>,
    pub editions_by_owner: HashMap<u64, Vec<u32>>,
}

// ───────────── mathematical model ─────────────

pub open spec fn tier_bonus_spec(tier: SetTier) -> i128 {
    match tier {
        SetTier::Common => 0,
        SetTier::Rare => 50,
        SetTier::Epic => 125,
        SetTier::Legendary => 300,
        SetTier::Mythic => 750,
    }
}

/// The puzzles of `required` that `owned` holds, each once, in the order of
/// `required`.
pub open spec fn synced(required: Seq<u32>, owned: Seq<u32>) -> Seq<u32>
    decreases required.len(),
{
    if required.len() == 0 {
        Seq::empty()
    } else {
        let prev = synced(required.drop_last(), owned);
        let p = required.last();
        if owned.contains(p) && !prev.contains(p) {
            prev.push(p)
        } else {
            prev
        }
    }
}

/// A set is completed when at least as many puzzles are done as required
/// and every required puzzle is among them.
pub open spec fn completes(required: Seq<u32>, done: Seq<u32>) -> bool {
    &&& done.len() >= required.len()
    &&& forall|i: int| 0 <= i < required.len() ==> done.contains(#[trigger] required[i])
}

/// `list` with `key` appended unless a string with the same characters is
/// already there.
pub open spec fn with_unlock(list: Seq<String>, key: String) -> Seq<String> {
    if seq_has_str(list, key@) {
        list
    } else {
        list.push(key)
    }
}

/// `lb` without the entries of `player`.
pub open spec fn entries_without(lb: Seq<SetLeaderboardEntry>, player: AccountId) -> Seq<
    SetLeaderboardEntry,
>
    decreases lb.len(),
{
    if lb.len() == 0 {
        Seq::empty()
    } else {
        let rest = entries_without(lb.drop_last(), player);
        if lb.last().player == player {
            rest
        } else {
            rest.push(lb.last())
        }
    }
}

/// The ranked merge of `entry` into `filtered`: the list built so far and
/// whether `entry` is in it.
pub open spec fn lb_scan(filtered: Seq<SetLeaderboardEntry>, entry: SetLeaderboardEntry, max: u32) -> (
    Seq<SetLeaderboardEntry>,
    bool,
)
    decreases filtered.len(),
{
    if filtered.len() == 0 {
        (Seq::empty(), false)
    } else {
        let (out, ins) = lb_scan(filtered.drop_last(), entry, max);
        let e = filtered.last();
        let (out1, ins1) = if !ins && entry.score > e.score {
            (out.push(entry), true)
        } else {
            (out, ins)
        };
        if out1.len() < max {
            (out1.push(e), ins1)
        } else {
            (out1, ins1)
        }
    }
}

/// The leaderboard after `entry` replaces the entries of its player: entries
/// stay ordered by score, `entry` goes before the first entry with a lower
/// score, and entries that follow are kept while fewer than `max` stand.
pub open spec fn lb_update(lb: Seq<SetLeaderboardEntry>, entry: SetLeaderboardEntry, max: u32) -> Seq<
    SetLeaderboardEntry,
> {
    let (out, ins) = lb_scan(entries_without(lb, entry.player), entry, max);
    if !ins && out.len() < max {
        out.push(entry)
    } else {
        out
    }
}

/// The first `n` entries of `lb` where `n` is `limit` capped at `max`.
pub open spec fn lb_top(lb: Seq<SetLeaderboardEntry>, limit: u32, max: u32) -> Seq<SetLeaderboardEntry> {
    let actual = if limit > max { max } else { limit };
    if lb.len() < actual {
        lb
    } else {
        lb.take(actual as int)
    }
}

impl AchievementSets {
    pub open spec fn progress_of(&self, key: u128) -> Seq<u32> {
        vec_at(self.progress@, key)
    }

    pub open spec fn unlocks_of(&self, player: AccountId) -> Seq<String> {
        vec_at(self.unlocks@, player)
    }

    pub open spec fn set_lb_of(&self, set_id: u32) -> Seq<SetLeaderboardEntry> {
        vec_at(self.set_leaderboards@, set_id)
    }

    pub open spec fn total_bonus_of(&self, player: AccountId) -> int {
        value_at(self.total_bonus@, player, 0i128) as int
    }

    pub open spec fn claims_of(&self, set_id: u32) -> u32 {
        value_at(self.set_claims@, set_id, 0u32)
    }

    pub open spec fn editions_of(&self, owner: AccountId) -> Seq<u32> {
        vec_at(self.editions_by_owner@, owner)
    }

    /// The fields that only claims and transfers change are the same in
    /// `self` and `other`.
    pub open spec fn players_same(&self, other: &AchievementSets) -> bool {
        &&& self.progress@ == other.progress@
        &&& self.set_claimed@ == other.set_claimed@
        &&& self.synergy_claimed@ == other.synergy_claimed@
        &&& self.set_claims@ == other.set_claims@
        &&& self.unlocks@ == other.unlocks@
        &&& self.set_leaderboards@ == other.set_leaderboards@
        &&& self.global_leaderboard@ == other.global_leaderboard@
        &&& self.total_bonus@ == other.total_bonus@
        &&& self.next_edition_token_id == other.next_edition_token_id
        &&& self.edition_tokens@ == other.edition_tokens@
        &&& self.editions_by_owner@ == other.editions_by_owner@
    }

    /// The fields that the admin sets up are the same in `self` and `other`.
    pub open spec fn catalog_same(&self, other: &AchievementSets) -> bool {
        &&& self.config == other.config
        &&& self.next_set_id == other.next_set_id
        &&& self.next_synergy_id == other.next_synergy_id
        &&& self.sets@ == other.sets@
        &&& self.synergies@ == other.synergies@
    }

    /// The error of `create_set`, checked in the order of the contract.
    pub open spec fn create_set_error(
        &self,
        admin: AccountId,
        required: Seq<u32>,
        base_bonus: i128,
        cap: Option<u32>,
    ) -> Option<SetsError> {
        if self.config is None {
            Some(SetsError::NotInitialized)
        } else if self.config.unwrap().admin != admin {
            Some(SetsError::AdminOnly)
        } else if required.len() == 0 {
            Some(SetsError::EmptySet)
        } else if base_bonus <= 0 {
            Some(SetsError::BaseBonusNotPositive)
        } else if cap == Some(0u32) {
            Some(SetsError::CapNotPositive)
        } else if self.next_set_id == u32::MAX {
            Some(SetsError::Overflow)
        } else {
            None
        }
    }

    /// The first set of `ids` that is missing.
    pub open spec fn missing_set(&self, ids: Seq<u32>) -> bool {
        exists|i: int| 0 <= i < ids.len() && !self.sets@.contains_key(#[trigger] ids[i])
    }

    pub open spec fn create_synergy_error(
        &self,
        admin: AccountId,
        required: Seq<u32>,
        bonus: i128,
    ) -> Option<SetsError> {
        if self.config is None {
            Some(SetsError::NotInitialized)
        } else if self.config.unwrap().admin != admin {
            Some(SetsError::AdminOnly)
        } else if required.len() < 2 {
            Some(SetsError::SynergyNeedsTwoSets)
        } else if bonus <= 0 {
            Some(SetsError::BonusNotPositive)
        } else if self.missing_set(required) {
            Some(SetsError::SetNotFound)
        } else if self.next_synergy_id == u32::MAX {
            Some(SetsError::Overflow)
        } else {
            None
        }
    }

    /// The bonus of a set: its base bonus plus that of its tier.
    pub open spec fn set_bonus(&self, set_id: u32) -> int {
        self.sets@[set_id].base_bonus + tier_bonus_spec(self.sets@[set_id].tier)
    }

    /// The error of `claim_set_bonus`, in the order of the contract.
    pub open spec fn claim_set_error(&self, player: AccountId, set_id: u32, owned: Seq<u32>) -> Option<
        SetsError,
    > {
        let set = self.sets@[set_id];
        let key = pair_key_spec(player, set_id as u64);
        if !self.sets@.contains_key(set_id) {
            Some(SetsError::SetNotFound)
        } else if self.config is None {
            Some(SetsError::NotInitialized)
        } else if self.set_claimed@.contains(key) {
            Some(SetsError::AlreadyClaimed)
        } else if set.limited_edition_cap is Some && self.claims_of(set_id)
            >= set.limited_edition_cap.unwrap() {
            Some(SetsError::LimitedEditionExhausted)
        } else if !completes(set.required_puzzle_ids@, synced(set.required_puzzle_ids@, owned)) {
            Some(SetsError::NotCompleted)
        } else if self.set_bonus(set_id) > i128::MAX || self.total_bonus_of(player)
            + self.set_bonus(set_id) > i128::MAX || self.total_bonus_of(player) + self.set_bonus(
            set_id,
        ) < i128::MIN || (set.limited_edition_cap is Some && self.next_edition_token_id
            == u32::MAX) {
            Some(SetsError::Overflow)
        } else {
            None
        }
    }

    /// The progress after syncing the sets `ids` in turn.
    pub open spec fn progress_after_syncs(&self, player: AccountId, ids: Seq<u32>, owned: Seq<u32>, key: u128) -> Seq<u32>
        decreases ids.len(),
    {
        if ids.len() == 0 {
            self.progress_of(key)
        } else if key == pair_key_spec(player, ids.last() as u64) {
            synced(self.sets@[ids.last()].required_puzzle_ids@, owned)
        } else {
            self.progress_after_syncs(player, ids.drop_last(), owned, key)
        }
    }

    /// The first reason, in the order of `ids`, why syncing the sets `ids`
    /// does not complete them all.
    pub open spec fn sync_failure(&self, ids: Seq<u32>, owned: Seq<u32>) -> Option<SetsError>
        decreases ids.len(),
    {
        if ids.len() == 0 {
            None
        } else {
            match self.sync_failure(ids.drop_last(), owned) {
                Some(e) => Some(e),
                None => {
                    let sid = ids.last();
                    if !self.sets@.contains_key(sid) {
                        Some(SetsError::SetNotFound)
                    } else if !completes(
                        self.sets@[sid].required_puzzle_ids@,
                        synced(self.sets@[sid].required_puzzle_ids@, owned),
                    ) {
                        Some(SetsError::SynergyNotCompleted)
                    } else {
                        None
                    }
                },
            }
        }
    }

    pub open spec fn claim_synergy_error(
        &self,
        player: AccountId,
        synergy_id: u32,
        owned: Seq<u32>,
    ) -> Option<SetsError> {
        let syn = self.synergies@[synergy_id];
        if self.config is None {
            Some(SetsError::NotInitialized)
        } else if !self.synergies@.contains_key(synergy_id) {
            Some(SetsError::SynergyNotFound)
        } else if self.synergy_claimed@.contains(pair_key_spec(player, synergy_id as u64)) {
            Some(SetsError::AlreadyClaimed)
        } else if self.sync_failure(syn.required_set_ids@, owned) is Some {
            self.sync_failure(syn.required_set_ids@, owned)
        } else if self.total_bonus_of(player) + syn.bonus > i128::MAX || self.total_bonus_of(player)
            + syn.bonus < i128::MIN {
            Some(SetsError::Overflow)
        } else {
            None
        }
    }

    pub open spec fn transfer_error(&self, from: AccountId, to: AccountId, token_id: u32) -> Option<
        SetsError,
    > {
        if from == to {
            Some(SetsError::TransferToSelf)
        } else if !self.edition_tokens@.contains_key(token_id) {
            Some(SetsError::TokenNotFound)
        } else if self.edition_tokens@[token_id].owner != from {
            Some(SetsError::NotOwner)
        } else {
            None
        }
    }
}

// ───────────── pure helpers ─────────────

/// Whether every puzzle of `required` is among `completed` (and at least as
/// many are completed).
pub fn is_completed(required: &Vec<u32>, completed: &Vec<u32>) -> (r: bool)
    ensures
        r == completes(required@, completed@),
{
    if completed.len() < required.len() {
        return false;
    }
    let mut i: usize = 0;
    while i < required.len()
        invariant
            i <= required.len(),
            forall|j: int| 0 <= j < i ==> completed@.contains(#[trigger] required@[j]),
        decreases required.len() - i,
    {
        if !contains_u32(completed, required[i]) {
            assert(!completed@.contains(required@[i as int]));
            return false;
        }
        i = i + 1;
    }
    true
}

/// The puzzles of `required` held in `owned`, each once.
pub fn sync_completed(required: &Vec<u32>, owned: &Vec<u32>) -> (r: Vec<u32>)
    ensures
        r@ == synced(required@, owned@),
{
    let mut out: Vec<u32> = Vec::new();
    let mut i: usize = 0;
    while i < required.len()
        invariant
            i <= required.len(),
            out@ == synced(required@.take(i as int), owned@),
        decreases required.len() - i,
    {
        assert(required@.take(i as int + 1).drop_last() =~= required@.take(i as int));
        let p = required[i];
        if contains_u32(owned, p) && !contains_u32(&out, p) {
            out.push(p);
        }
        i = i + 1;
    }
    assert(required@.take(required.len() as int) =~= required@);
    out
}

/// The entries of `lb` whose player is not `player`.
fn without_player(lb: &Vec<SetLeaderboardEntry>, player: AccountId) -> (r: Vec<SetLeaderboardEntry>)
    ensures
        r@ == entries_without(lb@, player),
{
    let mut r: Vec<SetLeaderboardEntry> = Vec::new();
    let mut i: usize = 0;
    while i < lb.len()
        invariant
            i <= lb.len(),
            r@ == entries_without(lb@.take(i as int), player),
        decreases lb.len() - i,
    {
        assert(lb@.take(i as int + 1).drop_last() =~= lb@.take(i as int));
        if lb[i].player != player {
            r.push(lb[i]);
        }
        i = i + 1;
    }
    assert(lb@.take(lb.len() as int) =~= lb@);
    r
}

/// The leaderboard `lb` after `entry` is ranked into it.
pub fn update_leaderboard(lb: &Vec<SetLeaderboardEntry>, entry: SetLeaderboardEntry, max: u32) -> (r:
    Vec<SetLeaderboardEntry>)
    ensures
        r@ == lb_update(lb@, entry, max),
{
    let filtered = without_player(lb, entry.player);
    let mut out: Vec<SetLeaderboardEntry> = Vec::new();
    let mut inserted = false;
    let mut i: usize = 0;
    while i < filtered.len()
        invariant
            i <= filtered.len(),
            (out@, inserted) == lb_scan(filtered@.take(i as int), entry, max),
        decreases filtered.len() - i,
    {
        assert(filtered@.take(i as int + 1).drop_last() =~= filtered@.take(i as int));
        let e = filtered[i];
        if !inserted && entry.score > e.score {
            out.push(entry);
            inserted = true;
        }
        if out.len() < max as usize {
            out.push(e);
        }
        i = i + 1;
    }
    assert(filtered@.take(filtered.len() as int) =~= filtered@);
    if !inserted && out.len() < max as usize {
        out.push(entry);
    }
    out
}

/// The top of a leaderboard: at most `limit` entries, and never more than `max`.
fn top_entries(lb: &Vec<SetLeaderboardEntry>, limit: u32, max: u32) -> (r: Vec<SetLeaderboardEntry>)
    ensures
        r@ == lb_top(lb@, limit, max),
{
    let actual: u32 = if limit == 0 {
        0
    } else if limit > max {
        max
    } else {
        limit
    };
    let n: usize = if lb.len() < actual as usize {
        lb.len()
    } else {
        actual as usize
    };
    let mut out: Vec<SetLeaderboardEntry> = Vec::new();
    let mut i: usize = 0;
    while i < n
        invariant
            i <= n,
            n <= lb.len(),
            out@ == lb@.take(i as int),
        decreases n - i,
    {
        out.push(lb[i]);
        i = i + 1;
        assert(out@ =~= lb@.take(i as int));
    }
    assert(lb@.len() < actual ==> lb@.take(n as int) =~= lb@);
    out
}

fn copy_strings(v: &Vec<String>) -> (r: Vec<String>)
    ensures
        r@ == v@,
{
    let mut r: Vec<String> = Vec::new();
    let mut i: usize = 0;
    while i < v.len()
        invariant
            i <= v.len(),
            r@ == v@.take(i as int),
        decreases v.len() - i,
    {
        r.push(v[i].clone());
        i = i + 1;
        assert(r@ =~= v@.take(i as int));
    }
    assert(v@.take(v.len() as int) =~= v@);
    r
}

impl AchievementSet {
    /// Whether `other` holds the same values.
    pub open spec fn same(&self, other: &AchievementSet) -> bool {
        &&& self.id == other.id
        &&& self.name@ == other.name@
        &&& self.required_puzzle_ids@ == other.required_puzzle_ids@
        &&& self.tier == other.tier
        &&& self.base_bonus == other.base_bonus
        &&& self.limited_edition_cap == other.limited_edition_cap
        &&& self.unlock_key@ == other.unlock_key@
    }

    pub fn copy(&self) -> (r: AchievementSet)
        ensures
            r.same(self),
    {
        AchievementSet {
            id: self.id,
            name: self.name.clone(),
            required_puzzle_ids: copy_vec(&self.required_puzzle_ids),
            tier: self.tier,
            base_bonus: self.base_bonus,
            limited_edition_cap: self.limited_edition_cap,
            unlock_key: self.unlock_key.clone(),
        }
    }
}

impl Synergy {
    pub open spec fn same(&self, other: &Synergy) -> bool {
        &&& self.id == other.id
        &&& self.name@ == other.name@
        &&& self.required_set_ids@ == other.required_set_ids@
        &&& self.bonus == other.bonus
        &&& self.unlock_key@ == other.unlock_key@
    }

    pub fn copy(&self) -> (r: Synergy)
        ensures
            r.same(self),
    {
        Synergy {
            id: self.id,
            name: self.name.clone(),
            required_set_ids: copy_vec(&self.required_set_ids),
            bonus: self.bonus,
            unlock_key: self.unlock_key.clone(),
        }
    }
}


// ───────────── storage updates ─────────────

/// Adds `key` to the unlocks of `player` unless it is there.
fn grant_unlock(unlocks: &mut HashMap<u64, Vec<String>>, player: AccountId, key: String)
    ensures
        forall|p: AccountId|
            #[trigger] vec_at(final(unlocks)@, p) == if p == player {
                with_unlock(vec_at(old(unlocks)@, p), key)
            } else {
                vec_at(old(unlocks)@, p)
            },
{
    let mut list: Vec<String> = match unlocks.get(&player) {
        Some(v) => copy_strings(v),
        None => Vec::new(),
    };
    if !contains_string(&list, &key) {
        list.push(key);
        unlocks.insert(player, list);
    }
}

/// Appends `id` to the list stored under `k`.
fn push_id<K: std::hash::Hash + Eq>(m: &mut HashMap<K, Vec<u32>>, k: K, id: u32)
    requires
        vstd::std_specs::hash::obeys_key_model::<K>(),
    ensures
        forall|q: K| #[trigger] vec_at(final(m)@, q) == if q == k {
            vec_at(old(m)@, q).push(id)
        } else {
            vec_at(old(m)@, q)
        },
{
    let mut list = vec_or_empty(m, &k);
    list.push(id);
    m.insert(k, list);
}

impl AchievementSets {
    /// The storage of a contract that has not been initialized.
    pub fn new() -> (r: Self)
        ensures
            r.config is None,
            r.next_set_id == 1,
            r.next_synergy_id == 1,
            r.next_edition_token_id == 1,
            r.sets@.is_empty(),
            r.synergies@.is_empty(),
            r.progress@.is_empty(),
            r.set_claimed@.is_empty(),
            r.synergy_claimed@.is_empty(),
            r.set_claims@.is_empty(),
            r.unlocks@.is_empty(),
            r.set_leaderboards@.is_empty(),
            r.global_leaderboard@.len() == 0,
            r.total_bonus@.is_empty(),
            r.edition_tokens@.is_empty(),
            r.editions_by_owner@.is_empty(),
    {
        AchievementSets {
            config: None,
            next_set_id: 1,
            next_synergy_id: 1,
            next_edition_token_id: 1,
            sets: HashMap::new(),
            synergies: HashMap::new(),
            progress: HashMap::new(),
            set_claimed: HashSet::new(),
            synergy_claimed: HashSet::new(),
            set_claims: HashMap::new(),
            unlocks: HashMap::new(),
            set_leaderboards: HashMap::new(),
            global_leaderboard: Vec::new(),
            total_bonus: HashMap::new(),
            edition_tokens: HashMap::new(),
            editions_by_owner: HashMap::new(),
        }
    }

    /// Stores the configuration; set, synergy and edition ids start at 1.
    pub fn initialize(
        &mut self,
        admin: AccountId,
        achievement_nft: AccountId,
        reward_token: AccountId,
        max_top_entries: u32,
    ) -> (r: Result<(), SetsError>)
        ensures
            old(self).config is Some ==> r == Err::<(), SetsError>(SetsError::AlreadyInitialized),
            old(self).config is None && max_top_entries == 0 ==> r == Err::<(), SetsError>(
                SetsError::MaxTopEntriesNotPositive,
            ),
            r is Err ==> *final(self) == *old(self),
            old(self).config is None && max_top_entries > 0 ==> r is Ok,
            r is Ok ==> {
                &&& old(self).config is None && max_top_entries > 0
                &&& final(self).config == Some(
                    Config { admin, achievement_nft, reward_token, max_top_entries },
                )
                &&& final(self).next_set_id == 1
                &&& final(self).next_synergy_id == 1
                &&& final(self).next_edition_token_id == 1
                &&& final(self).sets@ == old(self).sets@
                &&& final(self).synergies@ == old(self).synergies@
                &&& final(self).progress@ == old(self).progress@
                &&& final(self).set_claimed@ == old(self).set_claimed@
                &&& final(self).synergy_claimed@ == old(self).synergy_claimed@
                &&& final(self).set_claims@ == old(self).set_claims@
                &&& final(self).unlocks@ == old(self).unlocks@
                &&& final(self).set_leaderboards@ == old(self).set_leaderboards@
                &&& final(self).global_leaderboard@ == old(self).global_leaderboard@
                &&& final(self).total_bonus@ == old(self).total_bonus@
                &&& final(self).edition_tokens@ == old(self).edition_tokens@
                &&& final(self).editions_by_owner@ == old(self).editions_by_owner@
            },
    {
        if self.config.is_some() {
            return Err(SetsError::AlreadyInitialized);
        }
        if max_top_entries == 0 {
            return Err(SetsError::MaxTopEntriesNotPositive);
        }
        self.config = Some(Config { admin, achievement_nft, reward_token, max_top_entries });
        self.next_set_id = 1;
        self.next_synergy_id = 1;
        self.next_edition_token_id = 1;
        Ok(())
    }

    /// Defines a set under the next set id and returns that id.
    pub fn create_set(
        &mut self,
        admin: AccountId,
        name: String,
        required_puzzle_ids: Vec<u32>,
        tier: SetTier,
        base_bonus: i128,
        limited_edition_cap: Option<u32>,
        unlock_key: String,
    ) -> (r: Result<u32, SetsError>)
        ensures
            match old(self).create_set_error(
                admin,
                required_puzzle_ids@,
                base_bonus,
                limited_edition_cap,
            ) {
                Some(e) => r == Err::<u32, SetsError>(e) && *final(self) == *old(self),
                None => {
                    let id = old(self).next_set_id;
                    &&& r == Ok::<u32, SetsError>(id)
                    &&& final(self).sets@ == old(self).sets@.insert(
                        id,
                        AchievementSet {
                            id,
                            name,
                            required_puzzle_ids,
                            tier,
                            base_bonus,
                            limited_edition_cap,
                            unlock_key,
                        },
                    )
                    &&& final(self).next_set_id == id + 1
                    &&& final(self).config == old(self).config
                    &&& final(self).next_synergy_id == old(self).next_synergy_id
                    &&& final(self).synergies@ == old(self).synergies@
                    &&& final(self).players_same(old(self))
                },
            },
    {
        let cfg = match self.config {
            Some(c) => c,
            None => return Err(SetsError::NotInitialized),
        };
        if cfg.admin != admin {
            return Err(SetsError::AdminOnly);
        }
        if required_puzzle_ids.len() == 0 {
            return Err(SetsError::EmptySet);
        }
        if base_bonus <= 0 {
            return Err(SetsError::BaseBonusNotPositive);
        }
        if let Some(cap) = limited_edition_cap {
            if cap == 0 {
                return Err(SetsError::CapNotPositive);
            }
        }
        if self.next_set_id == u32::MAX {
            return Err(SetsError::Overflow);
        }
        let id = self.next_set_id;
        let set = AchievementSet {
            id,
            name,
            required_puzzle_ids,
            tier,
            base_bonus,
            limited_edition_cap,
            unlock_key,
        };
        self.sets.insert(id, set);
        self.next_set_id = id + 1;
        Ok(id)
    }

    /// Defines a synergy of at least two existing sets and returns its id.
    pub fn create_synergy(
        &mut self,
        admin: AccountId,
        name: String,
        required_set_ids: Vec<u32>,
        bonus: i128,
        unlock_key: String,
    ) -> (r: Result<u32, SetsError>)
        ensures
            match old(self).create_synergy_error(admin, required_set_ids@, bonus) {
                Some(e) => r == Err::<u32, SetsError>(e) && *final(self) == *old(self),
                None => {
                    let id = old(self).next_synergy_id;
                    &&& r == Ok::<u32, SetsError>(id)
                    &&& final(self).synergies@ == old(self).synergies@.insert(
                        id,
                        Synergy { id, name, required_set_ids, bonus, unlock_key },
                    )
                    &&& final(self).next_synergy_id == id + 1
                    &&& final(self).config == old(self).config
                    &&& final(self).next_set_id == old(self).next_set_id
                    &&& final(self).sets@ == old(self).sets@
                    &&& final(self).players_same(old(self))
                },
            },
    {
        let cfg = match self.config {
            Some(c) => c,
            None => return Err(SetsError::NotInitialized),
        };
        if cfg.admin != admin {
            return Err(SetsError::AdminOnly);
        }
        if required_set_ids.len() < 2 {
            return Err(SetsError::SynergyNeedsTwoSets);
        }
        if bonus <= 0 {
            return Err(SetsError::BonusNotPositive);
        }
        let mut i: usize = 0;
        while i < required_set_ids.len()
            invariant
                i <= required_set_ids.len(),
                *self == *old(self),
                self.config == Some(cfg),
                cfg.admin == admin,
                required_set_ids.len() >= 2,
                bonus > 0,
                forall|j: int| 0 <= j < i ==> self.sets@.contains_key(#[trigger] required_set_ids@[j]),
            decreases required_set_ids.len() - i,
        {
            if !self.sets.contains_key(&required_set_ids[i]) {
                assert(!self.sets@.contains_key(required_set_ids@[i as int]));
                assert(self.missing_set(required_set_ids@));
                return Err(SetsError::SetNotFound);
            }
            i = i + 1;
        }
        if self.next_synergy_id == u32::MAX {
            return Err(SetsError::Overflow);
        }
        let id = self.next_synergy_id;
        self.synergies.insert(id, Synergy { id, name, required_set_ids, bonus, unlock_key });
        self.next_synergy_id = id + 1;
        Ok(id)
    }

    /// The configuration.
    pub fn get_config(&self) -> (r: Result<Config, SetsError>)
        ensures
            match self.config {
                Some(c) => r == Ok::<Config, SetsError>(c),
                None => r == Err::<Config, SetsError>(SetsError::NotInitialized),
            },
    {
        match self.config {
            Some(c) => Ok(c),
            None => Err(SetsError::NotInitialized),
        }
    }

    /// A copy of the set `set_id`, if defined.
    pub fn get_set(&self, set_id: u32) -> (r: Option<AchievementSet>)
        ensures
            r is Some <==> self.sets@.contains_key(set_id),
            r matches Some(s) ==> s.same(&self.sets@[set_id]),
    {
        match self.sets.get(&set_id) {
            Some(s) => Some(s.copy()),
            None => None,
        }
    }

    /// A copy of the synergy `synergy_id`, if defined.
    pub fn get_synergy(&self, synergy_id: u32) -> (r: Option<Synergy>)
        ensures
            r is Some <==> self.synergies@.contains_key(synergy_id),
            r matches Some(s) ==> s.same(&self.synergies@[synergy_id]),
    {
        match self.synergies.get(&synergy_id) {
            Some(s) => Some(s.copy()),
            None => None,
        }
    }

    /// The unlock keys granted to `player`.
    pub fn get_unlocks(&self, player: AccountId) -> (r: Vec<String>)
        ensures
            r@ == self.unlocks_of(player),
    {
        match self.unlocks.get(&player) {
            Some(v) => copy_strings(v),
            None => Vec::new(),
        }
    }

    /// The recorded progress of `player` on the set `set_id`.
    pub fn progress(&self, player: AccountId, set_id: u32) -> (r: Result<SetProgressView, SetsError>)
        ensures
            !self.sets@.contains_key(set_id) ==> r == Err::<SetProgressView, SetsError>(
                SetsError::SetNotFound,
            ),
            self.sets@.contains_key(set_id) ==> (r matches Ok(v) && {
                let req = self.sets@[set_id].required_puzzle_ids@;
                let done = self.progress_of(pair_key_spec(player, set_id as u64));
                &&& v.completed_puzzle_ids@ == done
                &&& v.required_count == req.len() as u32
                &&& v.completed_count == done.len() as u32
                &&& v.is_completed == completes(req, done)
                &&& v.is_claimed == self.set_claimed@.contains(pair_key_spec(player, set_id as u64))
            }),
    {
        let set = match self.sets.get(&set_id) {
            Some(s) => s,
            None => return Err(SetsError::SetNotFound),
        };
        let key = pair_key(player, set_id as u64);
        let completed = vec_or_empty(&self.progress, &key);
        let is_claimed = self.set_claimed.contains(&key);
        let required_count = set.required_puzzle_ids.len();
        let completed_count = completed.len();
        let is_completed = completed_count >= required_count && is_completed(
            &set.required_puzzle_ids,
            &completed,
        );
        Ok(
            SetProgressView {
                completed_puzzle_ids: completed,
                required_count: required_count as u32,
                completed_count: completed_count as u32,
                is_completed,
                is_claimed,
            },
        )
    }

    /// The top of the leaderboard of the set `set_id`.
    pub fn get_set_leaderboard(&self, set_id: u32, limit: u32) -> (r: Result<
        Vec<SetLeaderboardEntry>,
        SetsError,
    >)
        ensures
            match self.config {
                None => r == Err::<Vec<SetLeaderboardEntry>, SetsError>(SetsError::NotInitialized),
                Some(c) => r matches Ok(v) && v@ == lb_top(
                    self.set_lb_of(set_id),
                    limit,
                    c.max_top_entries,
                ),
            },
    {
        let cfg = match self.config {
            Some(c) => c,
            None => return Err(SetsError::NotInitialized),
        };
        let lb = vec_or_empty(&self.set_leaderboards, &set_id);
        Ok(top_entries(&lb, limit, cfg.max_top_entries))
    }

    /// The top of the global leaderboard of total bonuses.
    pub fn get_global_leaderboard(&self, limit: u32) -> (r: Result<
        Vec<SetLeaderboardEntry>,
        SetsError,
    >)
        ensures
            match self.config {
                None => r == Err::<Vec<SetLeaderboardEntry>, SetsError>(SetsError::NotInitialized),
                Some(c) => r matches Ok(v) && v@ == lb_top(
                    self.global_leaderboard@,
                    limit,
                    c.max_top_entries,
                ),
            },
    {
        let cfg = match self.config {
            Some(c) => c,
            None => return Err(SetsError::NotInitialized),
        };
        Ok(top_entries(&self.global_leaderboard, limit, cfg.max_top_entries))
    }

    /// The edition tokens that `owner` holds.
    pub fn edition_tokens_of(&self, owner: AccountId) -> (r: Vec<u32>)
        ensures
            r@ == self.editions_of(owner),
    {
        vec_or_empty(&self.editions_by_owner, &owner)
    }

    /// The edition token `token_id`, if minted.
    pub fn get_edition_token(&self, token_id: u32) -> (r: Option<EditionToken>)
        ensures
            r == if self.edition_tokens@.contains_key(token_id) {
                Some(self.edition_tokens@[token_id])
            } else {
                None::<EditionToken>
            },
    {
        match self.edition_tokens.get(&token_id) {
            Some(t) => Some(*t),
            None => None,
        }
    }

    /// Records which puzzles of the set `player` holds, given the puzzle ids
    /// of the achievement NFTs the player owns, and returns the progress.
    pub fn sync_player_set(&mut self, player: AccountId, set_id: u32, owned_puzzles: &Vec<u32>) -> (r:
        Result<SetProgressView, SetsError>)
        ensures
            !old(self).sets@.contains_key(set_id) ==> r == Err::<SetProgressView, SetsError>(
                SetsError::SetNotFound,
            ) && *final(self) == *old(self),
            old(self).sets@.contains_key(set_id) ==> {
                let key = pair_key_spec(player, set_id as u64);
                let req = old(self).sets@[set_id].required_puzzle_ids@;
                let done = synced(req, owned_puzzles@);
                &&& final(self).catalog_same(old(self))
                &&& forall|k: u128| #[trigger] final(self).progress_of(k) == if k == key {
                    done
                } else {
                    old(self).progress_of(k)
                }
                &&& final(self).set_claimed@ == old(self).set_claimed@
                &&& final(self).synergy_claimed@ == old(self).synergy_claimed@
                &&& final(self).set_claims@ == old(self).set_claims@
                &&& final(self).unlocks@ == old(self).unlocks@
                &&& final(self).set_leaderboards@ == old(self).set_leaderboards@
                &&& final(self).global_leaderboard@ == old(self).global_leaderboard@
                &&& final(self).total_bonus@ == old(self).total_bonus@
                &&& final(self).next_edition_token_id == old(self).next_edition_token_id
                &&& final(self).edition_tokens@ == old(self).edition_tokens@
                &&& final(self).editions_by_owner@ == old(self).editions_by_owner@
                &&& r matches Ok(v) && {
                    &&& v.completed_puzzle_ids@ == done
                    &&& v.required_count == req.len() as u32
                    &&& v.completed_count == done.len() as u32
                    &&& v.is_completed == completes(req, done)
                    &&& v.is_claimed == old(self).set_claimed@.contains(key)
                }
            },
    {
        let completed = match self.sets.get(&set_id) {
            Some(set) => sync_completed(&set.required_puzzle_ids, owned_puzzles),
            None => return Err(SetsError::SetNotFound),
        };
        let key = pair_key(player, set_id as u64);
        self.progress.insert(key, completed);
        self.progress(player, set_id)
    }
}


impl AchievementSets {
    /// The bonus of a tier.
    pub fn tier_bonus(tier: SetTier) -> (r: i128)
        ensures
            r == tier_bonus_spec(tier),
    {
        match tier {
            SetTier::Common => 0,
            SetTier::Rare => 50,
            SetTier::Epic => 125,
            SetTier::Legendary => 300,
            SetTier::Mythic => 750,
        }
    }

    /// Pays the bonus of a completed set once per player: records the
    /// claim, mints a numbered edition token for limited sets, grants the
    /// set's unlock and ranks the player on the set and global
    /// leaderboards. `owned_puzzles` are the puzzle ids of the player's
    /// achievement NFTs; the bonus returned is to be minted to the player.
    pub fn claim_set_bonus(
        &mut self,
        player: AccountId,
        set_id: u32,
        owned_puzzles: &Vec<u32>,
        now: u64,
    ) -> (r: Result<i128, SetsError>)
        ensures
            r is Ok ==> forall|o: Seq<u32>| #[trigger] final(self).claim_set_error(player, set_id, o) is Some,
            match old(self).claim_set_error(player, set_id, owned_puzzles@) {
                Some(e) => r == Err::<i128, SetsError>(e) && *final(self) == *old(self),
                None => {
                    let set = old(self).sets@[set_id];
                    let max = old(self).config.unwrap().max_top_entries;
                    let key = pair_key_spec(player, set_id as u64);
                    let bonus = old(self).set_bonus(set_id) as i128;
                    let total = (old(self).total_bonus_of(player) + bonus) as i128;
                    &&& r == Ok::<i128, SetsError>(bonus)
                    &&& final(self).catalog_same(old(self))
                    &&& final(self).set_claimed@ == old(self).set_claimed@.insert(key)
                    &&& final(self).synergy_claimed@ == old(self).synergy_claimed@
                    &&& forall|k: u128| #[trigger] final(self).progress_of(k) == if k == key {
                        synced(set.required_puzzle_ids@, owned_puzzles@)
                    } else {
                        old(self).progress_of(k)
                    }
                    &&& forall|p: AccountId| #[trigger] final(self).unlocks_of(p) == if p == player {
                        with_unlock(old(self).unlocks_of(p), set.unlock_key)
                    } else {
                        old(self).unlocks_of(p)
                    }
                    &&& final(self).total_bonus@ == old(self).total_bonus@.insert(player, total)
                    &&& final(self).global_leaderboard@ == lb_update(
                        old(self).global_leaderboard@,
                        SetLeaderboardEntry { player, score: total, timestamp: now },
                        max,
                    )
                    &&& forall|s: u32| #[trigger] final(self).set_lb_of(s) == if s == set_id {
                        lb_update(
                            old(self).set_lb_of(s),
                            SetLeaderboardEntry { player, score: bonus, timestamp: now },
                            max,
                        )
                    } else {
                        old(self).set_lb_of(s)
                    }
                    &&& match set.limited_edition_cap {
                        None => {
                            &&& final(self).set_claims@ == old(self).set_claims@
                            &&& final(self).next_edition_token_id == old(self).next_edition_token_id
                            &&& final(self).edition_tokens@ == old(self).edition_tokens@
                            &&& final(self).editions_by_owner@ == old(self).editions_by_owner@
                        },
                        Some(_) => {
                            let tid = old(self).next_edition_token_id;
                            let serial = (old(self).claims_of(set_id) + 1) as u32;
                            &&& final(self).set_claims@ == old(self).set_claims@.insert(set_id, serial)
                            &&& final(self).next_edition_token_id == tid + 1
                            &&& final(self).edition_tokens@ == old(self).edition_tokens@.insert(
                                tid,
                                EditionToken { token_id: tid, set_id, serial, owner: player },
                            )
                            &&& forall|o: AccountId| #[trigger] final(self).editions_of(o) == if o
                                == player {
                                old(self).editions_of(o).push(tid)
                            } else {
                                old(self).editions_of(o)
                            }
                        },
                    }
                },
            },
    {
        let (required, tier, base_bonus, cap, unlock_key) = match self.sets.get(&set_id) {
            Some(s) => (
                copy_vec(&s.required_puzzle_ids),
                s.tier,
                s.base_bonus,
                s.limited_edition_cap,
                s.unlock_key.clone(),
            ),
            None => return Err(SetsError::SetNotFound),
        };
        let cfg = match self.config {
            Some(c) => c,
            None => return Err(SetsError::NotInitialized),
        };
        let key = pair_key(player, set_id as u64);
        if self.set_claimed.contains(&key) {
            return Err(SetsError::AlreadyClaimed);
        }
        let claims = value_or(&self.set_claims, &set_id, 0u32);
        if let Some(c) = cap {
            if claims >= c {
                return Err(SetsError::LimitedEditionExhausted);
            }
        }
        let done = sync_completed(&required, owned_puzzles);
        if !(done.len() >= required.len() && is_completed(&required, &done)) {
            return Err(SetsError::NotCompleted);
        }
        let bonus = match base_bonus.checked_add(Self::tier_bonus(tier)) {
            Some(b) => b,
            None => return Err(SetsError::Overflow),
        };
        let total = value_or(&self.total_bonus, &player, 0i128);
        let new_total = match total.checked_add(bonus) {
            Some(t) => t,
            None => return Err(SetsError::Overflow),
        };
        if cap.is_some() && self.next_edition_token_id == u32::MAX {
            return Err(SetsError::Overflow);
        }
        self.progress.insert(key, done);
        self.set_claimed.insert(key);
        if cap.is_some() {
            let new_claimed = claims + 1;
            self.set_claims.insert(set_id, new_claimed);
            let token_id = self.next_edition_token_id;
            self.next_edition_token_id = token_id + 1;
            self.edition_tokens.insert(
                token_id,
                EditionToken { token_id, set_id, serial: new_claimed, owner: player },
            );
            push_id(&mut self.editions_by_owner, player, token_id);
        }
        grant_unlock(&mut self.unlocks, player, unlock_key);
        self.total_bonus.insert(player, new_total);
        self.global_leaderboard = update_leaderboard(
            &self.global_leaderboard,
            SetLeaderboardEntry { player, score: new_total, timestamp: now },
            cfg.max_top_entries,
        );
        let lb = vec_or_empty(&self.set_leaderboards, &set_id);
        self.set_leaderboards.insert(
            set_id,
            update_leaderboard(
                &lb,
                SetLeaderboardEntry { player, score: bonus, timestamp: now },
                cfg.max_top_entries,
            ),
        );
        Ok(bonus)
    }

    /// Pays the bonus of a synergy once per player when every set of it is
    /// completed; each set is synced first. The bonus returned is to be
    /// minted to the player.
    #[verifier::loop_isolation(false)]
    pub fn claim_synergy_bonus(
        &mut self,
        player: AccountId,
        synergy_id: u32,
        owned_puzzles: &Vec<u32>,
        now: u64,
    ) -> (r: Result<i128, SetsError>)
        ensures
            match old(self).claim_synergy_error(player, synergy_id, owned_puzzles@) {
                Some(e) => r == Err::<i128, SetsError>(e) && *final(self) == *old(self),
                None => {
                    let syn = old(self).synergies@[synergy_id];
                    let max = old(self).config.unwrap().max_top_entries;
                    let total = (old(self).total_bonus_of(player) + syn.bonus) as i128;
                    let entry = SetLeaderboardEntry { player, score: total, timestamp: now };
                    &&& r == Ok::<i128, SetsError>(syn.bonus)
                    &&& final(self).catalog_same(old(self))
                    &&& final(self).synergy_claimed@ == old(self).synergy_claimed@.insert(
                        pair_key_spec(player, synergy_id as u64),
                    )
                    &&& final(self).set_claimed@ == old(self).set_claimed@
                    &&& forall|k: u128| #[trigger] final(self).progress_of(k) == old(self).progress_after_syncs(player, syn.required_set_ids@, owned_puzzles@, k)
                    &&& forall|p: AccountId| #[trigger] final(self).unlocks_of(p) == if p == player {
                        with_unlock(old(self).unlocks_of(p), syn.unlock_key)
                    } else {
                        old(self).unlocks_of(p)
                    }
                    &&& final(self).total_bonus@ == old(self).total_bonus@.insert(player, total)
                    &&& final(self).global_leaderboard@ == lb_update(
                        lb_update(old(self).global_leaderboard@, entry, max),
                        entry,
                        max,
                    )
                    &&& final(self).set_leaderboards@ == old(self).set_leaderboards@
                    &&& final(self).set_claims@ == old(self).set_claims@
                    &&& final(self).next_edition_token_id == old(self).next_edition_token_id
                    &&& final(self).edition_tokens@ == old(self).edition_tokens@
                    &&& final(self).editions_by_owner@ == old(self).editions_by_owner@
                },
            },
    {
        let ghost s0 = *self;
        let cfg = match self.config {
            Some(c) => c,
            None => return Err(SetsError::NotInitialized),
        };
        let (required_sets, bonus, unlock_key) = match self.synergies.get(&synergy_id) {
            Some(s) => (copy_vec(&s.required_set_ids), s.bonus, s.unlock_key.clone()),
            None => return Err(SetsError::SynergyNotFound),
        };
        let syn_key = pair_key(player, synergy_id as u64);
        if self.synergy_claimed.contains(&syn_key) {
            return Err(SetsError::AlreadyClaimed);
        }
        let mut failure: Option<SetsError> = None;
        let mut i: usize = 0;
        while i < required_sets.len()
            invariant
                i <= required_sets.len(),
                *self == *old(self),
                failure == self.sync_failure(required_sets@.take(i as int), owned_puzzles@),
            decreases required_sets.len() - i,
        {
            assert(required_sets@.take(i as int + 1).drop_last() =~= required_sets@.take(i as int));
            if failure.is_none() {
                match self.sets.get(&required_sets[i]) {
                    None => {
                        failure = Some(SetsError::SetNotFound);
                    },
                    Some(set) => {
                        let done = sync_completed(&set.required_puzzle_ids, owned_puzzles);
                        if !(done.len() >= set.required_puzzle_ids.len() && is_completed(
                            &set.required_puzzle_ids,
                            &done,
                        )) {
                            failure = Some(SetsError::SynergyNotCompleted);
                        }
                    },
                }
            }
            i = i + 1;
        }
        assert(required_sets@.take(required_sets.len() as int) =~= required_sets@);
        if let Some(e) = failure {
            return Err(e);
        }
        let total = value_or(&self.total_bonus, &player, 0i128);
        let new_total = match total.checked_add(bonus) {
            Some(t) => t,
            None => return Err(SetsError::Overflow),
        };
        let mut j: usize = 0;
        while j < required_sets.len()
            invariant
                j <= required_sets.len(),
                self.catalog_same(old(self)),
                self.set_claimed@ == old(self).set_claimed@,
                self.synergy_claimed@ == old(self).synergy_claimed@,
                self.set_claims@ == old(self).set_claims@,
                self.unlocks@ == old(self).unlocks@,
                self.set_leaderboards@ == old(self).set_leaderboards@,
                self.global_leaderboard@ == old(self).global_leaderboard@,
                self.total_bonus@ == old(self).total_bonus@,
                self.next_edition_token_id == old(self).next_edition_token_id,
                self.edition_tokens@ == old(self).edition_tokens@,
                self.editions_by_owner@ == old(self).editions_by_owner@,
                s0 == *old(self),
                s0.sync_failure(required_sets@, owned_puzzles@) is None,
                forall|k: u128| #[trigger] self.progress_of(k) == old(self).progress_after_syncs(
                    player,
                    required_sets@.take(j as int),
                    owned_puzzles@,
                    k,
                ),
            decreases required_sets.len() - j,
        {
            assert(required_sets@.take(j as int + 1).drop_last() =~= required_sets@.take(j as int));
            proof {
                s0.lemma_no_failure_prefix(required_sets@, owned_puzzles@, j as int + 1);
            }
            let sid = required_sets[j];
            assert(required_sets@.take(j as int + 1).last() == sid);
            let done = match self.sets.get(&sid) {
                Some(set) => sync_completed(&set.required_puzzle_ids, owned_puzzles),
                None => Vec::new(),
            };
            let ghost prev = *self;
            self.progress.insert(pair_key(player, sid as u64), done);
            assert(done@ == synced(old(self).sets@[sid].required_puzzle_ids@, owned_puzzles@));
            assert forall|k: u128| #[trigger] self.progress_of(k) == old(self).progress_after_syncs(
                player,
                required_sets@.take(j as int + 1),
                owned_puzzles@,
                k,
            ) by {
                if k != pair_key_spec(player, sid as u64) {
                    assert(self.progress_of(k) == prev.progress_of(k));
                }
            }
            j = j + 1;
        }
        assert(required_sets@.take(required_sets.len() as int) =~= required_sets@);
        assert(required_sets@ == old(self).synergies@[synergy_id].required_set_ids@);
        assert(forall|k: u128| #[trigger] self.progress_of(k) == old(self).progress_after_syncs(
            player, required_sets@, owned_puzzles@, k));
        let ghost mid = *self;
        self.synergy_claimed.insert(syn_key);
        grant_unlock(&mut self.unlocks, player, unlock_key);
        self.total_bonus.insert(player, new_total);
        let entry = SetLeaderboardEntry { player, score: new_total, timestamp: now };
        self.global_leaderboard = update_leaderboard(
            &self.global_leaderboard,
            entry,
            cfg.max_top_entries,
        );
        self.global_leaderboard = update_leaderboard(
            &self.global_leaderboard,
            entry,
            cfg.max_top_entries,
        );
        assert forall|k: u128| #[trigger] self.progress_of(k) == old(self).progress_after_syncs(
            player, required_sets@, owned_puzzles@, k) by {
            assert(mid.progress_of(k) == old(self).progress_after_syncs(
                player, required_sets@, owned_puzzles@, k));
        }
        Ok(bonus)
    }

    /// A prefix of a list of sets that syncs without failure has no missing set.
    proof fn lemma_no_failure_prefix(&self, ids: Seq<u32>, owned: Seq<u32>, n: int)
        requires
            0 < n <= ids.len(),
            self.sync_failure(ids, owned) is None,
        ensures
            self.sync_failure(ids.take(n), owned) is None,
            self.sets@.contains_key(ids[n - 1]),
        decreases ids.len(),
    {
        if n < ids.len() {
            self.lemma_no_failure_prefix(ids.drop_last(), owned, n);
            assert(ids.drop_last().take(n) =~= ids.take(n));
            assert(ids.drop_last()[n - 1] == ids[n - 1]);
        } else {
            assert(ids.take(n) =~= ids);
        }
    }

    /// Hands the edition token `token_id` from `from` to `to`.
    pub fn transfer_edition_token(&mut self, from: AccountId, to: AccountId, token_id: u32) -> (r:
        Result<(), SetsError>)
        ensures
            match old(self).transfer_error(from, to, token_id) {
                Some(e) => r == Err::<(), SetsError>(e) && *final(self) == *old(self),
                None => {
                    let t = old(self).edition_tokens@[token_id];
                    &&& r is Ok
                    &&& final(self).catalog_same(old(self))
                    &&& final(self).edition_tokens@ == old(self).edition_tokens@.insert(
                        token_id,
                        EditionToken { owner: to, ..t },
                    )
                    &&& forall|o: AccountId| #[trigger] final(self).editions_of(o) == if o == from {
                        seq_remove_first(old(self).editions_of(o), token_id)
                    } else if o == to {
                        if old(self).editions_of(o).contains(token_id) {
                            old(self).editions_of(o)
                        } else {
                            old(self).editions_of(o).push(token_id)
                        }
                    } else {
                        old(self).editions_of(o)
                    }
                    &&& final(self).progress@ == old(self).progress@
                    &&& final(self).set_claimed@ == old(self).set_claimed@
                    &&& final(self).synergy_claimed@ == old(self).synergy_claimed@
                    &&& final(self).set_claims@ == old(self).set_claims@
                    &&& final(self).unlocks@ == old(self).unlocks@
                    &&& final(self).set_leaderboards@ == old(self).set_leaderboards@
                    &&& final(self).global_leaderboard@ == old(self).global_leaderboard@
                    &&& final(self).total_bonus@ == old(self).total_bonus@
                    &&& final(self).next_edition_token_id == old(self).next_edition_token_id
                },
            },
    {
        if from == to {
            return Err(SetsError::TransferToSelf);
        }
        let token = match self.edition_tokens.get(&token_id) {
            Some(t) => *t,
            None => return Err(SetsError::TokenNotFound),
        };
        if token.owner != from {
            return Err(SetsError::NotOwner);
        }
        let mut from_list = vec_or_empty(&self.editions_by_owner, &from);
        remove_first_u32(&mut from_list, token_id);
        self.editions_by_owner.insert(from, from_list);
        let mut to_list = vec_or_empty(&self.editions_by_owner, &to);
        if !contains_u32(&to_list, token_id) {
            to_list.push(token_id);
        }
        self.editions_by_owner.insert(to, to_list);
        self.edition_tokens.insert(token_id, EditionToken { owner: to, ..token });
        Ok(())
    }
}

// ───────────── leaderboard laws ─────────────

/// Scores never increase along a leaderboard.
pub open spec fn lb_sorted(s: Seq<SetLeaderboardEntry>) -> bool {
    forall|i: int, j: int| 0 <= i < j < s.len() ==> #[trigger] s[i].score >= #[trigger] s[j].score
}

/// No player holds two entries of a leaderboard.
pub open spec fn lb_distinct(s: Seq<SetLeaderboardEntry>) -> bool {
    forall|i: int, j: int| 0 <= i < j < s.len() ==> #[trigger] s[i].player != #[trigger] s[j].player
}

/// A well-formed leaderboard of at most `max` entries.
pub open spec fn lb_wf(s: Seq<SetLeaderboardEntry>, max: u32) -> bool {
    s.len() <= max && lb_sorted(s) && lb_distinct(s)
}

/// Where a score goes in `f`: before the first entry with a lower score,
/// at the end where there is none.
pub open spec fn scan_pos(f: Seq<SetLeaderboardEntry>, score: i128) -> int
    decreases f.len(),
{
    if f.len() == 0 {
        0
    } else {
        let q = scan_pos(f.drop_last(), score);
        if q < f.len() - 1 {
            q
        } else if score > f.last().score {
            f.len() - 1
        } else {
            f.len() as int
        }
    }
}

proof fn lemma_scan_pos(f: Seq<SetLeaderboardEntry>, score: i128)
    ensures
        0 <= scan_pos(f, score) <= f.len(),
        forall|j: int| 0 <= j < scan_pos(f, score) ==> #[trigger] f[j].score >= score,
        scan_pos(f, score) < f.len() ==> score > f[scan_pos(f, score)].score,
    decreases f.len(),
{
    if f.len() > 0 {
        let t = f.drop_last();
        lemma_scan_pos(t, score);
        assert forall|j: int| 0 <= j < scan_pos(f, score) implies #[trigger] f[j].score >= score by {
            if j < t.len() {
                assert(f[j] == t[j]);
            }
        }
        if scan_pos(t, score) < t.len() {
            assert(f[scan_pos(t, score)] == t[scan_pos(t, score)]);
        }
    }
}

/// What dropping a player's entries keeps.
proof fn lemma_entries_without(lb: Seq<SetLeaderboardEntry>, player: AccountId)
    ensures
        entries_without(lb, player).len() <= lb.len(),
        forall|i: int| 0 <= i < entries_without(lb, player).len() ==> (#[trigger] entries_without(lb, player)[i]).player
            != player,
        forall|i: int| 0 <= i < entries_without(lb, player).len() ==> exists|k: int|
            0 <= k < lb.len() && #[trigger] entries_without(lb, player)[i] == lb[k],
        lb_sorted(lb) ==> lb_sorted(entries_without(lb, player)),
        lb_distinct(lb) ==> lb_distinct(entries_without(lb, player)),
    decreases lb.len(),
{
    if lb.len() > 0 {
        let t = lb.drop_last();
        lemma_entries_without(t, player);
        let d = entries_without(t, player);
        let x = lb.last();
        assert forall|i: int| 0 <= i < d.len() implies exists|k: int| 0 <= k < lb.len() && #[trigger] d[i] == lb[k] by {
            let k = choose|k: int| 0 <= k < t.len() && d[i] == t[k];
            assert(d[i] == lb[k]);
        }
        if x.player != player {
            let e = d.push(x);
            assert forall|i: int| 0 <= i < e.len() implies exists|k: int| 0 <= k < lb.len() && #[trigger] e[i] == lb[k] by {
                if i < d.len() {
                    assert(e[i] == d[i]);
                } else {
                    assert(e[i] == lb[lb.len() - 1]);
                }
            }
            if lb_sorted(lb) {
                assert(lb_sorted(t));
                assert forall|i: int, j: int| 0 <= i < j < e.len() implies #[trigger] e[i].score >= #[trigger] e[j].score by {
                    if j == d.len() {
                        let k = choose|k: int| 0 <= k < t.len() && d[i] == t[k];
                        assert(lb[k].score >= lb[lb.len() - 1].score);
                    } else {
                        assert(e[i] == d[i] && e[j] == d[j]);
                    }
                }
            }
            if lb_distinct(lb) {
                assert(lb_distinct(t));
                assert forall|i: int, j: int| 0 <= i < j < e.len() implies #[trigger] e[i].player != #[trigger] e[j].player by {
                    if j == d.len() {
                        let k = choose|k: int| 0 <= k < t.len() && d[i] == t[k];
                        assert(lb[k].player != lb[lb.len() - 1].player);
                    } else {
                        assert(e[i] == d[i] && e[j] == d[j]);
                    }
                }
            }
        } else {
            if lb_sorted(lb) {
                assert(lb_sorted(t));
            }
            if lb_distinct(lb) {
                assert(lb_distinct(t));
            }
        }
    }
}

/// The number of entries of `f` that score at least `score`.
pub open spec fn count_at_least(f: Seq<SetLeaderboardEntry>, score: i128) -> int
    decreases f.len(),
{
    if f.len() == 0 {
        0
    } else {
        count_at_least(f.drop_last(), score) + if f.last().score >= score { 1int } else { 0int }
    }
}

/// On a sorted board the position of a score is the number of entries that
/// score at least as much.
proof fn lemma_scan_pos_count(f: Seq<SetLeaderboardEntry>, score: i128)
    requires
        lb_sorted(f),
    ensures
        scan_pos(f, score) == count_at_least(f, score),
    decreases f.len(),
{
    if f.len() > 0 {
        let t = f.drop_last();
        assert(lb_sorted(t)) by {
            assert forall|i: int, j: int| 0 <= i < j < t.len() implies #[trigger] t[i].score >= #[trigger] t[j].score by {
                assert(t[i] == f[i] && t[j] == f[j]);
            }
        }
        lemma_scan_pos_count(t, score);
        lemma_scan_pos(t, score);
        let q = scan_pos(t, score);
        if q < t.len() {
            assert(f[q] == t[q]);
            assert(f[q].score >= f[f.len() - 1].score);
        }
    }
}

/// The merge written out: `entry` goes to its position and the list is cut
/// to `max`.
proof fn lemma_lb_scan(f: Seq<SetLeaderboardEntry>, entry: SetLeaderboardEntry, max: u32)
    requires
        f.len() <= max,
    ensures
        scan_pos(f, entry.score) == f.len() ==> lb_scan(f, entry, max) == (f, false),
        scan_pos(f, entry.score) < f.len() ==> lb_scan(f, entry, max) == (
            f.insert(scan_pos(f, entry.score), entry).take(
                if f.len() + 1 > max { max as int } else { f.len() + 1int },
            ),
            true,
        ),
    decreases f.len(),
{
    if f.len() > 0 {
        let t = f.drop_last();
        let x = f.last();
        let n = t.len() as int;
        lemma_lb_scan(t, entry, max);
        lemma_scan_pos(t, entry.score);
        let q = scan_pos(t, entry.score);
        let (out, ins) = lb_scan(t, entry, max);
        if q < n {
            let it = t.insert(q, entry);
            let m = if n + 1 > max { max as int } else { n + 1 };
            assert(out == it.take(m));
            let fi = f.insert(q, entry);
            assert(fi =~= it.push(x));
            if out.len() < max {
                assert(out.push(x) =~= fi);
            } else {
                assert(out =~= fi.take(max as int));
            }
        } else {
            assert(out == t);
            if entry.score > x.score {
                let fi = f.insert(n, entry);
                assert(fi =~= t.push(entry).push(x));
                if t.push(entry).len() < max {
                    assert(t.push(entry).push(x) =~= fi);
                } else {
                    assert(t.push(entry) =~= fi.take(max as int));
                }
            } else {
                assert(t.push(x) =~= f);
            }
        }
    }
}

/// What ranking `entry` into a leaderboard does: a well-formed board stays
/// well formed (sorted by score, one entry per player, at most `max`
/// entries); the player's old entry leaves; with `q` the number of other
/// entries that score at least as much, its new entry stands at position `q`
/// when `q < max`, and is left out otherwise; the other entries keep their
/// relative order, the last falling off a full board.
pub proof fn lemma_lb_update_keeps_board(lb: Seq<SetLeaderboardEntry>, entry: SetLeaderboardEntry, max: u32)
    requires
        lb_wf(lb, max),
    ensures
        lb_wf(lb_update(lb, entry, max), max),
        ({
            let f = entries_without(lb, entry.player);
            let q = scan_pos(f, entry.score);
            let u = lb_update(lb, entry, max);
            &&& 0 <= q <= f.len()
            &&& q == count_at_least(f, entry.score)
            &&& forall|j: int| 0 <= j < q ==> #[trigger] f[j].score >= entry.score
            &&& q < f.len() ==> entry.score > f[q].score
            &&& q < max ==> {
                &&& u.len() == if f.len() + 1 > max { max as int } else { f.len() + 1int }
                &&& u[q] == entry
                &&& forall|i: int| 0 <= i < u.len() && i != q ==> #[trigger] u[i] == if i < q { f[i] } else { f[i - 1] }
                &&& forall|i: int| 0 <= i < u.len() && i != q ==> (#[trigger] u[i]).player != entry.player
            }
            &&& q >= max ==> u == f && forall|i: int| 0 <= i < u.len() ==> (#[trigger] u[i]).player != entry.player
        }),
{
    let f = entries_without(lb, entry.player);
    lemma_entries_without(lb, entry.player);
    lemma_scan_pos(f, entry.score);
    lemma_scan_pos_count(f, entry.score);
    lemma_lb_scan(f, entry, max);
    let q = scan_pos(f, entry.score);
    let u = lb_update(lb, entry, max);
    if q < max {
        let fi = f.insert(q, entry);
        let m = if f.len() + 1 > max { max as int } else { f.len() + 1int };
        if q == f.len() {
            assert(f.push(entry) =~= fi);
            assert(fi.take(m) =~= fi);
        }
        assert(u == fi.take(m));
        assert forall|i: int| 0 <= i < u.len() && i != q implies #[trigger] u[i] == if i < q { f[i] } else { f[i - 1] } by {
            assert(u[i] == fi[i]);
        }
        assert forall|i: int, j: int| 0 <= i < j < u.len() implies #[trigger] u[i].score >= #[trigger] u[j].score by {
            assert(u[i] == fi[i] && u[j] == fi[j]);
            if j < q {
            } else if j == q {
            } else if i == q {
                if j - 1 > q {
                    assert(f[q].score >= f[j - 1].score);
                }
            } else if i < q {
            } else {
            }
        }
        assert forall|i: int, j: int| 0 <= i < j < u.len() implies #[trigger] u[i].player != #[trigger] u[j].player by {
            assert(u[i] == fi[i] && u[j] == fi[j]);
        }
    } else {
        assert(u == f);
    }
}

} // verus!
