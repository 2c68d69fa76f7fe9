//! Milestone rewards paid to players who meet a list of conditions: holding
//! an NFT, a number of solved puzzles, the age of their registered identity,
//! or a subscription tier. Conditions with the same non-zero OR group are
//! alternatives; conditions of group 0 are all required.
use vstd::prelude::*;
use std::collections::HashMap;
use crate::util::{AccountId, Transfer, contains_u64, copy_vec};

verus! {

broadcast use vstd::std_specs::hash::group_hash_axioms;

/// Seconds in a day.
pub const DAY_SECONDS: u64 = 86400;

#[derive(Clone, Copy, Debug, PartialEq, Eq, Structural)]
pub enum ConditionType {
    NftHeld,
    SolveCountGte,
    RegistrationAgeGte,
    TierGte,
}

#[derive(Clone, Copy, Debug, PartialEq, Eq, Structural)]
pub enum SubscriptionTier {
    Free,
    Pro,
    Elite,
}

/// The typed parameters of a condition; an entry is `None` where the
/// parameter map lacks it or holds a value of another type.
#[derive(Clone, Copy, Debug, PartialEq, Eq, Structural)]
pub struct ConditionParams {
    pub contract: Option<AccountId>,
    pub token_id: Option<u32>,
    pub min: Option<u32>,
    pub days: Option<u64>,
    pub tier: Option<u32>,
    pub activity: Option<u32>,
}

#[derive(Clone, Copy, Debug, PartialEq, Eq, Structural)]
pub struct Condition {
    pub condition_type: ConditionType,
    pub params: ConditionParams,
    pub or_group: u32,
}

#[derive(Clone, Copy, Debug, PartialEq, Eq, Structural)]
pub struct FailedCondition {
    pub index: u32,
    pub condition_type: ConditionType,
    pub or_group: u32,
}

pub struct MilestoneReward {
    pub id: u64,
    pub reward_amount: i128,
    pub conditions: Vec<Condition>,
    pub claimants: Vec<AccountId>,
    pub max_claims: u32,
    pub active: bool,
}

pub struct RewardView {
    pub id: u64,
    pub reward_amount: i128,
    pub conditions: Vec<Condition>,
    pub claims_remaining: u32,
    pub active: bool,
}

/// The contract call that evaluating a condition makes.
#[derive(Clone, Copy, Debug, PartialEq, Eq, Structural)]
pub enum ConditionQuery {
    /// `owner_of(token_id)` on the NFT contract.
    OwnerOf { contract: AccountId, token_id: u32 },
    /// `get_activity_count(player, activity_type)` on the proof-of-activity contract.
    ActivityCount { contract: AccountId, player: AccountId, activity_type: u32 },
    /// `resolve_address(player)` on the identity contract.
    ResolveAddress { contract: AccountId, player: AccountId },
    /// `has_access(player, tier)` on the subscription contract.
    HasAccess { contract: AccountId, player: AccountId, tier: SubscriptionTier },
}

/// What the call of a condition returned; `None` where the call failed
/// (or, for an identity, where the player has none).
#[derive(Clone, Copy, Debug, PartialEq, Eq, Structural)]
pub enum Observation {
    Owner(Option<AccountId>),
    Count(Option<u32>),
    RegisteredAt(Option<u64>),
    Access(Option<bool>),
}

#[derive(Clone, Copy, Debug, PartialEq, Eq, Structural)]
pub enum RewardError {
    AlreadyInitialized,
    NotInitialized,
    AdminOnly,
    AmountNotPositive,
    MaxClaimsNotPositive,
    ConditionsRequired,
    InvalidOrGroup,
    MissingNftContract,
    MissingTokenId,
    MissingProofContract,
    MissingSolveThreshold,
    MissingIdentityContract,
    MissingAgeThreshold,
    MissingSubscriptionContract,
    MissingTier,
    InvalidTier,
    FundingOverflow,
    RewardNotFound,
    RewardInactive,
    AlreadyClaimed,
    MaxClaimsReached,
    NotEligible,
    EligibilityCheckFailed,
    AlreadyInactive,
    RefundOverflow,
    ObservationMismatch,
    Overflow,
}

/// The storage of the contract; `contract` is its own account.
pub struct ConditionalRewardContract {
    pub contract: AccountId,
    pub admin: Option<AccountId>,
    pub token: Option<AccountId>,
    pub next_reward_id: u64,
    pub rewards: HashMap<u64, MilestoneReward>,
}

// ───────────── mathematical model ─────────────

pub open spec fn tier_from(value: u32) -> Option<SubscriptionTier> {
    if value == 0 {
        Some(SubscriptionTier::Free)
    } else if value == 1 {
        Some(SubscriptionTier::Pro)
    } else if value == 2 {
        Some(SubscriptionTier::Elite)
    } else {
        None
    }
}

/// The parameter that evaluating a condition finds missing, if any.
pub open spec fn param_error(c: Condition) -> Option<RewardError> {
    let p = c.params;
    match c.condition_type {
        ConditionType::NftHeld => if p.contract is None {
            Some(RewardError::MissingNftContract)
        } else if p.token_id is None {
            Some(RewardError::MissingTokenId)
        } else {
            None
        },
        ConditionType::SolveCountGte => if p.contract is None {
            Some(RewardError::MissingProofContract)
        } else if p.min is None {
            Some(RewardError::MissingSolveThreshold)
        } else {
            None
        },
        ConditionType::RegistrationAgeGte => if p.contract is None {
            Some(RewardError::MissingIdentityContract)
        } else if p.days is None {
            Some(RewardError::MissingAgeThreshold)
        } else {
            None
        },
        ConditionType::TierGte => if p.contract is None {
            Some(RewardError::MissingSubscriptionContract)
        } else if p.tier is None {
            Some(RewardError::MissingTier)
        } else if tier_from(p.tier.unwrap()) is None {
            Some(RewardError::InvalidTier)
        } else {
            None
        },
    }
}

/// Why a condition cannot be stored: an OR group of `u32::MAX` or a
/// missing parameter.
pub open spec fn validation_error(c: Condition) -> Option<RewardError> {
    if c.or_group == u32::MAX {
        Some(RewardError::InvalidOrGroup)
    } else {
        param_error(c)
    }
}

/// The call that evaluating `c` for `player` makes.
pub open spec fn query_of(c: Condition, player: AccountId) -> ConditionQuery {
    let p = c.params;
    match c.condition_type {
        ConditionType::NftHeld => ConditionQuery::OwnerOf {
            contract: p.contract.unwrap(),
            token_id: p.token_id.unwrap(),
        },
        ConditionType::SolveCountGte => ConditionQuery::ActivityCount {
            contract: p.contract.unwrap(),
            player,
            activity_type: if p.activity is Some {
                p.activity.unwrap()
            } else {
                0
            },
        },
        ConditionType::RegistrationAgeGte => ConditionQuery::ResolveAddress {
            contract: p.contract.unwrap(),
            player,
        },
        ConditionType::TierGte => ConditionQuery::HasAccess {
            contract: p.contract.unwrap(),
            player,
            tier: tier_from(p.tier.unwrap()).unwrap(),
        },
    }
}

pub open spec fn sat_sub(a: u64, b: u64) -> int {
    if a >= b {
        a - b
    } else {
        0
    }
}

pub open spec fn sat_mul(a: u64, b: u64) -> int {
    if a * b > u64::MAX {
        u64::MAX as int
    } else {
        a * b
    }
}

/// Whether `c` holds for `player` at `now` given what its call returned.
pub open spec fn condition_holds(c: Condition, o: Observation, player: AccountId, now: u64) -> bool {
    match c.condition_type {
        ConditionType::NftHeld => o == Observation::Owner(Some(player)),
        ConditionType::SolveCountGte => o matches Observation::Count(Some(n)) && n >= c.params.min.unwrap(),
        ConditionType::RegistrationAgeGte => o matches Observation::RegisteredAt(Some(t)) && sat_sub(now, t)
            >= sat_mul(c.params.days.unwrap(), DAY_SECONDS),
        ConditionType::TierGte => o == Observation::Access(Some(true)),
    }
}

/// Whether a condition of group `g` passed.
pub open spec fn group_satisfied(conds: Seq<Condition>, results: Seq<bool>, g: u32) -> bool {
    exists|i: int| 0 <= i < conds.len() && conds[i].or_group == g && #[trigger] results[i]
}

/// Whether condition `i` is met: itself for group 0, its group otherwise.
pub open spec fn condition_met(conds: Seq<Condition>, results: Seq<bool>, i: int) -> bool {
    if conds[i].or_group == 0 {
        results[i]
    } else {
        group_satisfied(conds, results, conds[i].or_group)
    }
}

/// The conditions among the first `n` that are not met, in order.
pub open spec fn failed_prefix(conds: Seq<Condition>, results: Seq<bool>, n: int) -> Seq<FailedCondition>
    decreases n,
{
    if n <= 0 {
        Seq::empty()
    } else {
        let rest = failed_prefix(conds, results, n - 1);
        if condition_met(conds, results, n - 1) {
            rest
        } else {
            rest.push(
                FailedCondition {
                    index: (n - 1) as u32,
                    condition_type: conds[n - 1].condition_type,
                    or_group: conds[n - 1].or_group,
                },
            )
        }
    }
}

/// The first parameter error among the first `n` conditions.
pub open spec fn first_param_error(conds: Seq<Condition>, n: int) -> Option<RewardError>
    decreases n,
{
    if n <= 0 {
        None
    } else {
        match first_param_error(conds, n - 1) {
            Some(e) => Some(e),
            None => param_error(conds[n - 1]),
        }
    }
}

/// The first validation error among the first `n` conditions.
pub open spec fn first_validation_error(conds: Seq<Condition>, n: int) -> Option<RewardError>
    decreases n,
{
    if n <= 0 {
        None
    } else {
        match first_validation_error(conds, n - 1) {
            Some(e) => Some(e),
            None => validation_error(conds[n - 1]),
        }
    }
}

/// The outcome of each condition given the observations.
pub open spec fn outcomes(conds: Seq<Condition>, obs: Seq<Observation>, player: AccountId, now: u64) -> Seq<bool> {
    Seq::new(conds.len(), |i: int| condition_holds(conds[i], obs[i], player, now))
}

impl SubscriptionTier {
    /// The tier with the number `value` (0 Free, 1 Pro, 2 Elite).
    pub fn from_u32(value: u32) -> (r: Option<SubscriptionTier>)
        ensures
            r == tier_from(value),
    {
        if value == 0 {
            Some(SubscriptionTier::Free)
        } else if value == 1 {
            Some(SubscriptionTier::Pro)
        } else if value == 2 {
            Some(SubscriptionTier::Elite)
        } else {
            None
        }
    }
}

/// The call to make for evaluating `c` for `player`.
pub fn condition_query(c: &Condition, player: AccountId) -> (r: Result<ConditionQuery, RewardError>)
    ensures
        match param_error(*c) {
            Some(e) => r == Err::<ConditionQuery, RewardError>(e),
            None => r == Ok::<ConditionQuery, RewardError>(query_of(*c, player)),
        },
{
    let p = c.params;
    match c.condition_type {
        ConditionType::NftHeld => {
            let contract = match p.contract {
                Some(a) => a,
                None => return Err(RewardError::MissingNftContract),
            };
            let token_id = match p.token_id {
                Some(t) => t,
                None => return Err(RewardError::MissingTokenId),
            };
            Ok(ConditionQuery::OwnerOf { contract, token_id })
        },
        ConditionType::SolveCountGte => {
            let contract = match p.contract {
                Some(a) => a,
                None => return Err(RewardError::MissingProofContract),
            };
            if p.min.is_none() {
                return Err(RewardError::MissingSolveThreshold);
            }
            let activity_type = match p.activity {
                Some(a) => a,
                None => 0,
            };
            Ok(ConditionQuery::ActivityCount { contract, player, activity_type })
        },
        ConditionType::RegistrationAgeGte => {
            let contract = match p.contract {
                Some(a) => a,
                None => return Err(RewardError::MissingIdentityContract),
            };
            if p.days.is_none() {
                return Err(RewardError::MissingAgeThreshold);
            }
            Ok(ConditionQuery::ResolveAddress { contract, player })
        },
        ConditionType::TierGte => {
            let contract = match p.contract {
                Some(a) => a,
                None => return Err(RewardError::MissingSubscriptionContract),
            };
            let tier_value = match p.tier {
                Some(t) => t,
                None => return Err(RewardError::MissingTier),
            };
            let tier = match SubscriptionTier::from_u32(tier_value) {
                Some(t) => t,
                None => return Err(RewardError::InvalidTier),
            };
            Ok(ConditionQuery::HasAccess { contract, player, tier })
        },
    }
}

/// Whether `c` holds for `player` at `now`, given what its call returned.
pub fn evaluate_condition(c: &Condition, observed: Observation, player: AccountId, now: u64) -> (r: Result<
    bool,
    RewardError,
>)
    ensures
        match param_error(*c) {
            Some(e) => r == Err::<bool, RewardError>(e),
            None => r == Ok::<bool, RewardError>(condition_holds(*c, observed, player, now)),
        },
{
    match condition_query(c, player) {
        Err(e) => Err(e),
        Ok(_) => {
            match c.condition_type {
                ConditionType::NftHeld => Ok(
                    match observed {
                        Observation::Owner(Some(owner)) => owner == player,
                        _ => false,
                    },
                ),
                ConditionType::SolveCountGte => {
                    let minimum = c.params.min.unwrap();
                    Ok(
                        match observed {
                            Observation::Count(Some(n)) => n >= minimum,
                            _ => false,
                        },
                    )
                },
                ConditionType::RegistrationAgeGte => {
                    let days = c.params.days.unwrap();
                    Ok(
                        match observed {
                            Observation::RegisteredAt(Some(t)) => now.saturating_sub(t)
                                >= match days.checked_mul(DAY_SECONDS) {
                                Some(v) => v,
                                None => u64::MAX,
                            },
                            _ => false,
                        },
                    )
                },
                ConditionType::TierGte => Ok(
                    match observed {
                        Observation::Access(Some(b)) => b,
                        _ => false,
                    },
                ),
            }
        },
    }
}

/// Checks that a condition can be stored.
pub fn validate_condition(c: &Condition) -> (r: Result<(), RewardError>)
    ensures
        match validation_error(*c) {
            Some(e) => r == Err::<(), RewardError>(e),
            None => r is Ok,
        },
{
    if c.or_group == u32::MAX {
        return Err(RewardError::InvalidOrGroup);
    }
    match condition_query(c, 0) {
        Err(e) => Err(e),
        Ok(_) => Ok(()),
    }
}

/// Whether some condition of group `group_id` passed.
pub fn group_is_satisfied(conditions: &Vec<Condition>, results: &Vec<bool>, group_id: u32) -> (r: bool)
    requires
        results.len() == conditions.len(),
    ensures
        r == group_satisfied(conditions@, results@, group_id),
        r <==> exists|i: int| 0 <= i < conditions@.len() && conditions@[i].or_group == group_id && #[trigger] results@[i],
{
    let mut i: usize = 0;
    while i < conditions.len()
        invariant
            i <= conditions.len(),
            results.len() == conditions.len(),
            forall|j: int| 0 <= j < i ==> !(conditions@[j].or_group == group_id && #[trigger] results@[j]),
        decreases conditions.len() - i,
    {
        if conditions[i].or_group == group_id && results[i] {
            return true;
        }
        i = i + 1;
    }
    false
}

/// Whether all conditions are met, and those that are not, in order.
pub fn evaluate_results(conditions: &Vec<Condition>, results: &Vec<bool>) -> (r: (bool, Vec<FailedCondition>))
    requires
        results.len() == conditions.len(),
        conditions.len() <= u32::MAX,
    ensures
        r.1@ == failed_prefix(conditions@, results@, conditions.len() as int),
        r.0 == (forall|i: int| 0 <= i < conditions.len() ==> condition_met(conditions@, results@, i)),
        r.0 == (r.1@.len() == 0),
{
    let mut failed: Vec<FailedCondition> = Vec::new();
    let mut eligible = true;
    let mut i: usize = 0;
    while i < conditions.len()
        invariant
            i <= conditions.len(),
            results.len() == conditions.len(),
            conditions.len() <= u32::MAX,
            failed@ == failed_prefix(conditions@, results@, i as int),
            eligible == (forall|j: int| 0 <= j < i ==> #[trigger] condition_met(conditions@, results@, j)),
            eligible == (failed@.len() == 0),
        decreases conditions.len() - i,
    {
        let c = conditions[i];
        let met = if c.or_group == 0 {
            results[i]
        } else {
            group_is_satisfied(conditions, results, c.or_group)
        };
        assert(met == condition_met(conditions@, results@, i as int));
        assert((forall|j: int| 0 <= j < i + 1 ==> #[trigger] condition_met(conditions@, results@, j)) == (
        (forall|j: int| 0 <= j < i ==> #[trigger] condition_met(conditions@, results@, j)) && met)) by {
            if met {
                assert forall|j: int| 0 <= j < i ==> #[trigger] condition_met(conditions@, results@, j) implies
                    (0 <= j < i + 1 ==> condition_met(conditions@, results@, j)) by {}
            }
        }
        if !met {
            eligible = false;
            failed.push(FailedCondition { index: i as u32, condition_type: c.condition_type, or_group: c.or_group });
        }
        i = i + 1;
    }
    (eligible, failed)
}


pub open spec fn claims_remaining(r: &MilestoneReward) -> u32 {
    if r.max_claims >= r.claimants.len() {
        (r.max_claims - r.claimants.len()) as u32
    } else {
        0
    }
}

/// The evaluation of `conds` for `player`: the first parameter error, or
/// whether all are met and those that are not.
pub open spec fn evaluation(conds: Seq<Condition>, obs: Seq<Observation>, player: AccountId, now: u64) -> Result<
    (bool, Seq<FailedCondition>),
    RewardError,
> {
    if obs.len() != conds.len() {
        Err(RewardError::ObservationMismatch)
    } else if first_param_error(conds, conds.len() as int) is Some {
        Err(first_param_error(conds, conds.len() as int).unwrap())
    } else {
        let results = outcomes(conds, obs, player, now);
        let failed = failed_prefix(conds, results, conds.len() as int);
        Ok((failed.len() == 0, failed))
    }
}

/// Evaluates the conditions of a reward for `player` at `now`; `observed`
/// holds what the call of each condition returned, in order.
pub fn evaluate_reward(conditions: &Vec<Condition>, observed: &Vec<Observation>, player: AccountId, now: u64) -> (r:
    Result<(bool, Vec<FailedCondition>), RewardError>)
    requires
        conditions.len() <= u32::MAX,
    ensures
        match evaluation(conditions@, observed@, player, now) {
            Err(e) => r == Err::<(bool, Vec<FailedCondition>), RewardError>(e),
            Ok((ok, failed)) => r matches Ok((b, f)) && b == ok && f@ == failed,
        },
        r matches Ok((b, _)) ==> (b <==> forall|i: int| 0 <= i < conditions@.len() ==> #[trigger] requirement_holds(
            conditions@,
            outcomes(conditions@, observed@, player, now),
            i,
        )),
{
    if observed.len() != conditions.len() {
        return Err(RewardError::ObservationMismatch);
    }
    let mut results: Vec<bool> = Vec::new();
    let mut i: usize = 0;
    while i < conditions.len()
        invariant
            i <= conditions.len(),
            observed.len() == conditions.len(),
            first_param_error(conditions@, i as int) is None,
            results@ == outcomes(conditions@, observed@, player, now).take(i as int),
        decreases conditions.len() - i,
    {
        match evaluate_condition(&conditions[i], observed[i], player, now) {
            Err(e) => {
                assert(first_param_error(conditions@, i as int + 1) == Some(e));
                proof { lemma_first_error_stays(conditions@, i as int + 1, conditions.len() as int); }
                return Err(e);
            },
            Ok(b) => {
                results.push(b);
            },
        }
        i = i + 1;
        assert(results@ =~= outcomes(conditions@, observed@, player, now).take(i as int));
    }
    assert(results@ =~= outcomes(conditions@, observed@, player, now));
    let (ok, failed) = evaluate_results(conditions, &results);
    proof {
        lemma_eligible_iff(conditions@, results@);
    }
    Ok((ok, failed))
}

/// Once some condition among the first `n` has a parameter error, the
/// first error among more conditions is the same.
proof fn lemma_first_error_stays(conds: Seq<Condition>, n: int, m: int)
    requires
        0 <= n <= m,
        first_param_error(conds, n) is Some,
    ensures
        first_param_error(conds, m) == first_param_error(conds, n),
    decreases m - n,
{
    if n < m {
        lemma_first_error_stays(conds, n, m - 1);
    }
}

proof fn lemma_first_validation_stays(conds: Seq<Condition>, n: int, m: int)
    requires
        0 <= n <= m,
        first_validation_error(conds, n) is Some,
    ensures
        first_validation_error(conds, m) == first_validation_error(conds, n),
    decreases m - n,
{
    if n < m {
        lemma_first_validation_stays(conds, n, m - 1);
    }
}

impl ConditionalRewardContract {
    /// An uninitialized contract whose own account is `contract`.
    pub fn new(contract: AccountId) -> (r: Self)
        ensures
            r.contract == contract,
            r.admin is None,
            r.token is None,
            r.next_reward_id == 1,
            r.rewards@.is_empty(),
    {
        ConditionalRewardContract { contract, admin: None, token: None, next_reward_id: 1, rewards: HashMap::new() }
    }

    pub fn initialize(&mut self, admin: AccountId, token: AccountId) -> (r: Result<(), RewardError>)
        ensures
            old(self).admin is Some ==> r == Err::<(), RewardError>(RewardError::AlreadyInitialized)
                && *final(self) == *old(self),
            old(self).admin is None ==> r is Ok && final(self).admin == Some(admin) && final(self).token
                == Some(token) && final(self).next_reward_id == 1 && final(self).rewards@ == old(self).rewards@ && final(self).contract == old(self).contract,
    {
        if self.admin.is_some() {
            return Err(RewardError::AlreadyInitialized);
        }
        self.admin = Some(admin);
        self.token = Some(token);
        self.next_reward_id = 1;
        Ok(())
    }

    pub open spec fn admin_error(&self, admin: AccountId) -> Option<RewardError> {
        if self.admin is None {
            Some(RewardError::NotInitialized)
        } else if self.admin.unwrap() != admin {
            Some(RewardError::AdminOnly)
        } else {
            None
        }
    }

    pub open spec fn create_error(&self, admin: AccountId, conds: Seq<Condition>, amount: i128, max_claims: u32) -> Option<
        RewardError,
    > {
        if self.admin_error(admin) is Some {
            self.admin_error(admin)
        } else if amount <= 0 {
            Some(RewardError::AmountNotPositive)
        } else if max_claims == 0 {
            Some(RewardError::MaxClaimsNotPositive)
        } else if conds.len() == 0 {
            Some(RewardError::ConditionsRequired)
        } else if first_validation_error(conds, conds.len() as int) is Some {
            first_validation_error(conds, conds.len() as int)
        } else if amount * max_claims > i128::MAX {
            Some(RewardError::FundingOverflow)
        } else if self.token is None {
            Some(RewardError::NotInitialized)
        } else if self.next_reward_id == u64::MAX {
            Some(RewardError::Overflow)
        } else {
            None
        }
    }

    /// Creates a reward funded with `reward_amount * max_claims` tokens from
    /// the admin; returns its id and the funding transfer.
    #[verifier::loop_isolation(false)]
    pub fn create_reward(
        &mut self,
        admin: AccountId,
        conditions: Vec<Condition>,
        reward_amount: i128,
        max_claims: u32,
    ) -> (r: Result<(u64, Transfer), RewardError>)
        ensures
            match old(self).create_error(admin, conditions@, reward_amount, max_claims) {
                Some(e) => r == Err::<(u64, Transfer), RewardError>(e) && *final(self) == *old(self),
                None => {
                    let id = old(self).next_reward_id;
                    &&& r == Ok::<(u64, Transfer), RewardError>(
                        (
                            id,
                            Transfer {
                                token: old(self).token.unwrap(),
                                from: admin,
                                to: old(self).contract,
                                amount: (reward_amount * max_claims) as i128,
                            },
                        ),
                    )
                    &&& final(self).next_reward_id == id + 1
                    &&& final(self).rewards@.contains_key(id)
                    &&& final(self).rewards@ == old(self).rewards@.insert(id, final(self).rewards@[id])
                    &&& final(self).rewards@[id].id == id
                    &&& final(self).rewards@[id].reward_amount == reward_amount
                    &&& final(self).rewards@[id].conditions@ == conditions@
                    &&& final(self).rewards@[id].claimants@.len() == 0
                    &&& final(self).rewards@[id].max_claims == max_claims
                    &&& final(self).rewards@[id].active
                    &&& final(self).admin == old(self).admin
                    &&& final(self).token == old(self).token
                    &&& final(self).contract == old(self).contract
                },
            },
    {
        match self.admin {
            None => return Err(RewardError::NotInitialized),
            Some(a) => {
                if a != admin {
                    return Err(RewardError::AdminOnly);
                }
            },
        }
        if reward_amount <= 0 {
            return Err(RewardError::AmountNotPositive);
        }
        if max_claims == 0 {
            return Err(RewardError::MaxClaimsNotPositive);
        }
        if conditions.len() == 0 {
            return Err(RewardError::ConditionsRequired);
        }
        let mut i: usize = 0;
        while i < conditions.len()
            invariant
                i <= conditions.len(),
                *self == *old(self),
                first_validation_error(conditions@, i as int) is None,
            decreases conditions.len() - i,
        {
            match validate_condition(&conditions[i]) {
                Err(e) => {
                    proof { lemma_first_validation_stays(conditions@, i as int + 1, conditions.len() as int); }
                    return Err(e);
                },
                Ok(_) => {},
            }
            i = i + 1;
        }
        let total = match reward_amount.checked_mul(max_claims as i128) {
            Some(t) => t,
            None => return Err(RewardError::FundingOverflow),
        };
        let token = match self.token {
            Some(t) => t,
            None => return Err(RewardError::NotInitialized),
        };
        if self.next_reward_id == u64::MAX {
            return Err(RewardError::Overflow);
        }
        let id = self.next_reward_id;
        self.next_reward_id = id + 1;
        self.rewards.insert(
            id,
            MilestoneReward {
                id,
                reward_amount,
                conditions,
                claimants: Vec::new(),
                max_claims,
                active: true,
            },
        );
        Ok((id, Transfer { token, from: admin, to: self.contract, amount: total }))
    }

    /// Whether `player` meets the conditions of the reward `reward_id`, and
    /// the conditions not met.
    pub fn check_eligibility(&self, reward_id: u64, player: AccountId, observed: &Vec<Observation>, now: u64) -> (r:
        Result<(bool, Vec<FailedCondition>), RewardError>)
        requires
            self.rewards@.contains_key(reward_id) ==> self.rewards@[reward_id].conditions.len() <= u32::MAX,
        ensures
            !self.rewards@.contains_key(reward_id) ==> r == Err::<(bool, Vec<FailedCondition>), RewardError>(
                RewardError::RewardNotFound,
            ),
            self.rewards@.contains_key(reward_id) ==> match evaluation(
                self.rewards@[reward_id].conditions@,
                observed@,
                player,
                now,
            ) {
                Err(e) => r == Err::<(bool, Vec<FailedCondition>), RewardError>(e),
                Ok((ok, failed)) => r matches Ok((b, f)) && b == ok && f@ == failed,
            },
            r matches Ok((b, _)) ==> self.rewards@.contains_key(reward_id) && (b <==> forall|i: int|
                0 <= i < self.rewards@[reward_id].conditions@.len() ==> #[trigger] requirement_holds(
                self.rewards@[reward_id].conditions@,
                outcomes(self.rewards@[reward_id].conditions@, observed@, player, now),
                i,
            )),
    {
        match self.rewards.get(&reward_id) {
            None => Err(RewardError::RewardNotFound),
            Some(reward) => evaluate_reward(&reward.conditions, observed, player, now),
        }
    }

    pub open spec fn claim_error(&self, reward_id: u64, player: AccountId, observed: Seq<Observation>, now: u64) -> Option<
        RewardError,
    > {
        let rw = self.rewards@[reward_id];
        let ev = evaluation(rw.conditions@, observed, player, now);
        if !self.rewards@.contains_key(reward_id) {
            Some(RewardError::RewardNotFound)
        } else if !rw.active {
            Some(RewardError::RewardInactive)
        } else if rw.claimants@.contains(player) {
            Some(RewardError::AlreadyClaimed)
        } else if rw.claimants.len() >= rw.max_claims {
            Some(RewardError::MaxClaimsReached)
        } else if ev is Err {
            Some(ev->Err_0)
        } else if !ev->Ok_0.0 {
            if ev->Ok_0.1.len() > 0 {
                Some(RewardError::NotEligible)
            } else {
                Some(RewardError::EligibilityCheckFailed)
            }
        } else if self.token is None {
            Some(RewardError::NotInitialized)
        } else {
            None
        }
    }

    /// Pays the reward to an eligible player, once per player and up to the
    /// maximum number of claims; returns the payment.
    pub fn claim(&mut self, reward_id: u64, player: AccountId, observed: &Vec<Observation>, now: u64) -> (r:
        Result<Transfer, RewardError>)
        requires
            old(self).rewards@.contains_key(reward_id) ==> old(self).rewards@[reward_id].conditions.len()
                <= u32::MAX,
        ensures
            r is Ok ==> final(self).rewards@[reward_id].claimants@.len() <= final(self).rewards@[reward_id].max_claims,
            r is Ok ==> forall|obs: Seq<Observation>, t: u64| #[trigger] final(self).claim_error(reward_id, player, obs, t) is Some,
            match old(self).claim_error(reward_id, player, observed@, now) {
                Some(e) => r == Err::<Transfer, RewardError>(e) && *final(self) == *old(self),
                None => {
                    let rw = old(self).rewards@[reward_id];
                    &&& r == Ok::<Transfer, RewardError>(
                        Transfer {
                            token: old(self).token.unwrap(),
                            from: old(self).contract,
                            to: player,
                            amount: rw.reward_amount,
                        },
                    )
                    &&& final(self).rewards@.dom() == old(self).rewards@.dom()
                    &&& forall|k: u64| k != reward_id && #[trigger] old(self).rewards@.contains_key(k)
                        ==> final(self).rewards@[k] == old(self).rewards@[k]
                    &&& final(self).rewards@[reward_id].claimants@ == rw.claimants@.push(player)
                    &&& final(self).rewards@[reward_id].conditions@ == rw.conditions@
                    &&& final(self).rewards@[reward_id].id == rw.id
                    &&& final(self).rewards@[reward_id].reward_amount == rw.reward_amount
                    &&& final(self).rewards@[reward_id].max_claims == rw.max_claims
                    &&& final(self).rewards@[reward_id].active == rw.active
                    &&& final(self).admin == old(self).admin
                    &&& final(self).token == old(self).token
                    &&& final(self).next_reward_id == old(self).next_reward_id
                    &&& final(self).contract == old(self).contract
                },
            },
    {
        let (active, already, count, max_claims, amount) = match self.rewards.get(&reward_id) {
            None => return Err(RewardError::RewardNotFound),
            Some(rw) => (rw.active, contains_u64(&rw.claimants, player), rw.claimants.len(), rw.max_claims, rw.reward_amount),
        };
        if !active {
            return Err(RewardError::RewardInactive);
        }
        if already {
            return Err(RewardError::AlreadyClaimed);
        }
        if count >= max_claims as usize {
            return Err(RewardError::MaxClaimsReached);
        }
        let (eligible, failed) = match self.rewards.get(&reward_id) {
            None => return Err(RewardError::RewardNotFound),
            Some(rw) => match evaluate_reward(&rw.conditions, observed, player, now) {
                Err(e) => return Err(e),
                Ok(x) => x,
            },
        };
        if !eligible {
            if failed.len() > 0 {
                return Err(RewardError::NotEligible);
            }
            return Err(RewardError::EligibilityCheckFailed);
        }
        let token = match self.token {
            Some(t) => t,
            None => return Err(RewardError::NotInitialized),
        };
        let mut rw = self.rewards.remove(&reward_id).unwrap();
        rw.claimants.push(player);
        self.rewards.insert(reward_id, rw);
        proof {
            let cs = self.rewards@[reward_id].claimants@;
            assert(cs[cs.len() - 1] == player);
        }
        Ok(Transfer { token, from: self.contract, to: player, amount })
    }

    pub open spec fn deactivate_error(&self, admin: AccountId, reward_id: u64) -> Option<RewardError> {
        let rw = self.rewards@[reward_id];
        if self.admin_error(admin) is Some {
            self.admin_error(admin)
        } else if !self.rewards@.contains_key(reward_id) {
            Some(RewardError::RewardNotFound)
        } else if !rw.active {
            Some(RewardError::AlreadyInactive)
        } else if rw.reward_amount * claims_remaining(&rw) > i128::MAX || rw.reward_amount * claims_remaining(&rw) < i128::MIN {
            Some(RewardError::RefundOverflow)
        } else if rw.reward_amount * claims_remaining(&rw) > 0 && self.token is None {
            Some(RewardError::NotInitialized)
        } else {
            None
        }
    }

    /// Closes a reward and refunds the admin for the claims left; returns
    /// the refund and its transfer, if any.
    pub fn deactivate_reward(&mut self, admin: AccountId, reward_id: u64) -> (r: Result<
        (i128, Option<Transfer>),
        RewardError,
    >)
        ensures
            final(self).contract == old(self).contract,
            match old(self).deactivate_error(admin, reward_id) {
                Some(e) => r == Err::<(i128, Option<Transfer>), RewardError>(e) && *final(self) == *old(self),
                None => {
                    let rw = old(self).rewards@[reward_id];
                    let refund = (rw.reward_amount * claims_remaining(&rw)) as i128;
                    &&& r == Ok::<(i128, Option<Transfer>), RewardError>(
                        (
                            refund,
                            if refund > 0 {
                                Some(
                                    Transfer {
                                        token: old(self).token.unwrap(),
                                        from: old(self).contract,
                                        to: admin,
                                        amount: refund,
                                    },
                                )
                            } else {
                                None
                            },
                        ),
                    )
                    &&& final(self).rewards@.dom() == old(self).rewards@.dom()
                    &&& forall|k: u64| k != reward_id && #[trigger] old(self).rewards@.contains_key(k)
                        ==> final(self).rewards@[k] == old(self).rewards@[k]
                    &&& !final(self).rewards@[reward_id].active
                    &&& final(self).rewards@[reward_id].claimants@ == rw.claimants@
                    &&& final(self).rewards@[reward_id].conditions@ == rw.conditions@
                    &&& final(self).rewards@[reward_id].reward_amount == rw.reward_amount
                    &&& final(self).rewards@[reward_id].max_claims == rw.max_claims
                    &&& final(self).rewards@[reward_id].id == rw.id
                    &&& final(self).admin == old(self).admin
                    &&& final(self).token == old(self).token
                    &&& final(self).next_reward_id == old(self).next_reward_id
                },
            },
    {
        match self.admin {
            None => return Err(RewardError::NotInitialized),
            Some(a) => {
                if a != admin {
                    return Err(RewardError::AdminOnly);
                }
            },
        }
        let (active, count, max_claims, amount) = match self.rewards.get(&reward_id) {
            None => return Err(RewardError::RewardNotFound),
            Some(rw) => (rw.active, rw.claimants.len(), rw.max_claims, rw.reward_amount),
        };
        if !active {
            return Err(RewardError::AlreadyInactive);
        }
        let remaining: u32 = if max_claims as usize >= count {
            (max_claims as usize - count) as u32
        } else {
            0
        };
        let refund = match amount.checked_mul(remaining as i128) {
            Some(v) => v,
            None => return Err(RewardError::RefundOverflow),
        };
        let payment = if refund > 0 {
            match self.token {
                Some(t) => Some(Transfer { token: t, from: self.contract, to: admin, amount: refund }),
                None => return Err(RewardError::NotInitialized),
            }
        } else {
            None
        };
        let mut rw = self.rewards.remove(&reward_id).unwrap();
        rw.active = false;
        self.rewards.insert(reward_id, rw);
        Ok((refund, payment))
    }

    /// The public view of a reward: its conditions and the claims left.
    pub fn get_reward(&self, reward_id: u64) -> (r: Result<RewardView, RewardError>)
        ensures
            !self.rewards@.contains_key(reward_id) ==> r == Err::<RewardView, RewardError>(
                RewardError::RewardNotFound,
            ),
            self.rewards@.contains_key(reward_id) ==> (r matches Ok(v) && {
                let rw = self.rewards@[reward_id];
                &&& v.id == rw.id
                &&& v.reward_amount == rw.reward_amount
                &&& v.conditions@ == rw.conditions@
                &&& v.claims_remaining == claims_remaining(&rw)
                &&& v.active == rw.active
            }),
    {
        match self.rewards.get(&reward_id) {
            None => Err(RewardError::RewardNotFound),
            Some(rw) => {
                let count = rw.claimants.len();
                let remaining: u32 = if rw.max_claims as usize >= count {
                    (rw.max_claims as usize - count) as u32
                } else {
                    0
                };
                Ok(
                    RewardView {
                        id: rw.id,
                        reward_amount: rw.reward_amount,
                        conditions: copy_vec(&rw.conditions),
                        claims_remaining: remaining,
                        active: rw.active,
                    },
                )
            },
        }
    }
}

/// Whether some condition of group `g` passed.
pub open spec fn some_member_passed(conds: Seq<Condition>, results: Seq<bool>, g: u32) -> bool {
    exists|j: int| 0 <= j < conds.len() && conds[j].or_group == g && #[trigger] results[j]
}

/// OR groups: a condition of a non-zero group is met exactly when some
/// condition of its group passed; a condition of group 0 is met exactly
/// when it passed itself.
pub proof fn lemma_or_group_met(conds: Seq<Condition>, results: Seq<bool>, i: int)
    requires
        results.len() == conds.len(),
        0 <= i < conds.len(),
    ensures
        conds[i].or_group != 0 ==> (condition_met(conds, results, i) <==> some_member_passed(
            conds,
            results,
            conds[i].or_group,
        )),
        conds[i].or_group == 0 ==> (condition_met(conds, results, i) <==> results[i]),
{
}

/// One passing member satisfies its whole group: if condition `j` passed,
/// every condition `i` of the same non-zero group is met.
pub proof fn lemma_one_member_suffices(conds: Seq<Condition>, results: Seq<bool>, i: int, j: int)
    requires
        results.len() == conds.len(),
        0 <= i < conds.len(),
        0 <= j < conds.len(),
        conds[i].or_group != 0,
        conds[j].or_group == conds[i].or_group,
        results[j],
    ensures
        condition_met(conds, results, i),
{
    assert(group_satisfied(conds, results, conds[i].or_group));
}

/// What condition `i` asks: to pass itself in group 0, or to have some
/// passing member in its non-zero group.
pub open spec fn requirement_holds(conds: Seq<Condition>, results: Seq<bool>, i: int) -> bool {
    if conds[i].or_group == 0 {
        results[i]
    } else {
        some_member_passed(conds, results, conds[i].or_group)
    }
}

/// Eligibility: every condition is met exactly when every group-0
/// condition passed and every non-zero group has a passing member.
pub proof fn lemma_eligible_iff(conds: Seq<Condition>, results: Seq<bool>)
    requires
        results.len() == conds.len(),
    ensures
        (forall|i: int| 0 <= i < conds.len() ==> #[trigger] condition_met(conds, results, i)) <==> (forall|i: int|
            0 <= i < conds.len() ==> #[trigger] requirement_holds(conds, results, i)),
{
    if forall|i: int| 0 <= i < conds.len() ==> #[trigger] condition_met(conds, results, i) {
        assert forall|i: int| 0 <= i < conds.len() implies #[trigger] requirement_holds(conds, results, i) by {
            assert(condition_met(conds, results, i));
            lemma_or_group_met(conds, results, i);
        }
    }
    if forall|i: int| 0 <= i < conds.len() ==> #[trigger] requirement_holds(conds, results, i) {
        assert forall|i: int| 0 <= i < conds.len() implies #[trigger] condition_met(conds, results, i) by {
            assert(requirement_holds(conds, results, i));
            lemma_or_group_met(conds, results, i);
        }
    }
}

/// What each kind of condition asks of its observation: the player owns
/// the NFT; the solve count is at least the threshold; at least the given
/// number of days (86400 seconds each) have passed since registration, for
/// a registration not in the future and a threshold that fits in 64 bits;
/// the subscription contract grants access. A failed call never passes.
pub proof fn lemma_condition_meaning(c: Condition, o: Observation, player: AccountId, now: u64)
    ensures
        c.condition_type == ConditionType::NftHeld ==> (condition_holds(c, o, player, now) <==> o
            == Observation::Owner(Some(player))),
        c.condition_type == ConditionType::SolveCountGte ==> (condition_holds(c, o, player, now) <==> exists|n: u32|
            o == Observation::Count(Some(n)) && n >= c.params.min.unwrap()),
        c.condition_type == ConditionType::RegistrationAgeGte && c.params.days.unwrap() * 86400 <= u64::MAX ==> (
        condition_holds(c, o, player, now) <==> exists|t: u64|
            o == Observation::RegisteredAt(Some(t)) && (if now >= t { now - t } else { 0 }) >= c.params.days.unwrap()
                * 86400),
        c.condition_type == ConditionType::TierGte ==> (condition_holds(c, o, player, now) <==> o
            == Observation::Access(Some(true))),
        o == Observation::Owner(None) || o == Observation::Count(None) || o == Observation::RegisteredAt(None) || o
            == Observation::Access(None) ==> !condition_holds(c, o, player, now),
{
}

} // verus!
