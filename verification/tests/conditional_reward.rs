use puzzle_contracts::conditional_reward::{
    Condition, ConditionParams, ConditionType, ConditionalRewardContract, Observation, RewardError,
    SubscriptionTier, DAY_SECONDS,
};
use puzzle_contracts::util::Transfer;

const CONTRACT: u64 = 400;
const ADMIN: u64 = 1;
const PLAYER: u64 = 2;
const OTHER: u64 = 3;
const TOKEN: u64 = 4;
const NFT: u64 = 50;
const PROOF: u64 = 51;
const IDENTITY: u64 = 52;
const SUBSCRIPTION: u64 = 53;
const NOW: u64 = 100 * DAY_SECONDS;

fn no_params() -> ConditionParams {
    ConditionParams { contract: None, token_id: None, min: None, days: None, tier: None, activity: None }
}

fn nft_condition(token_id: u32, or_group: u32) -> Condition {
    Condition {
        condition_type: ConditionType::NftHeld,
        params: ConditionParams { contract: Some(NFT), token_id: Some(token_id), ..no_params() },
        or_group,
    }
}

fn solve_condition(min: u32, activity: u32, or_group: u32) -> Condition {
    Condition {
        condition_type: ConditionType::SolveCountGte,
        params: ConditionParams { contract: Some(PROOF), min: Some(min), activity: Some(activity), ..no_params() },
        or_group,
    }
}

fn registration_condition(days: u64, or_group: u32) -> Condition {
    Condition {
        condition_type: ConditionType::RegistrationAgeGte,
        params: ConditionParams { contract: Some(IDENTITY), days: Some(days), ..no_params() },
        or_group,
    }
}

fn tier_condition(tier: u32, or_group: u32) -> Condition {
    Condition {
        condition_type: ConditionType::TierGte,
        params: ConditionParams { contract: Some(SUBSCRIPTION), tier: Some(tier), ..no_params() },
        or_group,
    }
}

fn setup() -> ConditionalRewardContract {
    let mut c = ConditionalRewardContract::new(CONTRACT);
    c.initialize(ADMIN, TOKEN).unwrap();
    c
}

fn create(c: &mut ConditionalRewardContract, conds: Vec<Condition>, amount: i128, max_claims: u32) -> u64 {
    let (id, funding) = c.create_reward(ADMIN, conds, amount, max_claims).unwrap();
    assert_eq!(funding, Transfer { token: TOKEN, from: ADMIN, to: CONTRACT, amount: amount * max_claims as i128 });
    id
}

/// What the four standard conditions observe for a well-qualified player.
fn qualified(player: u64) -> Vec<Observation> {
    vec![
        Observation::Owner(Some(player)),
        Observation::Count(Some(60)),
        Observation::RegisteredAt(Some(60 * DAY_SECONDS)),
        Observation::Access(Some(true)),
    ]
}

fn standard() -> Vec<Condition> {
    vec![nft_condition(7, 0), solve_condition(50, 0, 0), registration_condition(30, 0), tier_condition(1, 0)]
}

#[test]
fn test_eligible_claim() {
    let mut c = setup();
    let conds = vec![
        nft_condition(7, 0),
        solve_condition(50, 0, 0),
        registration_condition(30, 0),
        tier_condition(1, 1),
        tier_condition(2, 1),
    ];
    let id = create(&mut c, conds, 100, 2);
    let mut obs = qualified(PLAYER);
    obs.push(Observation::Access(Some(true)));
    let (eligible, failed) = c.check_eligibility(id, PLAYER, &obs, NOW).unwrap();
    assert!(eligible);
    assert!(failed.is_empty());
    let t = c.claim(id, PLAYER, &obs, NOW).unwrap();
    assert_eq!(t, Transfer { token: TOKEN, from: CONTRACT, to: PLAYER, amount: 100 });
    let reward = c.get_reward(id).unwrap();
    assert!(reward.active);
    assert_eq!(reward.claims_remaining, 1);
}

#[test]
fn test_partially_failing_conditions_reported() {
    let mut c = setup();
    let conds = vec![
        nft_condition(7, 0),
        solve_condition(50, 0, 0),
        registration_condition(10, 0),
        tier_condition(1, 2),
        tier_condition(2, 2),
    ];
    let id = create(&mut c, conds, 100, 1);
    let obs = vec![
        Observation::Owner(Some(PLAYER)),
        Observation::Count(Some(12)),
        Observation::RegisteredAt(Some(80 * DAY_SECONDS)),
        Observation::Access(Some(false)),
        Observation::Access(Some(false)),
    ];
    let (eligible, failed) = c.check_eligibility(id, PLAYER, &obs, NOW).unwrap();
    assert!(!eligible);
    assert_eq!(failed.len(), 3);
    assert_eq!(failed[0].index, 1);
    assert_eq!(failed[1].or_group, 2);
    assert_eq!(failed[2].or_group, 2);
    assert_eq!(c.claim(id, PLAYER, &obs, NOW), Err(RewardError::NotEligible));
}

#[test]
fn test_max_claims_cap() {
    let mut c = setup();
    let conds = vec![solve_condition(50, 0, 0), registration_condition(30, 0), tier_condition(2, 0)];
    let id = create(&mut c, conds, 100, 1);
    let obs = |_p: u64| {
        vec![
            Observation::Count(Some(60)),
            Observation::RegisteredAt(Some(60 * DAY_SECONDS)),
            Observation::Access(Some(true)),
        ]
    };
    c.claim(id, PLAYER, &obs(PLAYER), NOW).unwrap();
    assert_eq!(c.claim(id, OTHER, &obs(OTHER), NOW), Err(RewardError::MaxClaimsReached));
}

#[test]
fn test_deactivation_refunds_unclaimed_funds() {
    let mut c = setup();
    let id = create(&mut c, standard(), 100, 3);
    c.claim(id, PLAYER, &qualified(PLAYER), NOW).unwrap();
    let (refund, t) = c.deactivate_reward(ADMIN, id).unwrap();
    assert_eq!(refund, 200);
    assert_eq!(t, Some(Transfer { token: TOKEN, from: CONTRACT, to: ADMIN, amount: 200 }));
    let reward = c.get_reward(id).unwrap();
    assert!(!reward.active);
    assert_eq!(reward.claims_remaining, 2);
}

#[test]
fn test_duplicate_claim_rejected() {
    let mut c = setup();
    let id = create(&mut c, standard(), 100, 2);
    c.claim(id, PLAYER, &qualified(PLAYER), NOW).unwrap();
    assert_eq!(c.claim(id, PLAYER, &qualified(PLAYER), NOW), Err(RewardError::AlreadyClaimed));
}

#[test]
fn nft_held_by_someone_else_fails() {
    let mut c = setup();
    let id = create(&mut c, standard(), 100, 2);
    let mut obs = qualified(PLAYER);
    obs[0] = Observation::Owner(Some(OTHER));
    let (eligible, failed) = c.check_eligibility(id, PLAYER, &obs, NOW).unwrap();
    assert!(!eligible);
    assert_eq!(failed.len(), 1);
    assert_eq!(failed[0].index, 0);
    assert_eq!(failed[0].condition_type, ConditionType::NftHeld);
}

#[test]
fn registration_age_is_counted_in_days() {
    let mut c = setup();
    let id = create(&mut c, vec![registration_condition(30, 0)], 100, 2);
    let just = vec![Observation::RegisteredAt(Some(NOW - 30 * DAY_SECONDS))];
    let short = vec![Observation::RegisteredAt(Some(NOW - 30 * DAY_SECONDS + 1))];
    assert_eq!(c.check_eligibility(id, PLAYER, &just, NOW).unwrap().0, true);
    assert_eq!(c.check_eligibility(id, PLAYER, &short, NOW).unwrap().0, false);
}

#[test]
fn reward_creation_errors() {
    let mut c = setup();
    assert_eq!(c.create_reward(OTHER, standard(), 100, 1).err(), Some(RewardError::AdminOnly));
    assert_eq!(c.create_reward(ADMIN, vec![], 100, 1).err(), Some(RewardError::ConditionsRequired));
    assert_eq!(c.create_reward(ADMIN, standard(), 0, 1).err(), Some(RewardError::AmountNotPositive));
    let bad = Condition { condition_type: ConditionType::NftHeld, params: no_params(), or_group: 0 };
    assert_eq!(c.create_reward(ADMIN, vec![bad], 100, 1).err(), Some(RewardError::MissingNftContract));
    assert_eq!(c.create_reward(ADMIN, vec![tier_condition(3, 0)], 100, 1).err(), Some(RewardError::InvalidTier));
}

#[test]
fn subscription_tier_from_number() {
    assert_eq!(SubscriptionTier::from_u32(0), Some(SubscriptionTier::Free));
    assert_eq!(SubscriptionTier::from_u32(2), Some(SubscriptionTier::Elite));
    assert_eq!(SubscriptionTier::from_u32(3), None);
}
