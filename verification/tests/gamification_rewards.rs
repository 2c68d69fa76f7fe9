use puzzle_contracts::gamification_rewards::{
    BoostItem, BoostType, Config, GamificationError, GamificationRewardsContract,
};

#[test]
fn initialize_sets_default_milestones() {
    let mut c = GamificationRewardsContract::new();
    assert_eq!(c.initialize(1), Ok(()));
    assert_eq!(c.config, Some(Config { admin: 1, paused: false }));
    assert_eq!(c.admin, Some(1));
    let expected = [(1u32, 10u32), (2, 50), (3, 100), (4, 250), (5, 500), (6, 1000)];
    assert_eq!(c.thresholds.len(), 6);
    for (level, t) in expected {
        assert_eq!(c.thresholds.get(&level), Some(&t));
    }
}

#[test]
fn initialize_twice_fails() {
    let mut c = GamificationRewardsContract::new();
    c.initialize(1).unwrap();
    assert_eq!(c.initialize(2), Err(GamificationError::AlreadyInitialized));
    assert_eq!(c.admin, Some(1));
}

#[test]
fn set_milestone_threshold_overrides() {
    let mut c = GamificationRewardsContract::new();
    c.initialize(1).unwrap();
    c.set_milestone_threshold(1, 3, 75);
    c.set_milestone_threshold(1, 9, 5000);
    assert_eq!(c.thresholds.get(&3), Some(&75));
    assert_eq!(c.thresholds.get(&9), Some(&5000));
}

fn boost(bonus: u32) -> BoostItem {
    BoostItem { boost_type: BoostType::PowerBoost, multiplier_bonus: bonus, start_ledger: 5, duration_ledgers: 10, is_active: true }
}

#[test]
fn deactivate_boost_marks_only_that_boost() {
    let mut c = GamificationRewardsContract::new();
    c.boosts.insert(7, vec![boost(10), boost(20)]);
    c.deactivate_boost(1, 7, 1);
    let bs = c.boosts.get(&7).unwrap();
    assert!(bs[0].is_active);
    assert!(!bs[1].is_active);
    assert_eq!(bs[1].multiplier_bonus, 20);
}

#[test]
fn deactivate_missing_boost_changes_nothing() {
    let mut c = GamificationRewardsContract::new();
    c.boosts.insert(7, vec![boost(10)]);
    c.deactivate_boost(1, 7, 3);
    c.deactivate_boost(1, 8, 0);
    assert!(c.boosts.get(&7).unwrap()[0].is_active);
    assert!(c.boosts.get(&8).is_none());
}
