use puzzle_contracts::nft_upgrade::{NftUpgradeContract, UpgradeError};
use puzzle_contracts::util::Transfer;

const CONTRACT: u64 = 700;
const ADMIN: u64 = 1;
const PLAYER: u64 = 2;
const TOKEN: u64 = 3;
const NFT: u64 = 4;

fn setup() -> NftUpgradeContract {
    let mut c = NftUpgradeContract::new(CONTRACT);
    c.initialize(ADMIN, TOKEN, NFT).unwrap();
    c
}

fn boosts(power: u32, rarity: u32) -> Vec<(String, u32)> {
    vec![("power_level".to_string(), power), ("rarity_tier".to_string(), rarity)]
}

fn setup_with_tier(tier: u32, cost: i128, success_rate_bps: u32) -> NftUpgradeContract {
    let mut c = setup();
    c.register_upgrade_config(ADMIN, tier, cost, success_rate_bps, boosts(20, 2)).unwrap();
    c
}

fn attr(c: &NftUpgradeContract, nft_id: u32, name: &str) -> Option<u32> {
    c.get_nft_attributes(nft_id).iter().rev().find(|e| e.0 == name).map(|e| e.1)
}

#[test]
fn nft_upgrade_test_initialize_success() {
    let c = setup();
    let config = c.get_contract_config_pub().unwrap();
    assert_eq!(config.admin, ADMIN);
    assert_eq!(config.token, TOKEN);
    assert_eq!(config.nft_contract, NFT);
}

#[test]
fn test_double_initialize_panics() {
    let mut c = setup();
    assert_eq!(c.initialize(ADMIN, TOKEN, NFT), Err(UpgradeError::AlreadyInitialized));
}

#[test]
fn test_register_and_get_config() {
    let mut c = setup();
    c.register_upgrade_config(ADMIN, 1, 500, 7500, boosts(10, 1)).unwrap();
    let cfg = c.get_config(1).unwrap();
    assert_eq!(cfg.tier, 1);
    assert_eq!(cfg.cost, 500);
    assert_eq!(cfg.success_rate_bps, 7500);
    assert_eq!(cfg.attribute_boosts[0], ("power_level".to_string(), 10));
}

#[test]
fn test_get_config_missing_tier_panics() {
    let c = setup();
    assert_eq!(c.get_config(99).err(), Some(UpgradeError::TierNotFound));
}

#[test]
fn test_register_config_beyond_max_tier_panics() {
    let mut c = setup();
    assert_eq!(c.register_upgrade_config(ADMIN, 6, 100, 5000, boosts(5, 1)), Err(UpgradeError::MaxTierReached));
}

#[test]
fn test_success_rate_clamped_to_bps_denominator() {
    let mut c = setup();
    c.register_upgrade_config(ADMIN, 1, 100, 15_000, boosts(1, 0)).unwrap();
    assert_eq!(c.get_config(1).unwrap().success_rate_bps, 10_000);
}

#[test]
fn test_successful_upgrade_applies_attribute_boosts() {
    let mut c = setup_with_tier(1, 500, 10_000);
    let (success, _) = c.attempt_upgrade(PLAYER, 1, 1, None, 9_999, 1_000).unwrap();
    assert!(success);
    assert_eq!(attr(&c, 1, "power_level"), Some(20));
    assert_eq!(attr(&c, 1, "rarity_tier"), Some(2));
}

#[test]
fn test_successful_upgrade_records_history() {
    let mut c = setup_with_tier(1, 500, 10_000);
    c.attempt_upgrade(PLAYER, 42, 1, None, 0, 2_000).unwrap();
    let history = c.get_upgrade_history(42);
    assert_eq!(history.len(), 1);
    assert_eq!(history[0].nft_id, 42);
    assert!(history[0].success);
    assert_eq!(history[0].tokens_spent, 500);
    assert_eq!(history[0].attempted_at, 2_000);
    assert_eq!(history[0].player, PLAYER);
}

#[test]
fn test_cost_deducted_upfront_on_success() {
    let mut c = setup_with_tier(1, 1_000, 10_000);
    let (_, transfers) = c.attempt_upgrade(PLAYER, 1, 1, None, 5_000, 0).unwrap();
    assert_eq!(transfers, vec![Transfer { token: TOKEN, from: PLAYER, to: CONTRACT, amount: 1_000 }]);
}

#[test]
fn test_successful_upgrade_accumulates_attribute_boosts() {
    let mut c = setup_with_tier(1, 100, 10_000);
    c.attempt_upgrade(PLAYER, 9, 1, None, 1, 0).unwrap();
    c.attempt_upgrade(PLAYER, 9, 1, None, 2, 0).unwrap();
    assert_eq!(attr(&c, 9, "power_level"), Some(40));
    assert_eq!(attr(&c, 9, "rarity_tier"), Some(4));
}

#[test]
fn test_failed_upgrade_refunds_50_percent() {
    let mut c = setup_with_tier(1, 500, 0);
    let (success, transfers) = c.attempt_upgrade(PLAYER, 1, 1, None, 0, 0).unwrap();
    assert!(!success);
    assert_eq!(
        transfers,
        vec![
            Transfer { token: TOKEN, from: PLAYER, to: CONTRACT, amount: 500 },
            Transfer { token: TOKEN, from: CONTRACT, to: PLAYER, amount: 250 },
        ]
    );
}

#[test]
fn test_failed_upgrade_records_history_with_unchanged_attributes() {
    let mut c = setup_with_tier(1, 500, 0);
    c.attempt_upgrade(PLAYER, 3, 1, None, 0, 0).unwrap();
    let history = c.get_upgrade_history(3);
    assert_eq!(history.len(), 1);
    assert!(!history[0].success);
    assert_eq!(history[0].new_attributes.len(), 0);
}

#[test]
fn test_upgrade_with_unregistered_tier_panics() {
    let mut c = setup_with_tier(1, 500, 5000);
    assert_eq!(c.attempt_upgrade(PLAYER, 1, 2, None, 0, 0).err(), Some(UpgradeError::TierNotFound));
}

#[test]
fn test_upgrade_beyond_max_tier_panics() {
    let mut c = setup_with_tier(1, 500, 5000);
    assert_eq!(c.attempt_upgrade(PLAYER, 1, 6, None, 0, 0).err(), Some(UpgradeError::MaxTierReached));
}

#[test]
fn test_multiple_upgrades_accumulate_history() {
    let mut c = setup_with_tier(1, 100, 10_000);
    for _ in 0..3 {
        c.attempt_upgrade(PLAYER, 5, 1, None, 0, 0).unwrap();
    }
    assert_eq!(c.get_upgrade_history(5).len(), 3);
}

#[test]
fn test_get_upgrade_history_empty_for_new_nft() {
    let c = setup();
    assert_eq!(c.get_upgrade_history(999).len(), 0);
}

#[test]
fn test_get_nft_attributes_empty_for_new_nft() {
    let c = setup();
    assert_eq!(c.get_nft_attributes(999).len(), 0);
}

#[test]
fn roll_decides_against_success_rate() {
    let mut c = setup_with_tier(1, 100, 5000);
    assert!(c.attempt_upgrade(PLAYER, 1, 1, None, 4_999, 0).unwrap().0);
    assert!(!c.attempt_upgrade(PLAYER, 1, 1, None, 5_000, 0).unwrap().0);
}

#[test]
fn upgrade_of_someone_elses_nft_is_refused() {
    let mut c = setup_with_tier(1, 100, 5000);
    assert_eq!(c.attempt_upgrade(PLAYER, 1, 1, Some(77), 0, 0).err(), Some(UpgradeError::NotNftOwner));
    assert!(c.attempt_upgrade(PLAYER, 1, 1, Some(PLAYER), 0, 0).is_ok());
}

#[test]
fn non_admin_cannot_register_tier() {
    let mut c = setup();
    assert_eq!(c.register_upgrade_config(PLAYER, 1, 100, 5000, boosts(1, 1)), Err(UpgradeError::AdminOnly));
}


#[test]
fn attributes_come_back_in_name_order() {
    let mut c = setup();
    let boosts = vec![("zeta".to_string(), 1), ("alpha".to_string(), 2), ("mid".to_string(), 3)];
    c.register_upgrade_config(ADMIN, 1, 10, 10_000, boosts).unwrap();
    c.attempt_upgrade(PLAYER, 4, 1, None, 0, 0).unwrap();
    let names: Vec<String> = c.get_nft_attributes(4).into_iter().map(|e| e.0).collect();
    assert_eq!(names, vec!["alpha".to_string(), "mid".to_string(), "zeta".to_string()]);
    let recorded: Vec<String> = c.get_upgrade_history(4)[0].new_attributes.iter().map(|e| e.0.clone()).collect();
    assert_eq!(recorded, names);
}
