use puzzle_contracts::loyalty_points::{LoyaltyError, LoyaltyPointsContract, RewardType, EXPIRY_WINDOW};

const ADMIN: u64 = 1;
const ORACLE: u64 = 2;
const PLAYER: u64 = 3;
const T0: u64 = 1_000_000;

fn setup_env() -> LoyaltyPointsContract {
    let mut c = LoyaltyPointsContract::new();
    c.initialize(ADMIN, ORACLE).unwrap();
    c
}

#[test]
fn loyalty_points_test_initialize_success() {
    let c = setup_env();
    let balance = c.get_balance(77);
    assert_eq!(balance.current_balance, 0);
    assert_eq!(balance.total_earned, 0);
}

#[test]
fn loyalty_points_test_initialize_twice_fails() {
    let mut c = setup_env();
    assert_eq!(c.initialize(ADMIN, ORACLE), Err(LoyaltyError::AlreadyInitialized));
}

#[test]
fn test_award_points_single() {
    let mut c = setup_env();
    assert_eq!(c.award_points(PLAYER, 500, T0), Ok(500));
    let balance = c.get_balance(PLAYER);
    assert_eq!(balance.current_balance, 500);
    assert_eq!(balance.total_earned, 500);
    assert_eq!(balance.total_redeemed, 0);
    assert_eq!(balance.last_activity, 1_000_000);
}

#[test]
fn test_award_points_multiple_accumulate() {
    let mut c = setup_env();
    c.award_points(PLAYER, 100, T0).unwrap();
    c.award_points(PLAYER, 200, T0).unwrap();
    assert_eq!(c.award_points(PLAYER, 300, T0), Ok(600));
    let balance = c.get_balance(PLAYER);
    assert_eq!(balance.total_earned, 600);
    assert_eq!(balance.current_balance, 600);
}

#[test]
fn test_award_points_multiple_players() {
    let mut c = setup_env();
    c.award_points(10, 100, T0).unwrap();
    c.award_points(11, 200, T0).unwrap();
    assert_eq!(c.get_balance(10).current_balance, 100);
    assert_eq!(c.get_balance(11).current_balance, 200);
}

#[test]
fn test_redeem_success() {
    let mut c = setup_env();
    let option_id = c.create_option("Discount".to_string(), 500, RewardType::Discount, 10).unwrap();
    c.award_points(PLAYER, 1000, T0).unwrap();
    assert_eq!(c.redeem(PLAYER, option_id, T0), Ok(500));
    let balance = c.get_balance(PLAYER);
    assert_eq!(balance.current_balance, 500);
    assert_eq!(balance.total_earned, 1000);
    assert_eq!(balance.total_redeemed, 500);
}

#[test]
fn test_redeem_insufficient_balance() {
    let mut c = setup_env();
    let option_id = c.create_option("Token".to_string(), 1000, RewardType::Token, 50).unwrap();
    c.award_points(PLAYER, 100, T0).unwrap();
    assert_eq!(c.redeem(PLAYER, option_id, T0), Err(LoyaltyError::InsufficientBalance));
}

#[test]
fn test_redeem_nonexistent_option() {
    let mut c = setup_env();
    c.award_points(PLAYER, 1000, T0).unwrap();
    assert_eq!(c.redeem(PLAYER, 99, T0), Err(LoyaltyError::OptionNotFound));
}

#[test]
fn test_redeem_disabled_option() {
    let mut c = setup_env();
    let option_id = c.create_option("Item".to_string(), 100, RewardType::Item, 1).unwrap();
    c.disable_option(option_id).unwrap();
    c.award_points(PLAYER, 500, T0).unwrap();
    assert_eq!(c.redeem(PLAYER, option_id, T0), Err(LoyaltyError::OptionDisabled));
}

#[test]
fn test_redeem_multiple_times() {
    let mut c = setup_env();
    let option_id = c.create_option("Discount".to_string(), 100, RewardType::Discount, 5).unwrap();
    c.award_points(PLAYER, 500, T0).unwrap();
    assert_eq!(c.redeem(PLAYER, option_id, T0), Ok(400));
    assert_eq!(c.redeem(PLAYER, option_id, T0), Ok(300));
    assert_eq!(c.redeem(PLAYER, option_id, T0), Ok(200));
    let balance = c.get_balance(PLAYER);
    assert_eq!(balance.total_redeemed, 300);
    assert_eq!(balance.current_balance, 200);
}

#[test]
fn test_expire_stale_points_after_12_months() {
    let mut c = setup_env();
    c.award_points(PLAYER, 1000, T0).unwrap();
    assert_eq!(c.expire_stale_points(PLAYER, T0 + EXPIRY_WINDOW + 1), Ok(0));
    let balance = c.get_balance(PLAYER);
    assert_eq!(balance.current_balance, 0);
    assert_eq!(balance.total_earned, 1000);
}

#[test]
fn test_expire_not_stale_returns_balance() {
    let mut c = setup_env();
    c.award_points(PLAYER, 500, T0).unwrap();
    assert_eq!(c.expire_stale_points(PLAYER, T0 + EXPIRY_WINDOW / 2), Ok(500));
}

#[test]
fn test_activity_resets_expiry_clock() {
    let mut c = setup_env();
    c.award_points(PLAYER, 500, T0).unwrap();
    let eleven_months = EXPIRY_WINDOW - 30 * 24 * 60 * 60;
    c.award_points(PLAYER, 100, T0 + eleven_months).unwrap();
    assert_eq!(c.expire_stale_points(PLAYER, T0 + eleven_months + eleven_months), Ok(600));
}

#[test]
fn test_redeem_after_expiry_fails() {
    let mut c = setup_env();
    let option_id = c.create_option("Reward".to_string(), 100, RewardType::Token, 10).unwrap();
    c.award_points(PLAYER, 500, T0).unwrap();
    assert_eq!(c.redeem(PLAYER, option_id, T0 + EXPIRY_WINDOW + 1), Err(LoyaltyError::PointsExpired));
}

#[test]
fn test_points_are_non_transferable() {
    let mut c = setup_env();
    c.award_points(10, 1000, T0).unwrap();
    assert_eq!(c.get_balance(10).current_balance, 1000);
    assert_eq!(c.get_balance(11).current_balance, 0);
    c.award_points(11, 200, T0).unwrap();
    assert_eq!(c.get_balance(10).current_balance, 1000);
    assert_eq!(c.get_balance(11).current_balance, 200);
}

#[test]
fn test_create_option() {
    let mut c = setup_env();
    let id = c.create_option("Big prize".to_string(), 2000, RewardType::Item, 1).unwrap();
    assert_eq!(id, 0);
    let option = c.get_option(id).unwrap();
    assert_eq!(option.points_cost, 2000);
    assert_eq!(option.reward_type, RewardType::Item);
    assert_eq!(option.reward_value, 1);
    assert!(option.enabled);
    assert_eq!(option.name, "Big prize");
}

#[test]
fn test_create_multiple_options_increments_id() {
    let mut c = setup_env();
    assert_eq!(c.create_option("a".to_string(), 100, RewardType::Token, 10), Ok(0));
    assert_eq!(c.create_option("b".to_string(), 200, RewardType::Discount, 5), Ok(1));
    assert_eq!(c.create_option("c".to_string(), 300, RewardType::Item, 1), Ok(2));
}

#[test]
fn test_update_option() {
    let mut c = setup_env();
    let id = c.create_option("old".to_string(), 100, RewardType::Token, 10).unwrap();
    c.update_option(id, "new".to_string(), 250, RewardType::Discount, 15, true).unwrap();
    let option = c.get_option(id).unwrap();
    assert_eq!(option.points_cost, 250);
    assert_eq!(option.reward_type, RewardType::Discount);
    assert_eq!(option.reward_value, 15);
    assert!(option.enabled);
    assert_eq!(option.name, "new");
}

#[test]
fn test_disable_option() {
    let mut c = setup_env();
    let id = c.create_option("x".to_string(), 100, RewardType::Token, 10).unwrap();
    c.disable_option(id).unwrap();
    assert!(!c.get_option(id).unwrap().enabled);
}

#[test]
fn test_update_nonexistent_option_fails() {
    let mut c = setup_env();
    assert_eq!(
        c.update_option(99, "phantom".to_string(), 100, RewardType::Token, 10, true),
        Err(LoyaltyError::OptionNotFound)
    );
}

#[test]
fn test_disable_nonexistent_option_fails() {
    let mut c = setup_env();
    assert_eq!(c.disable_option(99), Err(LoyaltyError::OptionNotFound));
}

#[test]
fn test_get_balance_unregistered_player() {
    let c = setup_env();
    let balance = c.get_balance(404);
    assert_eq!(balance.current_balance, 0);
    assert_eq!(balance.total_earned, 0);
    assert_eq!(balance.total_redeemed, 0);
    assert_eq!(balance.last_activity, 0);
}

#[test]
fn test_set_oracle() {
    let mut c = setup_env();
    c.set_oracle(9).unwrap();
    assert_eq!(c.oracle, Some(9));
    assert_eq!(c.award_points(PLAYER, 100, T0), Ok(100));
}

#[test]
fn loyalty_points_test_full_lifecycle() {
    let mut c = setup_env();
    let small_id = c.create_option("small".to_string(), 200, RewardType::Discount, 5).unwrap();
    let big_id = c.create_option("big".to_string(), 1000, RewardType::Item, 1).unwrap();
    c.award_points(PLAYER, 500, T0).unwrap();
    c.award_points(PLAYER, 100, T0).unwrap();
    c.award_points(PLAYER, 600, T0).unwrap();
    assert_eq!(c.get_balance(PLAYER).current_balance, 1200);
    assert_eq!(c.redeem(PLAYER, small_id, T0), Ok(1000));
    assert_eq!(c.redeem(PLAYER, big_id, T0), Ok(0));
    let balance = c.get_balance(PLAYER);
    assert_eq!(balance.total_earned, 1200);
    assert_eq!(balance.total_redeemed, 1200);
    assert_eq!(balance.current_balance, 0);
}

#[test]
fn uninitialized_loyalty_refuses() {
    let mut c = LoyaltyPointsContract::new();
    assert_eq!(c.award_points(PLAYER, 1, T0), Err(LoyaltyError::NotInitialized));
    assert_eq!(c.create_option("x".to_string(), 1, RewardType::Token, 1), Err(LoyaltyError::NotInitialized));
}

#[test]
fn expire_unknown_player_is_insufficient_balance() {
    let mut c = setup_env();
    assert_eq!(c.expire_stale_points(PLAYER, T0), Err(LoyaltyError::InsufficientBalance));
}
