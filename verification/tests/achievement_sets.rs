use puzzle_contracts::achievement_sets::{
    is_completed, sync_completed, update_leaderboard, AchievementSets, SetLeaderboardEntry, SetTier, SetsError,
};

const ADMIN: u64 = 1;
const P1: u64 = 2;
const P2: u64 = 3;

fn setup(max_top: u32) -> AchievementSets {
    let mut c = AchievementSets::new();
    c.initialize(ADMIN, 50, 51, max_top).unwrap();
    c
}

fn set(c: &mut AchievementSets, puzzles: Vec<u32>, tier: SetTier, bonus: i128, cap: Option<u32>, key: &str) -> u32 {
    c.create_set(ADMIN, format!("set {}", key), puzzles, tier, bonus, cap, key.to_string()).unwrap()
}

fn entry(player: u64, score: i128) -> SetLeaderboardEntry {
    SetLeaderboardEntry { player, score, timestamp: 0 }
}

#[test]
fn tier_bonus_values() {
    assert_eq!(AchievementSets::tier_bonus(SetTier::Common), 0);
    assert_eq!(AchievementSets::tier_bonus(SetTier::Rare), 50);
    assert_eq!(AchievementSets::tier_bonus(SetTier::Epic), 125);
    assert_eq!(AchievementSets::tier_bonus(SetTier::Legendary), 300);
    assert_eq!(AchievementSets::tier_bonus(SetTier::Mythic), 750);
}

#[test]
fn completion_helpers() {
    assert!(is_completed(&vec![1, 2], &vec![2, 1, 5]));
    assert!(!is_completed(&vec![1, 2], &vec![2]));
    assert_eq!(sync_completed(&vec![1, 2, 3], &vec![3, 9, 1]), vec![1, 3]);
}

#[test]
fn claim_set_bonus_once() {
    let mut c = setup(10);
    let id = set(&mut c, vec![1, 2], SetTier::Rare, 100, None, "rare_key");
    assert_eq!(c.claim_set_bonus(P1, id, &vec![1], 0), Err(SetsError::NotCompleted));
    assert_eq!(c.claim_set_bonus(P1, id, &vec![1, 2], 5), Ok(150));
    assert_eq!(c.claim_set_bonus(P1, id, &vec![1, 2], 6), Err(SetsError::AlreadyClaimed));
    let unlocks = c.get_unlocks(P1);
    assert_eq!(unlocks, vec!["rare_key".to_string()]);
    let progress = c.progress(P1, id).unwrap();
    assert!(progress.is_completed);
    assert!(progress.is_claimed);
    assert_eq!(progress.required_count, 2);
    assert_eq!(c.claim_set_bonus(P1, 99, &vec![], 0), Err(SetsError::SetNotFound));
}

#[test]
fn limited_edition_sets_issue_tokens_until_the_cap() {
    let mut c = setup(10);
    let id = set(&mut c, vec![1], SetTier::Common, 10, Some(1), "ltd");
    c.claim_set_bonus(P1, id, &vec![1], 0).unwrap();
    let tokens = c.edition_tokens_of(P1);
    assert_eq!(tokens.len(), 1);
    let token = c.get_edition_token(tokens[0]).unwrap();
    assert_eq!(token.set_id, id);
    assert_eq!(token.serial, 1);
    assert_eq!(token.owner, P1);
    assert_eq!(c.claim_set_bonus(P2, id, &vec![1], 0), Err(SetsError::LimitedEditionExhausted));
    assert_eq!(c.transfer_edition_token(P1, P1, tokens[0]), Err(SetsError::TransferToSelf));
    assert_eq!(c.transfer_edition_token(P2, P1, tokens[0]), Err(SetsError::NotOwner));
    c.transfer_edition_token(P1, P2, tokens[0]).unwrap();
    assert_eq!(c.get_edition_token(tokens[0]).unwrap().owner, P2);
    assert_eq!(c.edition_tokens_of(P2), tokens);
    assert_eq!(c.edition_tokens_of(P1).len(), 0);
}

#[test]
fn synergy_needs_every_set_completed() {
    let mut c = setup(10);
    let a = set(&mut c, vec![1], SetTier::Common, 10, None, "a");
    let b = set(&mut c, vec![2], SetTier::Common, 10, None, "b");
    assert_eq!(
        c.create_synergy(ADMIN, "one".to_string(), vec![a], 5, "s".to_string()).err(),
        Some(SetsError::SynergyNeedsTwoSets)
    );
    let s = c.create_synergy(ADMIN, "ab".to_string(), vec![a, b], 40, "syn".to_string()).unwrap();
    assert_eq!(c.claim_synergy_bonus(P1, s, &vec![1], 0), Err(SetsError::SynergyNotCompleted));
    assert_eq!(c.claim_synergy_bonus(P1, s, &vec![1, 2], 0), Ok(40));
    assert_eq!(c.claim_synergy_bonus(P1, s, &vec![1, 2], 0), Err(SetsError::AlreadyClaimed));
    assert!(c.get_unlocks(P1).contains(&"syn".to_string()));
}

#[test]
fn leaderboards_rank_by_total_bonus() {
    let mut c = setup(10);
    let small = set(&mut c, vec![1], SetTier::Common, 10, None, "s");
    let big = set(&mut c, vec![2], SetTier::Mythic, 100, None, "b");
    c.claim_set_bonus(P1, small, &vec![1], 1).unwrap();
    c.claim_set_bonus(P2, big, &vec![2], 2).unwrap();
    let global = c.get_global_leaderboard(10).unwrap();
    assert_eq!(global.iter().map(|e| (e.player, e.score)).collect::<Vec<_>>(), vec![(P2, 850), (P1, 10)]);
    c.claim_set_bonus(P1, big, &vec![2], 3).unwrap();
    let global = c.get_global_leaderboard(10).unwrap();
    assert_eq!(global.iter().map(|e| (e.player, e.score)).collect::<Vec<_>>(), vec![(P1, 860), (P2, 850)]);
    assert_eq!(c.get_global_leaderboard(1).unwrap().len(), 1);
    let per_set = c.get_set_leaderboard(big, 10).unwrap();
    assert_eq!(per_set.len(), 2);
}

#[test]
fn update_leaderboard_keeps_order_and_cap() {
    let lb = vec![entry(1, 50), entry(2, 30)];
    assert_eq!(update_leaderboard(&lb, entry(3, 40), 3), vec![entry(1, 50), entry(3, 40), entry(2, 30)]);
    assert_eq!(update_leaderboard(&lb, entry(3, 40), 2), vec![entry(1, 50), entry(3, 40)]);
    assert_eq!(update_leaderboard(&lb, entry(2, 60), 3), vec![entry(2, 60), entry(1, 50)]);
    assert_eq!(update_leaderboard(&lb, entry(3, 10), 2), vec![entry(1, 50), entry(2, 30)]);
}

#[test]
fn set_creation_errors() {
    let mut c = setup(10);
    assert_eq!(
        c.create_set(P1, "x".to_string(), vec![1], SetTier::Common, 1, None, "k".to_string()),
        Err(SetsError::AdminOnly)
    );
    assert_eq!(
        c.create_set(ADMIN, "x".to_string(), vec![], SetTier::Common, 1, None, "k".to_string()),
        Err(SetsError::EmptySet)
    );
    assert_eq!(
        c.create_set(ADMIN, "x".to_string(), vec![1], SetTier::Common, 0, None, "k".to_string()),
        Err(SetsError::BaseBonusNotPositive)
    );
    assert_eq!(
        c.create_set(ADMIN, "x".to_string(), vec![1], SetTier::Common, 1, Some(0), "k".to_string()),
        Err(SetsError::CapNotPositive)
    );
    let mut fresh = AchievementSets::new();
    assert_eq!(fresh.initialize(ADMIN, 50, 51, 0), Err(SetsError::MaxTopEntriesNotPositive));
}
