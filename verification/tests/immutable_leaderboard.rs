use puzzle_contracts::immutable_leaderboard::{ImmutableLeaderboard, LeaderboardError};

const ADMIN: u64 = 1;
const ORACLE: u64 = 2;

fn setup() -> ImmutableLeaderboard {
    let mut c = ImmutableLeaderboard::new();
    c.initialize(ADMIN, ORACLE).unwrap();
    c.create_period(ADMIN, 1, "season_1_xp".to_string()).unwrap();
    c
}

fn players(c: &ImmutableLeaderboard, period: u32) -> Vec<(u64, u64, u32)> {
    c.get_leaderboard(period).unwrap().entries.iter().map(|e| (e.player, e.score, e.rank)).collect()
}

#[test]
fn leaderboard_test_initialize() {
    let mut c = ImmutableLeaderboard::new();
    c.initialize(ADMIN, ORACLE).unwrap();
    c.create_period(ADMIN, 1, "test".to_string()).unwrap();
    c.submit_score(1, 10, 100, 0).unwrap();
}

#[test]
fn test_double_initialize() {
    let mut c = setup();
    assert_eq!(c.initialize(ADMIN, ORACLE), Err(LeaderboardError::AlreadyInitialized));
}

#[test]
fn test_create_period() {
    let c = setup();
    let period = c.get_leaderboard(1).unwrap();
    assert_eq!(period.period_id, 1);
    assert_eq!(period.context, "season_1_xp");
    assert_eq!(period.entries.len(), 0);
    assert!(!period.finalized);
    assert!(period.finalized_at.is_none());
    assert_eq!(c.get_all_periods("season_1_xp".to_string()), vec![1]);
}

#[test]
fn test_duplicate_period() {
    let mut c = setup();
    assert_eq!(c.create_period(ADMIN, 1, "season_1_xp".to_string()), Err(LeaderboardError::PeriodExists));
}

#[test]
fn test_submit_score_and_ranking() {
    let mut c = setup();
    c.submit_score(1, 12, 150, 0).unwrap();
    c.submit_score(1, 11, 200, 0).unwrap();
    c.submit_score(1, 13, 100, 0).unwrap();
    assert_eq!(players(&c, 1), vec![(11, 200, 1), (12, 150, 2), (13, 100, 3)]);
}

#[test]
fn test_player_score_update() {
    let mut c = setup();
    c.submit_score(1, 11, 100, 0).unwrap();
    c.submit_score(1, 12, 150, 0).unwrap();
    assert_eq!(players(&c, 1), vec![(12, 150, 1), (11, 100, 2)]);
    c.submit_score(1, 11, 200, 5).unwrap();
    assert_eq!(players(&c, 1), vec![(11, 200, 1), (12, 150, 2)]);
    assert_eq!(c.get_leaderboard(1).unwrap().entries[0].submitted_at, 5);
}

#[test]
fn test_top_100_cap() {
    let mut c = setup();
    c.submit_score(1, 11, 100, 0).unwrap();
    c.submit_score(1, 12, 90, 0).unwrap();
    c.submit_score(1, 13, 80, 0).unwrap();
    assert_eq!(players(&c, 1), vec![(11, 100, 1), (12, 90, 2), (13, 80, 3)]);
}

#[test]
fn board_keeps_only_the_top_hundred() {
    let mut c = setup();
    for p in 0..100u64 {
        c.submit_score(1, 1000 + p, 1000 + p, 0).unwrap();
    }
    assert_eq!(c.get_leaderboard(1).unwrap().entries.len(), 100);
    let before = players(&c, 1);
    assert_eq!(c.submit_score(1, 5, 10, 0), Err(LeaderboardError::NotRanked));
    assert_eq!(players(&c, 1), before);
    assert_eq!(c.get_player_rank(1, 5), Ok(None));
    c.submit_score(1, 6, 5000, 0).unwrap();
    let board = players(&c, 1);
    assert_eq!(board.len(), 100);
    assert_eq!(board[0], (6, 5000, 1));
    assert_eq!(board[99].1, 1001);
    assert_eq!(board[99].2, 100);
    assert!(board.windows(2).all(|w| w[0].1 >= w[1].1));
}

#[test]
fn test_finalize_period() {
    let mut c = setup();
    c.submit_score(1, 11, 100, 0).unwrap();
    let before = c.get_leaderboard(1).unwrap();
    assert!(!before.finalized);
    assert!(before.finalized_at.is_none());
    c.finalize_period(ADMIN, 1, 77).unwrap();
    let after = c.get_leaderboard(1).unwrap();
    assert!(after.finalized);
    assert_eq!(after.finalized_at, Some(77));
    assert_eq!(after.entries.len(), 1);
}

#[test]
fn test_double_finalize() {
    let mut c = setup();
    c.finalize_period(ADMIN, 1, 0).unwrap();
    assert_eq!(c.finalize_period(ADMIN, 1, 0), Err(LeaderboardError::AlreadyFinalized));
}

#[test]
fn test_submit_after_finalize() {
    let mut c = setup();
    c.finalize_period(ADMIN, 1, 0).unwrap();
    assert_eq!(c.submit_score(1, 11, 100, 0), Err(LeaderboardError::PeriodFinalized));
}

#[test]
fn test_get_player_rank() {
    let mut c = setup();
    c.submit_score(1, 11, 200, 0).unwrap();
    c.submit_score(1, 12, 150, 0).unwrap();
    c.submit_score(1, 13, 100, 0).unwrap();
    assert_eq!(c.get_player_rank(1, 11), Ok(Some((1, 200))));
    assert_eq!(c.get_player_rank(1, 12), Ok(Some((2, 150))));
    assert_eq!(c.get_player_rank(1, 13), Ok(Some((3, 100))));
    assert_eq!(c.get_player_rank(1, 14), Ok(None));
}

#[test]
fn test_multiple_contexts() {
    let mut c = setup();
    c.create_period(ADMIN, 2, "season_1_xp".to_string()).unwrap();
    c.create_period(ADMIN, 3, "tournament_1".to_string()).unwrap();
    let season = c.get_all_periods("season_1_xp".to_string());
    assert_eq!(season.len(), 2);
    assert!(season.contains(&1));
    assert!(season.contains(&2));
    assert_eq!(c.get_all_periods("tournament_1".to_string()), vec![3]);
}

#[test]
fn test_unauthorized_finalize() {
    let mut c = setup();
    assert_eq!(c.finalize_period(99, 1, 0), Err(LeaderboardError::AdminOnly));
}

#[test]
fn test_unauthorized_create_period() {
    let mut c = ImmutableLeaderboard::new();
    c.initialize(ADMIN, ORACLE).unwrap();
    assert_eq!(c.create_period(99, 1, "season_1_xp".to_string()), Err(LeaderboardError::AdminOnly));
}

#[test]
fn test_get_nonexistent_period() {
    let mut c = ImmutableLeaderboard::new();
    c.initialize(ADMIN, ORACLE).unwrap();
    assert_eq!(c.get_leaderboard(1).err(), Some(LeaderboardError::PeriodNotFound));
}
