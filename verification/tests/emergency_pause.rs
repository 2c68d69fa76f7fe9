use puzzle_contracts::emergency_pause::{EmergencyPauseContract, PauseAction, PauseError};

const CONTRACT: u64 = 1000;
const ADMIN: u64 = 1;

fn setup() -> EmergencyPauseContract {
    let mut c = EmergencyPauseContract::new(CONTRACT);
    c.initialize(ADMIN).unwrap();
    c
}

fn paused_at(c: &mut EmergencyPauseContract, who: u64, now: u64) {
    c.pause(who, "Incident".to_string(), now).unwrap();
}

#[test]
fn emergency_pause_test_initialize_success() {
    let c = setup();
    let guardians = c.get_guardians().unwrap();
    assert_eq!(guardians, vec![ADMIN]);
    assert_eq!(c.get_timelock(), Ok(86_400));
    assert!(!c.is_paused());
}

#[test]
fn emergency_pause_test_initialize_twice_fails() {
    let mut c = setup();
    assert_eq!(c.initialize(ADMIN), Err(PauseError::AlreadyInitialized));
}

#[test]
fn test_pause_by_guardian() {
    let mut c = setup();
    c.pause(ADMIN, "Security incident detected".to_string(), 1000).unwrap();
    assert!(c.is_paused());
    let state = c.get_pause_state().unwrap();
    assert!(state.paused);
    assert_eq!(state.paused_at, 1000);
    assert_eq!(state.paused_by, ADMIN);
    assert_eq!(state.reason, "Security incident detected");
    assert_eq!(state.unpause_after, 0);
}

#[test]
fn test_pause_by_added_guardian() {
    let mut c = setup();
    c.add_guardian(2).unwrap();
    c.pause(2, "Guardian 2 pausing".to_string(), 0).unwrap();
    assert!(c.is_paused());
    assert_eq!(c.get_pause_state().unwrap().paused_by, 2);
}

#[test]
fn test_pause_by_non_guardian_fails() {
    let mut c = setup();
    assert_eq!(c.pause(99, "Unauthorized".to_string(), 0), Err(PauseError::Unauthorized));
}

#[test]
fn test_pause_when_already_paused_fails() {
    let mut c = setup();
    c.pause(ADMIN, "First pause".to_string(), 0).unwrap();
    assert_eq!(c.pause(ADMIN, "Second pause".to_string(), 0), Err(PauseError::AlreadyPaused));
}

#[test]
fn test_request_unpause() {
    let mut c = setup();
    paused_at(&mut c, ADMIN, 1000);
    let unpause_after = c.request_unpause(ADMIN, 2000).unwrap();
    assert_eq!(unpause_after, 2000 + 86_400);
    assert_eq!(c.get_pause_state().unwrap().unpause_after, unpause_after);
}

#[test]
fn test_request_unpause_when_not_paused_fails() {
    let mut c = setup();
    assert_eq!(c.request_unpause(ADMIN, 0), Err(PauseError::NotPaused));
}

#[test]
fn test_request_unpause_by_non_guardian_fails() {
    let mut c = setup();
    paused_at(&mut c, ADMIN, 0);
    assert_eq!(c.request_unpause(99, 0), Err(PauseError::Unauthorized));
}

#[test]
fn test_execute_unpause_after_timelock() {
    let mut c = setup();
    paused_at(&mut c, ADMIN, 1000);
    c.request_unpause(ADMIN, 2000).unwrap();
    c.execute_unpause(88_401).unwrap();
    assert!(!c.is_paused());
}

#[test]
fn test_execute_unpause_before_timelock_fails() {
    let mut c = setup();
    paused_at(&mut c, ADMIN, 1000);
    c.request_unpause(ADMIN, 2000).unwrap();
    assert_eq!(c.execute_unpause(50_000), Err(PauseError::TimelockNotExpired));
    assert!(c.is_paused());
}

#[test]
fn test_execute_unpause_without_request_fails() {
    let mut c = setup();
    paused_at(&mut c, ADMIN, 0);
    assert_eq!(c.execute_unpause(0), Err(PauseError::UnpauseNotRequested));
}

#[test]
fn test_execute_unpause_when_not_paused_fails() {
    let mut c = setup();
    assert_eq!(c.execute_unpause(0), Err(PauseError::NotPaused));
}

#[test]
fn test_execute_unpause_at_exact_timelock_boundary() {
    let mut c = setup();
    paused_at(&mut c, ADMIN, 1000);
    let unpause_after = c.request_unpause(ADMIN, 2000).unwrap();
    c.execute_unpause(unpause_after).unwrap();
    assert!(!c.is_paused());
}

#[test]
fn test_add_guardian() {
    let mut c = setup();
    c.add_guardian(2).unwrap();
    c.add_guardian(3).unwrap();
    assert_eq!(c.get_guardians().unwrap(), vec![ADMIN, 2, 3]);
}

#[test]
fn test_add_duplicate_guardian_fails() {
    let mut c = setup();
    assert_eq!(c.add_guardian(ADMIN), Err(PauseError::GuardianAlreadyExists));
}

#[test]
fn test_remove_guardian() {
    let mut c = setup();
    c.add_guardian(2).unwrap();
    c.remove_guardian(2).unwrap();
    assert_eq!(c.get_guardians().unwrap(), vec![ADMIN]);
}

#[test]
fn test_remove_nonexistent_guardian_fails() {
    let mut c = setup();
    assert_eq!(c.remove_guardian(99), Err(PauseError::GuardianNotFound));
}

#[test]
fn test_removed_guardian_cannot_pause() {
    let mut c = setup();
    c.add_guardian(2).unwrap();
    c.remove_guardian(2).unwrap();
    assert!(c.pause(2, "Trying to pause".to_string(), 0).is_err());
}

#[test]
fn test_set_timelock() {
    let mut c = setup();
    c.set_timelock(172_800).unwrap();
    assert_eq!(c.get_timelock(), Ok(172_800));
}

#[test]
fn test_set_timelock_zero_fails() {
    let mut c = setup();
    assert_eq!(c.set_timelock(0), Err(PauseError::InvalidTimelock));
}

#[test]
fn test_custom_timelock_affects_unpause() {
    let mut c = setup();
    c.set_timelock(3600).unwrap();
    paused_at(&mut c, ADMIN, 1000);
    let unpause_after = c.request_unpause(ADMIN, 2000).unwrap();
    assert_eq!(unpause_after, 2000 + 3600);
    assert!(c.execute_unpause(5000).is_err());
    c.execute_unpause(5601).unwrap();
    assert!(!c.is_paused());
}

#[test]
fn test_pause_history_records_events() {
    let mut c = setup();
    c.pause(ADMIN, "Breach detected".to_string(), 1000).unwrap();
    c.request_unpause(ADMIN, 2000).unwrap();
    c.execute_unpause(90_000).unwrap();
    let history = c.get_pause_history().unwrap();
    assert_eq!(history.len(), 3);
    assert_eq!(history[0].action, PauseAction::Paused);
    assert_eq!(history[0].timestamp, 1000);
    assert_eq!(history[0].actor, ADMIN);
    assert_eq!(history[1].action, PauseAction::UnpauseRequested);
    assert_eq!(history[1].timestamp, 2000);
    assert_eq!(history[2].action, PauseAction::Unpaused);
    assert_eq!(history[2].timestamp, 90_000);
    assert_eq!(history[2].actor, CONTRACT);
    assert_eq!(history[2].reason, "unpaused");
}

#[test]
fn test_empty_history_initially() {
    let c = setup();
    assert_eq!(c.get_pause_history().unwrap().len(), 0);
}

#[test]
fn test_full_pause_unpause_cycle() {
    let mut c = setup();
    assert!(!c.is_paused());
    c.pause(ADMIN, "Vulnerability found".to_string(), 100).unwrap();
    assert!(c.is_paused());
    let unpause_after = c.request_unpause(ADMIN, 200).unwrap();
    assert_eq!(unpause_after, 200 + 86_400);
    c.execute_unpause(unpause_after + 1).unwrap();
    assert!(!c.is_paused());
    c.pause(ADMIN, "Second incident".to_string(), unpause_after + 100).unwrap();
    assert!(c.is_paused());
    assert_eq!(c.get_pause_history().unwrap().len(), 4);
}

#[test]
fn test_multiple_guardians_lifecycle() {
    let mut c = setup();
    c.add_guardian(2).unwrap();
    c.add_guardian(3).unwrap();
    c.pause(2, "g2 detected issue".to_string(), 100).unwrap();
    assert!(c.is_paused());
    c.request_unpause(3, 200).unwrap();
    c.execute_unpause(200 + 86_400 + 1).unwrap();
    assert!(!c.is_paused());
    c.remove_guardian(2).unwrap();
    c.pause(3, "g3 pausing".to_string(), 200 + 86_400 + 2).unwrap();
    assert!(c.is_paused());
    assert!(c.request_unpause(2, 200 + 86_400 + 3).is_err());
}

#[test]
fn uninitialized_contract_refuses() {
    let mut c = EmergencyPauseContract::new(CONTRACT);
    assert_eq!(c.pause(ADMIN, "x".to_string(), 0), Err(PauseError::NotInitialized));
    assert_eq!(c.get_timelock(), Err(PauseError::NotInitialized));
    assert!(!c.is_paused());
}
