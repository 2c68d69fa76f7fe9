use puzzle_contracts::event_ticket::{EventTicketContract, EventTicketError, TicketTier};

const ADMIN: u64 = 1;
const ORACLE: u64 = 2;

fn setup() -> EventTicketContract {
    let mut c = EventTicketContract::new();
    c.initialize(ADMIN, ORACLE).unwrap();
    c
}

fn event(c: &mut EventTicketContract, start_at: u64, end_at: u64, max_tickets: u64) -> u64 {
    c.create_event("Tournament".to_string(), start_at, end_at, max_tickets).unwrap()
}

#[test]
fn event_ticket_test_initialize() {
    let mut c = setup();
    assert_eq!(c.initialize(ADMIN, ORACLE), Err(EventTicketError::AlreadyInitialized));
}

#[test]
fn test_create_event() {
    let mut c = setup();
    let event_id = event(&mut c, 1000, 5000, 100);
    assert_eq!(event_id, 1);
    assert_eq!(c.get_attendance(event_id).unwrap().1, 0);
}

#[test]
fn test_issue_ticket() {
    let mut c = setup();
    let event_id = event(&mut c, 1000, 5000, 100);
    let token_id = c.issue_ticket(event_id, 10, TicketTier::General, 0).unwrap();
    assert_eq!(token_id, 1);
    assert_eq!(c.get_attendance(event_id).unwrap().1, 1);
    assert_eq!(c.get_tickets(10), vec![token_id]);
}

#[test]
fn test_max_tickets_cap() {
    let mut c = setup();
    let event_id = event(&mut c, 1000, 5000, 2);
    c.issue_ticket(event_id, 10, TicketTier::General, 0).unwrap();
    c.issue_ticket(event_id, 11, TicketTier::General, 0).unwrap();
    assert_eq!(c.issue_ticket(event_id, 12, TicketTier::General, 0), Err(EventTicketError::MaxTicketsReached));
}

#[test]
fn test_transfer_before_start() {
    let mut c = setup();
    let event_id = event(&mut c, 5000, 10000, 100);
    let token_id = c.issue_ticket(event_id, 10, TicketTier::General, 0).unwrap();
    c.transfer_ticket(token_id, 11, 1000).unwrap();
    assert_eq!(c.get_tickets(10).len(), 0);
    assert_eq!(c.get_tickets(11), vec![token_id]);
}

#[test]
fn test_transfer_after_start_rejection() {
    let mut c = setup();
    let event_id = event(&mut c, 1000, 5000, 100);
    let token_id = c.issue_ticket(event_id, 10, TicketTier::General, 0).unwrap();
    assert!(c.transfer_ticket(token_id, 11, 2000).is_err());
    assert_eq!(c.get_tickets(10), vec![token_id]);
}

#[test]
fn test_check_in() {
    let mut c = setup();
    let event_id = event(&mut c, 1000, 5000, 100);
    let token_id = c.issue_ticket(event_id, 10, TicketTier::General, 0).unwrap();
    c.check_in(token_id, 2000).unwrap();
    assert_eq!(c.get_attendance(event_id), Ok((1, 1)));
}

#[test]
fn test_check_in_before_event() {
    let mut c = setup();
    let event_id = event(&mut c, 1000, 5000, 100);
    let token_id = c.issue_ticket(event_id, 10, TicketTier::General, 0).unwrap();
    assert_eq!(c.check_in(token_id, 500), Err(EventTicketError::EventNotStarted));
}

#[test]
fn test_check_in_after_event() {
    let mut c = setup();
    let event_id = event(&mut c, 1000, 5000, 100);
    let token_id = c.issue_ticket(event_id, 10, TicketTier::General, 0).unwrap();
    assert_eq!(c.check_in(token_id, 6000), Err(EventTicketError::EventEnded));
}

#[test]
fn test_double_check_in() {
    let mut c = setup();
    let event_id = event(&mut c, 1000, 5000, 100);
    let token_id = c.issue_ticket(event_id, 10, TicketTier::General, 0).unwrap();
    c.check_in(token_id, 2000).unwrap();
    assert_eq!(c.check_in(token_id, 2001), Err(EventTicketError::AlreadyCheckedIn));
    assert_eq!(c.get_attendance(event_id), Ok((1, 1)));
}

#[test]
fn test_get_tickets() {
    let mut c = setup();
    let event_id = event(&mut c, 1000, 5000, 100);
    let t1 = c.issue_ticket(event_id, 10, TicketTier::General, 0).unwrap();
    let t2 = c.issue_ticket(event_id, 10, TicketTier::General, 0).unwrap();
    assert_eq!(c.get_tickets(10), vec![t1, t2]);
}

#[test]
fn test_attendance_stats() {
    let mut c = setup();
    let event_id = event(&mut c, 1000, 5000, 100);
    for holder in [10, 11, 12] {
        c.issue_ticket(event_id, holder, TicketTier::General, 0).unwrap();
    }
    assert_eq!(c.get_attendance(event_id), Ok((0, 3)));
}

#[test]
fn test_vip_and_backstage_tiers() {
    let mut c = setup();
    let event_id = event(&mut c, 1000, 5000, 100);
    let t1 = c.issue_ticket(event_id, 10, TicketTier::VIP, 0).unwrap();
    let t2 = c.issue_ticket(event_id, 11, TicketTier::Backstage, 0).unwrap();
    assert_eq!(c.get_attendance(event_id).unwrap().1, 2);
    assert_eq!(c.get_tickets(10), vec![t1]);
    assert_eq!(c.get_tickets(11), vec![t2]);
    assert_eq!(c.tickets.get(&t1).unwrap().tier, TicketTier::VIP);
}

#[test]
fn checked_in_ticket_cannot_move() {
    let mut c = setup();
    let event_id = event(&mut c, 1000, 5000, 100);
    let token_id = c.issue_ticket(event_id, 10, TicketTier::General, 0).unwrap();
    c.check_in(token_id, 1000).unwrap();
    assert!(c.transfer_ticket(token_id, 11, 1000).is_err());
    assert_eq!(c.check_in(99, 1000), Err(EventTicketError::TicketNotFound));
}
