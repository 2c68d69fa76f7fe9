//! Event tickets: the admin creates events and issues tickets up to each
//! event's cap; tickets move freely until the event starts; the oracle
//! checks holders in during the event, after which the ticket is bound.
use vstd::prelude::*;
use std::collections::HashMap;
use crate::util::{AccountId, vec_at, vec_or_empty, push_value, seq_without, without_u64, value_at, value_or};

verus! {

broadcast use vstd::std_specs::hash::group_hash_axioms;

#[derive(Clone, Copy, Debug, PartialEq, Eq, Structural)]
pub enum EventTicketError {
    NotInitialized,
    AlreadyInitialized,
    Unauthorized,
    EventNotFound,
    TicketNotFound,
    EventNotStarted,
    EventAlreadyStarted,
    EventEnded,
    MaxTicketsReached,
    TicketNotTransferable,
    NotTicketHolder,
    AlreadyCheckedIn,
    InvalidTier,
    Overflow,
}

#[derive(Clone, Copy, Debug, PartialEq, Eq, Structural)]
pub enum TicketTier {
    General,
    VIP,
    Backstage,
}

#[derive(Clone, Copy, Debug, PartialEq, Eq, Structural)]
pub enum EventStatus {
    Upcoming,
    Active,
    Ended,
}

#[derive(Clone, Copy, Debug, PartialEq, Eq, Structural)]
pub struct EventTicket {
    pub token_id: u64,
    pub event_id: u64,
    pub holder: AccountId,
    pub tier: TicketTier,
    pub transferable: bool,
    pub attended: bool,
    pub issued_at: u64,
}

pub struct Event {
    pub id: u64,
    pub name: String,
    pub start_at: u64,
    pub end_at: u64,
    pub max_tickets: u64,
    pub tickets_issued: u64,
    pub status: EventStatus,
}

#[derive(Clone, Copy, Debug, PartialEq, Eq, Structural)]
pub struct Config {
    pub admin: AccountId,
    pub oracle: AccountId,
    pub next_event_id: u64,
    pub next_token_id: u64,
}

/// The storage of the contract.
pub struct EventTicketContract {
    pub config: Option<Config>,
    pub events: HashMap<u64, Event>,
    pub tickets: HashMap<u64, EventTicket>,
    pub holder_tickets: HashMap<u64, Vec<u64>>,
    pub attendance: HashMap<u64, u64>,
}

impl EventTicketContract {
    /// No event has issued more tickets than its cap.
    pub open spec fn wf(&self) -> bool {
        forall|id: u64| #[trigger] self.events@.contains_key(id) ==> self.events@[id].tickets_issued
            <= self.events@[id].max_tickets
    }

    /// An empty contract.
    pub fn new() -> (r: Self)
        ensures
            r.config is None,
            r.events@ == Map::<u64, Event>::empty(),
            r.tickets@ == Map::<u64, EventTicket>::empty(),
            r.holder_tickets@ == Map::<u64, Vec<u64>>::empty(),
            r.attendance@ == Map::<u64, u64>::empty(),
            r.wf(),
    {
        EventTicketContract {
            config: None,
            events: HashMap::new(),
            tickets: HashMap::new(),
            holder_tickets: HashMap::new(),
            attendance: HashMap::new(),
        }
    }

    /// Stores the admin and the oracle; event and token ids start at 1.
    pub fn initialize(&mut self, admin: AccountId, oracle: AccountId) -> (r: Result<(), EventTicketError>)
        requires
            old(self).wf(),
        ensures
            final(self).wf(),
            old(self).config is Some ==> r == Err::<(), EventTicketError>(EventTicketError::AlreadyInitialized)
                && *final(self) == *old(self),
            old(self).config is None ==> r is Ok && *final(self) == (EventTicketContract {
                config: Some(Config { admin, oracle, next_event_id: 1, next_token_id: 1 }),
                ..*old(self)
            }),
    {
        if self.config.is_some() {
            return Err(EventTicketError::AlreadyInitialized);
        }
        self.config = Some(Config { admin, oracle, next_event_id: 1, next_token_id: 1 });
        Ok(())
    }

    /// Creates an event under the next id (the admin's call); an event that
    /// does not start before it ends is refused with `EventNotFound`, as the
    /// contract does. Returns the id.
    pub fn create_event(&mut self, name: String, start_at: u64, end_at: u64, max_tickets: u64) -> (r: Result<
        u64,
        EventTicketError,
    >)
        requires
            old(self).wf(),
        ensures
            final(self).wf(),
            match (if old(self).config is None {
                Some(EventTicketError::NotInitialized)
            } else if start_at >= end_at {
                Some(EventTicketError::EventNotFound)
            } else if old(self).config.unwrap().next_event_id == u64::MAX {
                Some(EventTicketError::Overflow)
            } else {
                None
            }) {
                Some(e) => r == Err::<u64, EventTicketError>(e) && *final(self) == *old(self),
                None => {
                    let cfg = old(self).config.unwrap();
                    let id = cfg.next_event_id;
                    &&& r == Ok::<u64, EventTicketError>(id)
                    &&& final(self).config == Some(Config { next_event_id: (id + 1) as u64, ..cfg })
                    &&& final(self).events@ == old(self).events@.insert(
                        id,
                        Event {
                            id,
                            name,
                            start_at,
                            end_at,
                            max_tickets,
                            tickets_issued: 0,
                            status: EventStatus::Upcoming,
                        },
                    )
                    &&& final(self).tickets@ == old(self).tickets@
                    &&& final(self).holder_tickets@ == old(self).holder_tickets@
                    &&& final(self).attendance@ == old(self).attendance@
                },
            },
    {
        let mut cfg = match self.config {
            Some(c) => c,
            None => return Err(EventTicketError::NotInitialized),
        };
        if start_at >= end_at {
            return Err(EventTicketError::EventNotFound);
        }
        if cfg.next_event_id == u64::MAX {
            return Err(EventTicketError::Overflow);
        }
        let id = cfg.next_event_id;
        cfg.next_event_id = id + 1;
        let ghost old_events = self.events@;
        self.events.insert(
            id,
            Event { id, name, start_at, end_at, max_tickets, tickets_issued: 0, status: EventStatus::Upcoming },
        );
        self.config = Some(cfg);
        assert forall|k: u64| #[trigger] self.events@.contains_key(k) implies self.events@[k].tickets_issued
            <= self.events@[k].max_tickets by {
            if k != id {
                assert(old_events.contains_key(k));
            }
        }
        Ok(id)
    }

    /// The error of `issue_ticket`, checked in the order of the contract.
    pub open spec fn issue_error(&self, event_id: u64) -> Option<EventTicketError> {
        if self.config is None {
            Some(EventTicketError::NotInitialized)
        } else if !self.events@.contains_key(event_id) {
            Some(EventTicketError::EventNotFound)
        } else if self.events@[event_id].tickets_issued >= self.events@[event_id].max_tickets {
            Some(EventTicketError::MaxTicketsReached)
        } else if self.config.unwrap().next_token_id == u64::MAX {
            Some(EventTicketError::Overflow)
        } else {
            None
        }
    }

    /// Issues a transferable ticket of `tier` to `recipient` at time `now`
    /// (the admin's call); returns its token id.
    pub fn issue_ticket(&mut self, event_id: u64, recipient: AccountId, tier: TicketTier, now: u64) -> (r: Result<
        u64,
        EventTicketError,
    >)
        requires
            old(self).wf(),
        ensures
            final(self).wf(),
            match old(self).issue_error(event_id) {
                Some(e) => r == Err::<u64, EventTicketError>(e) && *final(self) == *old(self),
                None => {
                    let cfg = old(self).config.unwrap();
                    let id = cfg.next_token_id;
                    let ev = old(self).events@[event_id];
                    &&& r == Ok::<u64, EventTicketError>(id)
                    &&& final(self).config == Some(Config { next_token_id: (id + 1) as u64, ..cfg })
                    &&& final(self).tickets@ == old(self).tickets@.insert(
                        id,
                        EventTicket {
                            token_id: id,
                            event_id,
                            holder: recipient,
                            tier,
                            transferable: true,
                            attended: false,
                            issued_at: now,
                        },
                    )
                    &&& final(self).events@ == old(self).events@.insert(
                        event_id,
                        Event { tickets_issued: (ev.tickets_issued + 1) as u64, ..ev },
                    )
                    &&& forall|a: u64| #[trigger] vec_at(final(self).holder_tickets@, a) == if a == recipient {
                        vec_at(old(self).holder_tickets@, a).push(id)
                    } else {
                        vec_at(old(self).holder_tickets@, a)
                    }
                    &&& final(self).attendance@ == old(self).attendance@
                },
            },
    {
        let mut cfg = match self.config {
            Some(c) => c,
            None => return Err(EventTicketError::NotInitialized),
        };
        match self.events.get(&event_id) {
            Some(e) => {
                if e.tickets_issued >= e.max_tickets {
                    return Err(EventTicketError::MaxTicketsReached);
                }
            },
            None => return Err(EventTicketError::EventNotFound),
        }
        if cfg.next_token_id == u64::MAX {
            return Err(EventTicketError::Overflow);
        }
        let id = cfg.next_token_id;
        cfg.next_token_id = id + 1;
        self.tickets.insert(
            id,
            EventTicket { token_id: id, event_id, holder: recipient, tier, transferable: true, attended: false, issued_at: now },
        );
        let ghost old_events = self.events@;
        let mut ev = self.events.remove(&event_id).unwrap();
        ev.tickets_issued = ev.tickets_issued + 1;
        self.events.insert(event_id, ev);
        self.config = Some(cfg);
        push_value(&mut self.holder_tickets, recipient, id);
        assert forall|k: u64| #[trigger] self.events@.contains_key(k) implies self.events@[k].tickets_issued
            <= self.events@[k].max_tickets by {
            assert(old_events.contains_key(k));
        }
        Ok(id)
    }

    /// The error of `transfer_ticket`, checked in the order of the contract.
    pub open spec fn transfer_error(&self, token_id: u64, now: u64) -> Option<EventTicketError> {
        if !self.tickets@.contains_key(token_id) {
            Some(EventTicketError::TicketNotFound)
        } else if !self.events@.contains_key(self.tickets@[token_id].event_id) {
            Some(EventTicketError::EventNotFound)
        } else if !self.tickets@[token_id].transferable {
            Some(EventTicketError::TicketNotTransferable)
        } else if now >= self.events@[self.tickets@[token_id].event_id].start_at {
            Some(EventTicketError::EventAlreadyStarted)
        } else {
            None
        }
    }

    /// Moves a transferable ticket to `new_holder` before its event starts
    /// (the holder's call).
    pub fn transfer_ticket(&mut self, token_id: u64, new_holder: AccountId, now: u64) -> (r: Result<(), EventTicketError>)
        requires
            old(self).wf(),
        ensures
            final(self).wf(),
            match old(self).transfer_error(token_id, now) {
                Some(e) => r == Err::<(), EventTicketError>(e) && *final(self) == *old(self),
                None => {
                    let t = old(self).tickets@[token_id];
                    let ids0 = old(self).holder_tickets@;
                    &&& r is Ok
                    &&& final(self).tickets@ == old(self).tickets@.insert(token_id, EventTicket { holder: new_holder, ..t })
                    &&& forall|a: u64| #[trigger] vec_at(final(self).holder_tickets@, a) == if a == new_holder {
                        (if new_holder == t.holder {
                            seq_without(vec_at(ids0, a), token_id)
                        } else {
                            vec_at(ids0, a)
                        }).push(token_id)
                    } else if a == t.holder {
                        seq_without(vec_at(ids0, a), token_id)
                    } else {
                        vec_at(ids0, a)
                    }
                    &&& final(self).events@ == old(self).events@
                    &&& final(self).attendance@ == old(self).attendance@
                    &&& final(self).config == old(self).config
                },
            },
    {
        let t = match self.tickets.get(&token_id) {
            Some(t) => *t,
            None => return Err(EventTicketError::TicketNotFound),
        };
        let start = match self.events.get(&t.event_id) {
            Some(e) => e.start_at,
            None => return Err(EventTicketError::EventNotFound),
        };
        if !t.transferable {
            return Err(EventTicketError::TicketNotTransferable);
        }
        if now >= start {
            return Err(EventTicketError::EventAlreadyStarted);
        }
        self.tickets.insert(token_id, EventTicket { holder: new_holder, ..t });
        let ghost h0 = self.holder_tickets@;
        let old_ids = vec_or_empty(&self.holder_tickets, &t.holder);
        self.holder_tickets.insert(t.holder, without_u64(&old_ids, token_id));
        let ghost h1 = self.holder_tickets@;
        push_value(&mut self.holder_tickets, new_holder, token_id);
        assert forall|a: u64| #[trigger] vec_at(self.holder_tickets@, a) == if a == new_holder {
            (if new_holder == t.holder {
                seq_without(vec_at(h0, a), token_id)
            } else {
                vec_at(h0, a)
            }).push(token_id)
        } else if a == t.holder {
            seq_without(vec_at(h0, a), token_id)
        } else {
            vec_at(h0, a)
        } by {
            assert(vec_at(h1, a) == if a == t.holder { seq_without(vec_at(h0, a), token_id) } else { vec_at(h0, a) });
        }
        Ok(())
    }

    /// The error of `check_in`, checked in the order of the contract.
    pub open spec fn check_in_error(&self, token_id: u64, now: u64) -> Option<EventTicketError> {
        if self.config is None {
            Some(EventTicketError::NotInitialized)
        } else if !self.tickets@.contains_key(token_id) {
            Some(EventTicketError::TicketNotFound)
        } else if !self.events@.contains_key(self.tickets@[token_id].event_id) {
            Some(EventTicketError::EventNotFound)
        } else if now < self.events@[self.tickets@[token_id].event_id].start_at {
            Some(EventTicketError::EventNotStarted)
        } else if now > self.events@[self.tickets@[token_id].event_id].end_at {
            Some(EventTicketError::EventEnded)
        } else if self.tickets@[token_id].attended {
            Some(EventTicketError::AlreadyCheckedIn)
        } else if value_at(self.attendance@, self.tickets@[token_id].event_id, 0) == u64::MAX {
            Some(EventTicketError::Overflow)
        } else {
            None
        }
    }

    /// Checks a ticket in during its event (the oracle's call): it is marked
    /// attended and can no longer move, and the event's attendance grows.
    pub fn check_in(&mut self, token_id: u64, now: u64) -> (r: Result<(), EventTicketError>)
        requires
            old(self).wf(),
        ensures
            r is Ok ==> forall|t: u64| #[trigger] final(self).check_in_error(token_id, t) is Some,
            final(self).wf(),
            match old(self).check_in_error(token_id, now) {
                Some(e) => r == Err::<(), EventTicketError>(e) && *final(self) == *old(self),
                None => {
                    let t = old(self).tickets@[token_id];
                    &&& r is Ok
                    &&& final(self).tickets@ == old(self).tickets@.insert(
                        token_id,
                        EventTicket { attended: true, transferable: false, ..t },
                    )
                    &&& final(self).attendance@ == old(self).attendance@.insert(
                        t.event_id,
                        (value_at(old(self).attendance@, t.event_id, 0) + 1) as u64,
                    )
                    &&& final(self).events@ == old(self).events@
                    &&& final(self).holder_tickets@ == old(self).holder_tickets@
                    &&& final(self).config == old(self).config
                },
            },
    {
        if self.config.is_none() {
            return Err(EventTicketError::NotInitialized);
        }
        let t = match self.tickets.get(&token_id) {
            Some(t) => *t,
            None => return Err(EventTicketError::TicketNotFound),
        };
        match self.events.get(&t.event_id) {
            Some(e) => {
                if now < e.start_at {
                    return Err(EventTicketError::EventNotStarted);
                }
                if now > e.end_at {
                    return Err(EventTicketError::EventEnded);
                }
            },
            None => return Err(EventTicketError::EventNotFound),
        }
        if t.attended {
            return Err(EventTicketError::AlreadyCheckedIn);
        }
        let attended = value_or(&self.attendance, &t.event_id, 0);
        if attended == u64::MAX {
            return Err(EventTicketError::Overflow);
        }
        self.tickets.insert(token_id, EventTicket { attended: true, transferable: false, ..t });
        self.attendance.insert(t.event_id, attended + 1);
        Ok(())
    }

    /// The tickets that `holder` holds, in order of receipt.
    pub fn get_tickets(&self, holder: AccountId) -> (r: Vec<u64>)
        ensures
            r@ == vec_at(self.holder_tickets@, holder),
    {
        vec_or_empty(&self.holder_tickets, &holder)
    }

    /// The attendance and the tickets issued of an event.
    pub fn get_attendance(&self, event_id: u64) -> (r: Result<(u64, u64), EventTicketError>)
        ensures
            !self.events@.contains_key(event_id) ==> r == Err::<(u64, u64), EventTicketError>(
                EventTicketError::EventNotFound,
            ),
            self.events@.contains_key(event_id) ==> r == Ok::<(u64, u64), EventTicketError>(
                (value_at(self.attendance@, event_id, 0), self.events@[event_id].tickets_issued),
            ),
    {
        match self.events.get(&event_id) {
            Some(e) => Ok((value_or(&self.attendance, &event_id, 0), e.tickets_issued)),
            None => Err(EventTicketError::EventNotFound),
        }
    }

    /// Replaces the oracle (the admin's call).
    pub fn set_oracle(&mut self, new_oracle: AccountId) -> (r: Result<(), EventTicketError>)
        requires
            old(self).wf(),
        ensures
            final(self).wf(),
            old(self).config is None ==> r == Err::<(), EventTicketError>(EventTicketError::NotInitialized)
                && *final(self) == *old(self),
            old(self).config is Some ==> r is Ok && *final(self) == (EventTicketContract {
                config: Some(Config { oracle: new_oracle, ..old(self).config.unwrap() }),
                ..*old(self)
            }),
    {
        let mut cfg = match self.config {
            Some(c) => c,
            None => return Err(EventTicketError::NotInitialized),
        };
        cfg.oracle = new_oracle;
        self.config = Some(cfg);
        Ok(())
    }
}

/// Tickets move only strictly before their event starts, and are checked
/// in only during the event, its first and last second included: outside
/// those times the calls are refused, and inside them the time is no reason
/// to refuse.
pub proof fn lemma_ticket_time_windows(c: EventTicketContract, token_id: u64, now: u64)
    requires
        c.tickets@.contains_key(token_id),
        c.events@.contains_key(c.tickets@[token_id].event_id),
    ensures
        ({
            let e = c.events@[c.tickets@[token_id].event_id];
            &&& now >= e.start_at ==> c.transfer_error(token_id, now) is Some
            &&& c.transfer_error(token_id, now) is None <==> (now < e.start_at && c.tickets@[token_id].transferable)
            &&& (now < e.start_at || now > e.end_at) && c.config is Some ==> c.check_in_error(token_id, now) is Some
            &&& c.check_in_error(token_id, now) is None ==> e.start_at <= now <= e.end_at
        }),
{
}

} // verus!
