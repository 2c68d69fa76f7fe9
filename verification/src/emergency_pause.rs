//! An emergency switch: guardians pause the system at once; unpausing takes
//! a guardian's request and then a timelock; every step is recorded.
use vstd::prelude::*;
use crate::util::{AccountId, contains_u64, seq_without, without_u64};

verus! {

/// The default unpause timelock: one day, in seconds.
pub const DEFAULT_TIMELOCK: u64 = 86400;

#[derive(Clone, Copy, Debug, PartialEq, Eq, Structural)]
pub enum PauseError {
    AlreadyInitialized,
    NotInitialized,
    Unauthorized,
    AlreadyPaused,
    NotPaused,
    UnpauseNotRequested,
    TimelockNotExpired,
    GuardianAlreadyExists,
    GuardianNotFound,
    InvalidTimelock,
    Overflow,
}

pub struct PauseState {
    pub paused: bool,
    pub paused_at: u64,
    pub paused_by: AccountId,
    pub reason: String,
    /// When the unpause may execute; 0 until one is requested.
    pub unpause_after: u64,
}

#[derive(Clone, Copy, Debug, PartialEq, Eq, Structural)]
pub enum PauseAction {
    Paused,
    UnpauseRequested,
    Unpaused,
}

pub struct PauseEvent {
    pub action: PauseAction,
    pub actor: AccountId,
    pub reason: String,
    pub timestamp: u64,
}

/// The storage of the contract; `contract` is its own account.
pub struct EmergencyPauseContract {
    pub contract: AccountId,
    pub admin: Option<AccountId>,
    pub guardians: Vec<AccountId>,
    pub pause_state: Option<PauseState>,
    pub timelock: u64,
    pub history: Vec<PauseEvent>,
}

impl PauseState {
    pub fn copy(&self) -> (r: PauseState)
        ensures
            r == *self,
    {
        PauseState {
            paused: self.paused,
            paused_at: self.paused_at,
            paused_by: self.paused_by,
            reason: self.reason.clone(),
            unpause_after: self.unpause_after,
        }
    }
}

impl PauseEvent {
    pub fn copy(&self) -> (r: PauseEvent)
        ensures
            r == *self,
    {
        PauseEvent { action: self.action, actor: self.actor, reason: self.reason.clone(), timestamp: self.timestamp }
    }
}

impl EmergencyPauseContract {
    /// Whether the system is paused.
    pub open spec fn paused(&self) -> bool {
        self.pause_state matches Some(s) && s.paused
    }

    /// The error of the guardians' calls.
    pub open spec fn guardian_error(&self, guardian: AccountId) -> Option<PauseError> {
        if self.admin is None {
            Some(PauseError::NotInitialized)
        } else if !self.guardians@.contains(guardian) {
            Some(PauseError::Unauthorized)
        } else {
            None
        }
    }

    /// A contract with empty storage, deployed at `contract`.
    pub fn new(contract: AccountId) -> (r: Self)
        ensures
            r.contract == contract,
            r.admin is None,
            r.guardians@.len() == 0,
            r.pause_state is None,
            r.timelock == 0,
            r.history@.len() == 0,
    {
        EmergencyPauseContract {
            contract,
            admin: None,
            guardians: Vec::new(),
            pause_state: None,
            timelock: 0,
            history: Vec::new(),
        }
    }

    /// Stores the admin as the first guardian, with the default timelock.
    pub fn initialize(&mut self, admin: AccountId) -> (r: Result<(), PauseError>)
        ensures
            old(self).admin is Some ==> r == Err::<(), PauseError>(PauseError::AlreadyInitialized) && *final(self)
                == *old(self),
            old(self).admin is None ==> {
                &&& r is Ok
                &&& final(self).admin == Some(admin)
                &&& final(self).guardians@ == seq![admin]
                &&& final(self).timelock == DEFAULT_TIMELOCK
                &&& final(self).history@.len() == 0
                &&& final(self).pause_state == old(self).pause_state
                &&& final(self).contract == old(self).contract
            },
    {
        if self.admin.is_some() {
            return Err(PauseError::AlreadyInitialized);
        }
        self.admin = Some(admin);
        let mut g: Vec<AccountId> = Vec::new();
        g.push(admin);
        self.guardians = g;
        self.timelock = DEFAULT_TIMELOCK;
        self.history = Vec::new();
        Ok(())
    }

    /// Pauses the system at time `now`; a guardian only, not already paused.
    pub fn pause(&mut self, guardian: AccountId, reason: String, now: u64) -> (r: Result<(), PauseError>)
        ensures
            match (if old(self).guardian_error(guardian) is Some {
                old(self).guardian_error(guardian)
            } else if old(self).paused() {
                Some(PauseError::AlreadyPaused)
            } else {
                None
            }) {
                Some(e) => r == Err::<(), PauseError>(e) && *final(self) == *old(self),
                None => {
                    let s = final(self).pause_state.unwrap();
                    let ev = final(self).history@.last();
                    &&& r is Ok
                    &&& final(self).paused()
                    &&& s.paused_at == now && s.paused_by == guardian && s.reason@ == reason@
                    &&& s.unpause_after == 0
                    &&& final(self).history@.drop_last() == old(self).history@
                    &&& final(self).history@.len() == old(self).history@.len() + 1
                    &&& ev.action == PauseAction::Paused && ev.actor == guardian && ev.reason@ == reason@
                    &&& ev.timestamp == now
                    &&& final(self).admin == old(self).admin
                    &&& final(self).guardians@ == old(self).guardians@
                    &&& final(self).timelock == old(self).timelock
                    &&& final(self).contract == old(self).contract
                },
            },
    {
        if self.admin.is_none() {
            return Err(PauseError::NotInitialized);
        }
        if !contains_u64(&self.guardians, guardian) {
            return Err(PauseError::Unauthorized);
        }
        let already = match &self.pause_state {
            Some(s) => s.paused,
            None => false,
        };
        if already {
            return Err(PauseError::AlreadyPaused);
        }
        let ghost h = self.history@;
        self.pause_state = Some(
            PauseState { paused: true, paused_at: now, paused_by: guardian, reason: reason.clone(), unpause_after: 0 },
        );
        self.history.push(PauseEvent { action: PauseAction::Paused, actor: guardian, reason, timestamp: now });
        assert(self.history@.drop_last() =~= h);
        Ok(())
    }

    /// Asks to unpause at time `now`: the unpause may execute once the
    /// timelock has passed. A guardian only; returns that time.
    pub fn request_unpause(&mut self, guardian: AccountId, now: u64) -> (r: Result<u64, PauseError>)
        ensures
            match (if old(self).guardian_error(guardian) is Some {
                old(self).guardian_error(guardian)
            } else if !old(self).paused() {
                Some(PauseError::NotPaused)
            } else if now + old(self).timelock > u64::MAX {
                Some(PauseError::Overflow)
            } else {
                None
            }) {
                Some(e) => r == Err::<u64, PauseError>(e) && *final(self) == *old(self),
                None => {
                    let after = (now + old(self).timelock) as u64;
                    let ps = old(self).pause_state.unwrap();
                    let ev = final(self).history@.last();
                    &&& r == Ok::<u64, PauseError>(after)
                    &&& final(self).pause_state == Some(PauseState { unpause_after: after, ..ps })
                    &&& final(self).history@.drop_last() == old(self).history@
                    &&& final(self).history@.len() == old(self).history@.len() + 1
                    &&& ev.action == PauseAction::UnpauseRequested && ev.actor == guardian
                    &&& ev.reason@ == "unpause_requested"@ && ev.timestamp == now
                    &&& final(self).admin == old(self).admin
                    &&& final(self).guardians@ == old(self).guardians@
                    &&& final(self).timelock == old(self).timelock
                    &&& final(self).contract == old(self).contract
                },
            },
    {
        if self.admin.is_none() {
            return Err(PauseError::NotInitialized);
        }
        if !contains_u64(&self.guardians, guardian) {
            return Err(PauseError::Unauthorized);
        }
        let mut state = match self.pause_state.take() {
            Some(s) => s,
            None => return Err(PauseError::NotPaused),
        };
        if !state.paused || now > u64::MAX - self.timelock {
            let e = if !state.paused { PauseError::NotPaused } else { PauseError::Overflow };
            self.pause_state = Some(state);
            return Err(e);
        }
        let after = now + self.timelock;
        state.unpause_after = after;
        self.pause_state = Some(state);
        let ghost h = self.history@;
        self.history.push(
            PauseEvent {
                action: PauseAction::UnpauseRequested,
                actor: guardian,
                reason: "unpause_requested".to_owned(),
                timestamp: now,
            },
        );
        assert(self.history@.drop_last() =~= h);
        Ok(after)
    }

    /// Lifts the pause at time `now` once a requested unpause's timelock has
    /// passed.
    pub fn execute_unpause(&mut self, now: u64) -> (r: Result<(), PauseError>)
        ensures
            r is Ok ==> old(self).pause_state is Some && old(self).pause_state.unwrap().unpause_after > 0 && now >= old(self).pause_state.unwrap().unpause_after,
            match (if old(self).admin is None {
                Some(PauseError::NotInitialized)
            } else if !old(self).paused() {
                Some(PauseError::NotPaused)
            } else if old(self).pause_state.unwrap().unpause_after == 0 {
                Some(PauseError::UnpauseNotRequested)
            } else if now < old(self).pause_state.unwrap().unpause_after {
                Some(PauseError::TimelockNotExpired)
            } else {
                None
            }) {
                Some(e) => r == Err::<(), PauseError>(e) && *final(self) == *old(self),
                None => {
                    let ev = final(self).history@.last();
                    &&& r is Ok
                    &&& final(self).pause_state is None
                    &&& !final(self).paused()
                    &&& final(self).history@.drop_last() == old(self).history@
                    &&& final(self).history@.len() == old(self).history@.len() + 1
                    &&& ev.action == PauseAction::Unpaused && ev.actor == old(self).contract
                    &&& ev.reason@ == "unpaused"@ && ev.timestamp == now
                    &&& final(self).admin == old(self).admin
                    &&& final(self).guardians@ == old(self).guardians@
                    &&& final(self).timelock == old(self).timelock
                    &&& final(self).contract == old(self).contract
                },
            },
    {
        if self.admin.is_none() {
            return Err(PauseError::NotInitialized);
        }
        match &self.pause_state {
            None => return Err(PauseError::NotPaused),
            Some(s) => {
                if !s.paused {
                    return Err(PauseError::NotPaused);
                }
                if s.unpause_after == 0 {
                    return Err(PauseError::UnpauseNotRequested);
                }
                if now < s.unpause_after {
                    return Err(PauseError::TimelockNotExpired);
                }
            },
        }
        self.pause_state = None;
        let ghost h = self.history@;
        self.history.push(
            PauseEvent { action: PauseAction::Unpaused, actor: self.contract, reason: "unpaused".to_owned(), timestamp: now },
        );
        assert(self.history@.drop_last() =~= h);
        Ok(())
    }

    /// Whether the system is paused.
    pub fn is_paused(&self) -> (r: bool)
        ensures
            r == self.paused(),
    {
        match &self.pause_state {
            Some(s) => s.paused,
            None => false,
        }
    }

    /// The pause record.
    pub fn get_pause_state(&self) -> (r: Result<PauseState, PauseError>)
        ensures
            self.admin is None ==> r == Err::<PauseState, PauseError>(PauseError::NotInitialized),
            self.admin is Some && self.pause_state is None ==> r == Err::<PauseState, PauseError>(PauseError::NotPaused),
            self.admin is Some && self.pause_state is Some ==> r == Ok::<PauseState, PauseError>(
                self.pause_state.unwrap(),
            ),
    {
        if self.admin.is_none() {
            return Err(PauseError::NotInitialized);
        }
        match &self.pause_state {
            Some(s) => Ok(s.copy()),
            None => Err(PauseError::NotPaused),
        }
    }

    /// Adds a guardian (the admin's call).
    pub fn add_guardian(&mut self, new_guardian: AccountId) -> (r: Result<(), PauseError>)
        ensures
            old(self).admin is None ==> r == Err::<(), PauseError>(PauseError::NotInitialized) && *final(self)
                == *old(self),
            old(self).admin is Some && old(self).guardians@.contains(new_guardian) ==> r == Err::<(), PauseError>(
                PauseError::GuardianAlreadyExists,
            ) && *final(self) == *old(self),
            old(self).admin is Some && !old(self).guardians@.contains(new_guardian) ==> r is Ok && final(self).guardians@
                == old(self).guardians@.push(new_guardian) && final(self).admin == old(self).admin && final(
                self).pause_state == old(self).pause_state && final(self).timelock == old(self).timelock && final(
                self).history@ == old(self).history@ && final(self).contract == old(self).contract,
    {
        if self.admin.is_none() {
            return Err(PauseError::NotInitialized);
        }
        if contains_u64(&self.guardians, new_guardian) {
            return Err(PauseError::GuardianAlreadyExists);
        }
        self.guardians.push(new_guardian);
        Ok(())
    }

    /// Removes a guardian (the admin's call).
    pub fn remove_guardian(&mut self, guardian: AccountId) -> (r: Result<(), PauseError>)
        ensures
            old(self).admin is None ==> r == Err::<(), PauseError>(PauseError::NotInitialized) && *final(self)
                == *old(self),
            old(self).admin is Some && !old(self).guardians@.contains(guardian) ==> r == Err::<(), PauseError>(
                PauseError::GuardianNotFound,
            ) && *final(self) == *old(self),
            old(self).admin is Some && old(self).guardians@.contains(guardian) ==> r is Ok && final(self).guardians@
                == seq_without(old(self).guardians@, guardian) && final(self).admin == old(self).admin && final(
                self).pause_state == old(self).pause_state && final(self).timelock == old(self).timelock && final(
                self).history@ == old(self).history@ && final(self).contract == old(self).contract,
    {
        if self.admin.is_none() {
            return Err(PauseError::NotInitialized);
        }
        if !contains_u64(&self.guardians, guardian) {
            return Err(PauseError::GuardianNotFound);
        }
        self.guardians = without_u64(&self.guardians, guardian);
        Ok(())
    }

    /// The guardians, in order.
    pub fn get_guardians(&self) -> (r: Result<Vec<AccountId>, PauseError>)
        ensures
            self.admin is None ==> r == Err::<Vec<AccountId>, PauseError>(PauseError::NotInitialized),
            self.admin is Some ==> r is Ok && r.unwrap()@ == self.guardians@,
    {
        if self.admin.is_none() {
            return Err(PauseError::NotInitialized);
        }
        Ok(crate::util::copy_vec(&self.guardians))
    }

    /// Sets the unpause timelock (the admin's call); it must be positive.
    pub fn set_timelock(&mut self, duration: u64) -> (r: Result<(), PauseError>)
        ensures
            old(self).admin is None ==> r == Err::<(), PauseError>(PauseError::NotInitialized) && *final(self)
                == *old(self),
            old(self).admin is Some && duration == 0 ==> r == Err::<(), PauseError>(PauseError::InvalidTimelock)
                && *final(self) == *old(self),
            old(self).admin is Some && duration > 0 ==> r is Ok && *final(self) == (EmergencyPauseContract {
                timelock: duration,
                ..*old(self)
            }),
    {
        if self.admin.is_none() {
            return Err(PauseError::NotInitialized);
        }
        if duration == 0 {
            return Err(PauseError::InvalidTimelock);
        }
        self.timelock = duration;
        Ok(())
    }

    /// The unpause timelock.
    pub fn get_timelock(&self) -> (r: Result<u64, PauseError>)
        ensures
            self.admin is None ==> r == Err::<u64, PauseError>(PauseError::NotInitialized),
            self.admin is Some ==> r == Ok::<u64, PauseError>(self.timelock),
    {
        if self.admin.is_none() {
            return Err(PauseError::NotInitialized);
        }
        Ok(self.timelock)
    }

    /// The recorded pause events, in order.
    pub fn get_pause_history(&self) -> (r: Result<Vec<PauseEvent>, PauseError>)
        ensures
            self.admin is None ==> r == Err::<Vec<PauseEvent>, PauseError>(PauseError::NotInitialized),
            self.admin is Some ==> r is Ok && r.unwrap()@ == self.history@,
    {
        if self.admin.is_none() {
            return Err(PauseError::NotInitialized);
        }
        let mut r: Vec<PauseEvent> = Vec::new();
        let mut i: usize = 0;
        while i < self.history.len()
            invariant
                i <= self.history.len(),
                r@ == self.history@.take(i as int),
            decreases self.history.len() - i,
        {
            r.push(self.history[i].copy());
            i = i + 1;
            assert(r@ =~= self.history@.take(i as int));
        }
        assert(self.history@.take(self.history.len() as int) =~= self.history@);
        Ok(r)
    }
}

} // verus!
