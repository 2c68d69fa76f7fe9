//! Proofs of player activity: authorized oracles record proofs (a player,
//! an activity type, a reference and a score), which add up into per-player
//! counts and an activity score.
use vstd::prelude::*;
use std::collections::HashMap;
use crate::util::{AccountId, contains_u64, seq_without, without_u64, pair_key, pair_key_spec, value_at, value_or};

verus! {

broadcast use vstd::std_specs::hash::group_hash_axioms;

/// The most proofs one page returns.
pub const MAX_PAGE: u32 = 100;

#[derive(Clone, Copy, Debug, PartialEq, Eq, Structural)]
pub enum ContractError {
    NotInitialized,
    AlreadyInitialized,
    Unauthorized,
    InvalidActivityType,
    ProofNotFound,
    InvalidPagination,
    Overflow,
}

#[derive(Clone, Copy, Debug, PartialEq, Eq, Structural)]
pub enum ActivityType {
    PuzzleSolved,
    TournamentCompleted,
    WaveContributed,
}

/// The number that an activity type is stored as.
pub open spec fn activity_code(a: ActivityType) -> u32 {
    match a {
        ActivityType::PuzzleSolved => 0,
        ActivityType::TournamentCompleted => 1,
        ActivityType::WaveContributed => 2,
    }
}

pub fn activity_code_of(a: ActivityType) -> (r: u32)
    ensures
        r == activity_code(a),
{
    match a {
        ActivityType::PuzzleSolved => 0,
        ActivityType::TournamentCompleted => 1,
        ActivityType::WaveContributed => 2,
    }
}

/// A recorded proof: the player, the activity's code, a reference, the time
/// and the score.
pub struct ProofRecord {
    pub player: AccountId,
    pub activity_type: u32,
    pub ref_id: String,
    pub timestamp: u64,
    pub score: u64,
}

impl ProofRecord {
    pub fn copy(&self) -> (r: ProofRecord)
        ensures
            r == *self,
    {
        ProofRecord {
            player: self.player,
            activity_type: self.activity_type,
            ref_id: self.ref_id.clone(),
            timestamp: self.timestamp,
            score: self.score,
        }
    }
}

/// The storage of the contract.
pub struct ProofOfActivityContract {
    pub admin: Option<AccountId>,
    pub oracles: Vec<AccountId>,
    /// The proof counter that ids are drawn from and pages walk through.
    pub proof_count: u64,
    /// The last id handed out, which the contract records apart from the
    /// counter.
    pub last_issued_id: u64,
    pub proofs: HashMap<u64, ProofRecord>,
    /// Proof counts by `pair_key(player, activity code)`.
    pub counts: HashMap<u128, u32>,
    pub scores: HashMap<u64, u64>,
}

/// The ids from 1 to `n` whose proof belongs to `player` and `code`, in order.
pub open spec fn matching_ids(proofs: Map<u64, ProofRecord>, n: nat, player: AccountId, code: u32) -> Seq<u64>
    decreases n,
{
    if n == 0 {
        Seq::empty()
    } else {
        let rest = matching_ids(proofs, (n - 1) as nat, player, code);
        let id = n as u64;
        if proofs.contains_key(id) && proofs[id].player == player && proofs[id].activity_type == code {
            rest.push(id)
        } else {
            rest
        }
    }
}

impl ProofOfActivityContract {
    /// The number of proofs of `player` of the type `code`.
    pub open spec fn count_of(&self, player: AccountId, code: u32) -> u32 {
        value_at(self.counts@, pair_key_spec(player, code as u64), 0)
    }

    /// The activity score of `player`.
    pub open spec fn score_of(&self, player: AccountId) -> u64 {
        value_at(self.scores@, player, 0)
    }

    /// An empty contract.
    pub fn new() -> (r: Self)
        ensures
            r.admin is None,
            r.oracles@.len() == 0,
            r.proof_count == 0,
            r.last_issued_id == 0,
            r.proofs@ == Map::<u64, ProofRecord>::empty(),
            r.counts@ == Map::<u128, u32>::empty(),
            r.scores@ == Map::<u64, u64>::empty(),
    {
        ProofOfActivityContract {
            admin: None,
            oracles: Vec::new(),
            proof_count: 0,
            last_issued_id: 0,
            proofs: HashMap::new(),
            counts: HashMap::new(),
            scores: HashMap::new(),
        }
    }

    /// Stores the admin as the first oracle; the counter starts at 0.
    pub fn initialize(&mut self, admin: AccountId) -> (r: Result<(), ContractError>)
        ensures
            old(self).admin is Some ==> r == Err::<(), ContractError>(ContractError::AlreadyInitialized) && *final(self)
                == *old(self),
            old(self).admin is None ==> {
                &&& r is Ok
                &&& final(self).admin == Some(admin)
                &&& final(self).oracles@ == seq![admin]
                &&& final(self).proof_count == 0
                &&& final(self).last_issued_id == old(self).last_issued_id
                &&& final(self).proofs@ == old(self).proofs@
                &&& final(self).counts@ == old(self).counts@
                &&& final(self).scores@ == old(self).scores@
            },
    {
        if self.admin.is_some() {
            return Err(ContractError::AlreadyInitialized);
        }
        self.admin = Some(admin);
        let mut o: Vec<AccountId> = Vec::new();
        o.push(admin);
        self.oracles = o;
        self.proof_count = 0;
        Ok(())
    }

    /// The error of `record_proof`, checked in the order of the contract.
    pub open spec fn record_error(&self, oracle: AccountId, player: AccountId, code: u32, score: u64) -> Option<ContractError> {
        if !self.oracles@.contains(oracle) {
            Some(ContractError::Unauthorized)
        } else if self.proof_count == u64::MAX || self.count_of(player, code) == u32::MAX
            || self.score_of(player) + score > u64::MAX {
            Some(ContractError::Overflow)
        } else {
            None
        }
    }

    /// Records a proof at time `now` (an oracle's call) under the id one past
    /// the counter, counts it and adds its score; returns the id. The counter
    /// itself does not move: the id is recorded apart, as the contract does.
    pub fn record_proof(
        &mut self,
        oracle: AccountId,
        player: AccountId,
        activity_type: ActivityType,
        ref_id: String,
        score: u64,
        now: u64,
    ) -> (r: Result<u64, ContractError>)
        ensures
            match old(self).record_error(oracle, player, activity_code(activity_type), score) {
                Some(e) => r == Err::<u64, ContractError>(e) && *final(self) == *old(self),
                None => {
                    let id = (old(self).proof_count + 1) as u64;
                    let code = activity_code(activity_type);
                    &&& r == Ok::<u64, ContractError>(id)
                    &&& final(self).last_issued_id == id
                    &&& final(self).proof_count == old(self).proof_count
                    &&& final(self).proofs@ == old(self).proofs@.insert(
                        id,
                        ProofRecord { player, activity_type: code, ref_id, timestamp: now, score },
                    )
                    &&& final(self).counts@ == old(self).counts@.insert(
                        pair_key_spec(player, code as u64),
                        (old(self).count_of(player, code) + 1) as u32,
                    )
                    &&& final(self).scores@ == old(self).scores@.insert(player, (old(self).score_of(player) + score) as u64)
                    &&& final(self).admin == old(self).admin
                    &&& final(self).oracles@ == old(self).oracles@
                },
            },
    {
        if !contains_u64(&self.oracles, oracle) {
            return Err(ContractError::Unauthorized);
        }
        let code = activity_code_of(activity_type);
        let key = pair_key(player, code as u64);
        let count = value_or(&self.counts, &key, 0);
        let total = value_or(&self.scores, &player, 0);
        if self.proof_count == u64::MAX || count == u32::MAX || total > u64::MAX - score {
            return Err(ContractError::Overflow);
        }
        let id = self.proof_count + 1;
        self.last_issued_id = id;
        self.proofs.insert(id, ProofRecord { player, activity_type: code, ref_id, timestamp: now, score });
        self.counts.insert(key, count + 1);
        self.scores.insert(player, total + score);
        Ok(id)
    }

    /// A copy of the proof `proof_id`.
    pub fn get_proof(&self, proof_id: u64) -> (r: Result<ProofRecord, ContractError>)
        ensures
            self.proofs@.contains_key(proof_id) ==> r == Ok::<ProofRecord, ContractError>(self.proofs@[proof_id]),
            !self.proofs@.contains_key(proof_id) ==> r == Err::<ProofRecord, ContractError>(
                ContractError::ProofNotFound,
            ),
    {
        match self.proofs.get(&proof_id) {
            Some(p) => Ok(p.copy()),
            None => Err(ContractError::ProofNotFound),
        }
    }

    /// The proofs of `player` of `activity_type` among ids 1 to the counter,
    /// in id order, skipping `offset` and at most `limit` (at most 100).
    pub fn get_player_proofs(&self, player: AccountId, activity_type: ActivityType, offset: u32, limit: u32) -> (r:
        Result<Vec<ProofRecord>, ContractError>)
        ensures
            limit > MAX_PAGE ==> r == Err::<Vec<ProofRecord>, ContractError>(ContractError::InvalidPagination),
            limit <= MAX_PAGE ==> {
                let m = matching_ids(self.proofs@, self.proof_count as nat, player, activity_code(activity_type));
                let page = if offset >= m.len() { Seq::<u64>::empty() } else { m.skip(offset as int) };
                let page = if page.len() > limit { page.take(limit as int) } else { page };
                &&& r is Ok
                &&& r.unwrap()@.len() == page.len()
                &&& forall|i: int| 0 <= i < page.len() ==> #[trigger] r.unwrap()@[i] == self.proofs@[page[i]]
            },
    {
        if limit > MAX_PAGE {
            return Err(ContractError::InvalidPagination);
        }
        let code = activity_code_of(activity_type);
        let ghost target = matching_ids(self.proofs@, self.proof_count as nat, player, code);
        let mut out: Vec<ProofRecord> = Vec::new();
        let mut found: u64 = 0;
        let mut k: u64 = 0;
        while k < self.proof_count
            invariant
                k <= self.proof_count,
                found <= k,
                found == matching_ids(self.proofs@, k as nat, player, code).len(),
                ({
                    let m = matching_ids(self.proofs@, k as nat, player, code);
                    let page = if offset >= m.len() { Seq::<u64>::empty() } else { m.skip(offset as int) };
                    let page = if page.len() > limit { page.take(limit as int) } else { page };
                    &&& out@.len() == page.len()
                    &&& forall|i: int| 0 <= i < page.len() ==> #[trigger] out@[i] == self.proofs@[page[i]]
                }),
            decreases self.proof_count - k,
        {
            let id = k + 1;
            let ghost m0 = matching_ids(self.proofs@, k as nat, player, code);
            match self.proofs.get(&id) {
                Some(p) => {
                    if p.player == player && p.activity_type == code {
                        if found >= offset as u64 && (out.len() as u64) < limit as u64 {
                            out.push(p.copy());
                        }
                        found = found + 1;
                    }
                },
                None => {},
            }
            k = k + 1;
            proof {
                let m1 = matching_ids(self.proofs@, k as nat, player, code);
                if m1.len() > m0.len() {
                    assert(m1 == m0.push(id));
                    if offset < m1.len() {
                        assert(m1.skip(offset as int) =~= (if offset >= m0.len() { Seq::<u64>::empty() } else { m0.skip(offset as int) }).push(id));
                    }
                }
            }
        }
        Ok(out)
    }

    /// The activity score of `player`.
    pub fn get_activity_score(&self, player: AccountId) -> (r: u64)
        ensures
            r == self.score_of(player),
    {
        value_or(&self.scores, &player, 0)
    }

    /// The error of the admin's calls.
    pub open spec fn admin_error(&self, admin: AccountId) -> Option<ContractError> {
        if self.admin is None {
            Some(ContractError::NotInitialized)
        } else if self.admin.unwrap() != admin {
            Some(ContractError::Unauthorized)
        } else {
            None
        }
    }

    /// Adds an oracle (the admin's call).
    pub fn add_oracle(&mut self, admin: AccountId, oracle: AccountId) -> (r: Result<(), ContractError>)
        ensures
            match old(self).admin_error(admin) {
                Some(e) => r == Err::<(), ContractError>(e) && *final(self) == *old(self),
                None => r is Ok && final(self).oracles@ == old(self).oracles@.push(oracle) && final(self).admin == old(
                    self).admin && final(self).proof_count == old(self).proof_count && final(self).last_issued_id
                    == old(self).last_issued_id && final(self).proofs@ == old(self).proofs@ && final(self).counts@
                    == old(self).counts@ && final(self).scores@ == old(self).scores@,
            },
    {
        match self.admin {
            None => return Err(ContractError::NotInitialized),
            Some(a) => {
                if a != admin {
                    return Err(ContractError::Unauthorized);
                }
            },
        }
        self.oracles.push(oracle);
        Ok(())
    }

    /// Removes every entry of an oracle (the admin's call).
    pub fn remove_oracle(&mut self, admin: AccountId, oracle: AccountId) -> (r: Result<(), ContractError>)
        ensures
            match old(self).admin_error(admin) {
                Some(e) => r == Err::<(), ContractError>(e) && *final(self) == *old(self),
                None => r is Ok && final(self).oracles@ == seq_without(old(self).oracles@, oracle) && final(self).admin
                    == old(self).admin && final(self).proof_count == old(self).proof_count && final(
                    self).last_issued_id == old(self).last_issued_id && final(self).proofs@ == old(self).proofs@
                    && final(self).counts@ == old(self).counts@ && final(self).scores@ == old(self).scores@,
            },
    {
        match self.admin {
            None => return Err(ContractError::NotInitialized),
            Some(a) => {
                if a != admin {
                    return Err(ContractError::Unauthorized);
                }
            },
        }
        self.oracles = without_u64(&self.oracles, oracle);
        Ok(())
    }

    /// Whether `oracle` may record proofs.
    pub fn is_authorized_oracle(&self, oracle: AccountId) -> (r: bool)
        ensures
            r == self.oracles@.contains(oracle),
    {
        contains_u64(&self.oracles, oracle)
    }
}

} // verus!
