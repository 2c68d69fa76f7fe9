//! Co-created puzzles: a lead creator proposes the creators and their
//! royalty shares (summing to 10000 basis points); the puzzle is published
//! once every creator has signed, and royalties are then split by share.
use vstd::prelude::*;
use std::collections::{HashMap, HashSet};
use crate::util::{AccountId, contains_u64, seq_without, without_u64, pair_key, pair_key_spec};

verus! {

broadcast use vstd::std_specs::hash::group_hash_axioms;

/// The basis points that the shares add up to.
pub const BASIS_POINTS_TOTAL: u32 = 10000;

#[derive(Clone, Copy, Debug, PartialEq, Eq, Structural)]
pub enum CoCreationStatus {
    Draft,
    PendingSignatures,
    Published,
}

#[derive(Clone, Copy, Debug, PartialEq, Eq, Structural)]
pub struct CreatorShare {
    pub address: AccountId,
    pub share_bps: u32,
}

pub struct CoCreation {
    pub id: u64,
    pub puzzle_id: u64,
    pub creators: Vec<CreatorShare>,
    pub status: CoCreationStatus,
    pub signatures: Vec<AccountId>,
    pub created_at: u64,
    pub published_at: Option<u64>,
}

#[derive(Clone, Copy, Debug, PartialEq, Eq, Structural)]
pub enum CoCreationError {
    NotFound,
    InvalidShare,
    InvalidShareSum,
    NoCreators,
    DuplicateCreator,
    NotCreator,
    AlreadySigned,
    NotAllSigned,
    AlreadyPublished,
    AlreadyPublishedSign,
    AlreadyPublishedWithdraw,
    InvalidAmount,
    Unauthorized,
    AlreadyInitialized,
    NotInitialized,
    NotSigned,
    NotPublished,
    Overflow,
}

/// The storage of the contract.
pub struct PuzzleCoCreation {
    pub oracle: Option<AccountId>,
    pub next_id: u64,
    pub co_creations: HashMap<u64, CoCreation>,
    /// Who has signed, by `pair_key(co-creation id, signer)`.
    pub signed: HashSet<u128>,
}

/// The total of the shares.
pub open spec fn share_total(c: Seq<CreatorShare>) -> int
    decreases c.len(),
{
    if c.len() == 0 {
        0
    } else {
        share_total(c.drop_last()) + c.last().share_bps
    }
}

/// Whether two creators have the same address.
pub open spec fn has_duplicate(c: Seq<CreatorShare>) -> bool {
    exists|i: int, j: int| 0 <= i < j < c.len() && #[trigger] c[i].address == #[trigger] c[j].address
}

/// Whether a share is outside 1 to 10000 basis points.
pub open spec fn has_bad_share(c: Seq<CreatorShare>) -> bool {
    exists|i: int| 0 <= i < c.len() && (#[trigger] c[i].share_bps == 0 || c[i].share_bps > BASIS_POINTS_TOTAL)
}

/// The check of a list of creators, in the order of the contract.
pub open spec fn creators_error(c: Seq<CreatorShare>) -> Option<CoCreationError> {
    if c.len() == 0 {
        Some(CoCreationError::NoCreators)
    } else if has_duplicate(c) {
        Some(CoCreationError::DuplicateCreator)
    } else if has_bad_share(c) {
        Some(CoCreationError::InvalidShare)
    } else if share_total(c) > u32::MAX {
        Some(CoCreationError::Overflow)
    } else if share_total(c) != BASIS_POINTS_TOTAL {
        Some(CoCreationError::InvalidShareSum)
    } else {
        None
    }
}

/// The signature flags of the first `n` creators of co-creation `id`.
pub open spec fn creator_keys(id: u64, c: Seq<CreatorShare>, n: int) -> Set<u128> {
    Set::new(|k: u128| exists|i: int| 0 <= i < n && k == pair_key_spec(id, c[i].address))
}

/// The addresses of the creators.
pub open spec fn creator_addresses(c: Seq<CreatorShare>) -> Seq<AccountId> {
    c.map_values(|s: CreatorShare| s.address)
}

/// Each creator's royalty from `total`, for the positive ones, in order.
pub open spec fn royalty_splits(c: Seq<CreatorShare>, total: i128) -> Seq<(AccountId, i128)>
    decreases c.len(),
{
    if c.len() == 0 {
        Seq::empty()
    } else {
        let rest = royalty_splits(c.drop_last(), total);
        let amount = total * c.last().share_bps / 10000;
        if amount > 0 {
            rest.push((c.last().address, amount as i128))
        } else {
            rest
        }
    }
}

fn check_creators(c: &Vec<CreatorShare>) -> (r: Option<CoCreationError>)
    ensures
        r == creators_error(c@),
{
    if c.len() == 0 {
        return Some(CoCreationError::NoCreators);
    }
    let mut i: usize = 0;
    while i < c.len()
        invariant
            i <= c.len(),
            forall|a: int, b: int| 0 <= a < b < i ==> #[trigger] c@[a].address != #[trigger] c@[b].address,
        decreases c.len() - i,
    {
        let mut j: usize = 0;
        while j < i
            invariant
                j <= i < c.len(),
                forall|a: int| 0 <= a < j ==> c@[a].address != c@[i as int].address,
            decreases i - j,
        {
            if c[j].address == c[i].address {
                assert(c@[j as int].address == c@[i as int].address);
                return Some(CoCreationError::DuplicateCreator);
            }
            j = j + 1;
        }
        i = i + 1;
    }
    let mut k: usize = 0;
    while k < c.len()
        invariant
            k <= c.len(),
            !has_duplicate(c@),
            forall|a: int| 0 <= a < k ==> !(#[trigger] c@[a].share_bps == 0 || c@[a].share_bps > BASIS_POINTS_TOTAL),
        decreases c.len() - k,
    {
        if c[k].share_bps == 0 || c[k].share_bps > BASIS_POINTS_TOTAL {
            assert(c@[k as int].share_bps == 0 || c@[k as int].share_bps > BASIS_POINTS_TOTAL);
            return Some(CoCreationError::InvalidShare);
        }
        k = k + 1;
    }
    let mut total: u128 = 0;
    let mut m: usize = 0;
    while m < c.len()
        invariant
            m <= c.len(),
            total == share_total(c@.take(m as int)),
            total <= m * 10000,
            forall|a: int| 0 <= a < c.len() ==> !(#[trigger] c@[a].share_bps == 0 || c@[a].share_bps > BASIS_POINTS_TOTAL),
        decreases c.len() - m,
    {
        assert(c@.take(m as int + 1).drop_last() =~= c@.take(m as int));
        assert(!(c@[m as int].share_bps == 0 || c@[m as int].share_bps > BASIS_POINTS_TOTAL));
        assert(total + c@[m as int].share_bps <= (m + 1) * 10000) by (nonlinear_arith)
            requires
                total <= m * 10000,
                c@[m as int].share_bps <= 10000,
        ;
        assert((m + 1) * 10000 <= u128::MAX) by (nonlinear_arith)
            requires
                m < 18446744073709551616int,
        ;
        total = total + c[m].share_bps as u128;
        m = m + 1;
    }
    assert(c@.take(c.len() as int) =~= c@);
    if total > u32::MAX as u128 {
        return Some(CoCreationError::Overflow);
    }
    if total != BASIS_POINTS_TOTAL as u128 {
        return Some(CoCreationError::InvalidShareSum);
    }
    None
}

impl CoCreation {
    pub open spec fn same(&self, other: &CoCreation) -> bool {
        &&& self.id == other.id
        &&& self.puzzle_id == other.puzzle_id
        &&& self.creators@ == other.creators@
        &&& self.status == other.status
        &&& self.signatures@ == other.signatures@
        &&& self.created_at == other.created_at
        &&& self.published_at == other.published_at
    }

    pub fn copy(&self) -> (r: CoCreation)
        ensures
            r.same(self),
    {
        CoCreation {
            id: self.id,
            puzzle_id: self.puzzle_id,
            creators: crate::util::copy_vec(&self.creators),
            status: self.status,
            signatures: crate::util::copy_vec(&self.signatures),
            created_at: self.created_at,
            published_at: self.published_at,
        }
    }
}

impl PuzzleCoCreation {
    /// Whether `signer` has signed co-creation `id`.
    pub open spec fn has_signed_spec(&self, id: u64, signer: AccountId) -> bool {
        self.signed@.contains(pair_key_spec(id, signer))
    }

    /// Whether every creator of co-creation `id` has signed it.
    pub open spec fn all_signed(&self, id: u64) -> bool {
        forall|i: int| 0 <= i < self.co_creations@[id].creators@.len() ==> #[trigger] self.has_signed_spec(
            id,
            self.co_creations@[id].creators@[i].address,
        )
    }

    /// An empty contract.
    pub fn new() -> (r: Self)
        ensures
            r.oracle is None,
            r.next_id == 0,
            r.co_creations@ == Map::<u64, CoCreation>::empty(),
            r.signed@ == Set::<u128>::empty(),
    {
        PuzzleCoCreation { oracle: None, next_id: 0, co_creations: HashMap::new(), signed: HashSet::new() }
    }

    /// Stores the royalty oracle.
    pub fn initialize(&mut self, oracle: AccountId) -> (r: Result<(), CoCreationError>)
        ensures
            old(self).oracle is Some ==> r == Err::<(), CoCreationError>(CoCreationError::AlreadyInitialized)
                && *final(self) == *old(self),
            old(self).oracle is None ==> r is Ok && *final(self) == (PuzzleCoCreation { oracle: Some(oracle), ..*old(self) }),
    {
        if self.oracle.is_some() {
            return Err(CoCreationError::AlreadyInitialized);
        }
        self.oracle = Some(oracle);
        Ok(())
    }

    /// Opens a co-creation of `puzzle_id` at time `now` among `creators`, the
    /// first of whom is the lead and counts as signed; returns its id.
    pub fn initiate(&mut self, puzzle_id: u64, creators: Vec<CreatorShare>, now: u64) -> (r: Result<u64, CoCreationError>)
        ensures
            match (if creators_error(creators@) is Some {
                creators_error(creators@)
            } else if old(self).next_id == u64::MAX {
                Some(CoCreationError::Overflow)
            } else {
                None
            }) {
                Some(e) => r == Err::<u64, CoCreationError>(e) && *final(self) == *old(self),
                None => {
                    let id = (old(self).next_id + 1) as u64;
                    let c = final(self).co_creations@[id];
                    &&& r == Ok::<u64, CoCreationError>(id)
                    &&& final(self).next_id == id
                    &&& final(self).co_creations@.dom() == old(self).co_creations@.dom().insert(id)
                    &&& forall|k: u64| k != id && #[trigger] old(self).co_creations@.contains_key(k)
                        ==> final(self).co_creations@[k] == old(self).co_creations@[k]
                    &&& c.id == id && c.puzzle_id == puzzle_id && c.creators@ == creators@
                    &&& c.status == CoCreationStatus::PendingSignatures && c.signatures@ == seq![creators@[0].address]
                    &&& c.created_at == now && c.published_at is None
                    &&& final(self).signed@ == old(self).signed@.insert(pair_key_spec(id, creators@[0].address))
                    &&& final(self).oracle == old(self).oracle
                },
            },
    {
        match check_creators(&creators) {
            Some(e) => return Err(e),
            None => {},
        }
        if self.next_id == u64::MAX {
            return Err(CoCreationError::Overflow);
        }
        let lead = creators[0].address;
        let id = self.next_id + 1;
        self.next_id = id;
        let ghost old_map = self.co_creations@;
        let mut signatures: Vec<AccountId> = Vec::new();
        signatures.push(lead);
        self.co_creations.insert(
            id,
            CoCreation {
                id,
                puzzle_id,
                creators,
                status: CoCreationStatus::PendingSignatures,
                signatures,
                created_at: now,
                published_at: None,
            },
        );
        self.signed.insert(pair_key(id, lead));
        assert(self.co_creations@.dom() =~= old_map.dom().insert(id));
        Ok(id)
    }

    /// The error of `sign`, checked in the order of the contract.
    pub open spec fn sign_error(&self, id: u64, signer: AccountId) -> Option<CoCreationError> {
        if !self.co_creations@.contains_key(id) {
            Some(CoCreationError::NotFound)
        } else if self.co_creations@[id].status == CoCreationStatus::Published {
            Some(CoCreationError::AlreadyPublishedSign)
        } else if !creator_addresses(self.co_creations@[id].creators@).contains(signer) {
            Some(CoCreationError::NotCreator)
        } else if self.has_signed_spec(id, signer) {
            Some(CoCreationError::AlreadySigned)
        } else {
            None
        }
    }

    fn is_creator(c: &Vec<CreatorShare>, who: AccountId) -> (r: bool)
        ensures
            r == creator_addresses(c@).contains(who),
    {
        let mut i: usize = 0;
        while i < c.len()
            invariant
                i <= c.len(),
                forall|j: int| 0 <= j < i ==> (#[trigger] c@[j]).address != who,
            decreases c.len() - i,
        {
            if c[i].address == who {
                assert(creator_addresses(c@)[i as int] == who);
                return true;
            }
            i = i + 1;
        }
        proof {
            if creator_addresses(c@).contains(who) {
                let k = choose|k: int| 0 <= k < creator_addresses(c@).len() && creator_addresses(c@)[k] == who;
                assert(c@[k].address == who);
            }
        }
        false
    }

    /// Adds `signer`'s signature to a co-creation it is a creator of.
    pub fn sign(&mut self, id: u64, signer: AccountId) -> (r: Result<(), CoCreationError>)
        ensures
            match old(self).sign_error(id, signer) {
                Some(e) => r == Err::<(), CoCreationError>(e) && *final(self) == *old(self),
                None => {
                    let c = old(self).co_creations@[id];
                    let nc = final(self).co_creations@[id];
                    &&& r is Ok
                    &&& final(self).co_creations@.dom() == old(self).co_creations@.dom()
                    &&& nc.same(&CoCreation { signatures: nc.signatures, ..c })
                    &&& nc.signatures@ == c.signatures@.push(signer)
                    &&& forall|k: u64| k != id && #[trigger] old(self).co_creations@.contains_key(k)
                        ==> final(self).co_creations@[k] == old(self).co_creations@[k]
                    &&& final(self).signed@ == old(self).signed@.insert(pair_key_spec(id, signer))
                    &&& final(self).oracle == old(self).oracle
                    &&& final(self).next_id == old(self).next_id
                },
            },
    {
        match self.co_creations.get(&id) {
            Some(c) => {
                if c.status == CoCreationStatus::Published {
                    return Err(CoCreationError::AlreadyPublishedSign);
                }
                if !Self::is_creator(&c.creators, signer) {
                    return Err(CoCreationError::NotCreator);
                }
            },
            None => return Err(CoCreationError::NotFound),
        }
        let key = pair_key(id, signer);
        if self.signed.contains(&key) {
            return Err(CoCreationError::AlreadySigned);
        }
        let ghost old_map = self.co_creations@;
        let mut c = self.co_creations.remove(&id).unwrap();
        c.signatures.push(signer);
        self.co_creations.insert(id, c);
        self.signed.insert(key);
        assert(self.co_creations@.dom() =~= old_map.dom());
        Ok(())
    }

    fn all_creators_signed(&self, id: u64, c: &Vec<CreatorShare>) -> (r: bool)
        requires
            self.co_creations@.contains_key(id),
            c@ == self.co_creations@[id].creators@,
        ensures
            r == self.all_signed(id),
    {
        let mut i: usize = 0;
        while i < c.len()
            invariant
                i <= c.len(),
                self.co_creations@.contains_key(id),
                c@ == self.co_creations@[id].creators@,
                forall|j: int| 0 <= j < i ==> #[trigger] self.has_signed_spec(id, c@[j].address),
            decreases c.len() - i,
        {
            if !self.signed.contains(&pair_key(id, c[i].address)) {
                assert(!self.has_signed_spec(id, self.co_creations@[id].creators@[i as int].address));
                return false;
            }
            i = i + 1;
        }
        true
    }

    /// Publishes a co-creation at time `now` once every creator has signed.
    pub fn publish(&mut self, id: u64, now: u64) -> (r: Result<(), CoCreationError>)
        ensures
            match (if !old(self).co_creations@.contains_key(id) {
                Some(CoCreationError::NotFound)
            } else if old(self).co_creations@[id].status == CoCreationStatus::Published {
                Some(CoCreationError::AlreadyPublished)
            } else if !old(self).all_signed(id) {
                Some(CoCreationError::NotAllSigned)
            } else {
                None
            }) {
                Some(e) => r == Err::<(), CoCreationError>(e) && *final(self) == *old(self),
                None => {
                    &&& r is Ok
                    &&& final(self).co_creations@ == old(self).co_creations@.insert(
                        id,
                        CoCreation {
                            status: CoCreationStatus::Published,
                            published_at: Some(now),
                            ..old(self).co_creations@[id]
                        },
                    )
                    &&& final(self).signed@ == old(self).signed@
                    &&& final(self).oracle == old(self).oracle
                    &&& final(self).next_id == old(self).next_id
                },
            },
    {
        let ok = match self.co_creations.get(&id) {
            Some(c) => {
                if c.status == CoCreationStatus::Published {
                    return Err(CoCreationError::AlreadyPublished);
                }
                self.all_creators_signed(id, &c.creators)
            },
            None => return Err(CoCreationError::NotFound),
        };
        if !ok {
            return Err(CoCreationError::NotAllSigned);
        }
        let mut c = self.co_creations.remove(&id).unwrap();
        c.status = CoCreationStatus::Published;
        c.published_at = Some(now);
        self.co_creations.insert(id, c);
        Ok(())
    }

    /// Takes back `signer`'s signature from an unpublished co-creation. When
    /// the lead creator withdraws, every signature is cleared; with no
    /// signatures left the co-creation goes back to draft.
    pub fn withdraw_signature(&mut self, id: u64, signer: AccountId) -> (r: Result<(), CoCreationError>)
        ensures
            match (if !old(self).co_creations@.contains_key(id) {
                Some(CoCreationError::NotFound)
            } else if old(self).co_creations@[id].status == CoCreationStatus::Published {
                Some(CoCreationError::AlreadyPublishedWithdraw)
            } else if !creator_addresses(old(self).co_creations@[id].creators@).contains(signer) {
                Some(CoCreationError::NotCreator)
            } else if !old(self).has_signed_spec(id, signer) {
                Some(CoCreationError::NotSigned)
            } else {
                None
            }) {
                Some(e) => r == Err::<(), CoCreationError>(e) && *final(self) == *old(self),
                None => {
                    let c = old(self).co_creations@[id];
                    let nc = final(self).co_creations@[id];
                    let lead = c.creators@.len() > 0 && signer == c.creators@[0].address;
                    let sigs = if lead { Seq::<AccountId>::empty() } else { seq_without(c.signatures@, signer) };
                    &&& r is Ok
                    &&& final(self).co_creations@.dom() == old(self).co_creations@.dom()
                    &&& nc.signatures@ == sigs
                    &&& nc.same(
                        &CoCreation {
                            signatures: nc.signatures,
                            status: if sigs.len() == 0 { CoCreationStatus::Draft } else { c.status },
                            ..c
                        },
                    )
                    &&& forall|k: u64| k != id && #[trigger] old(self).co_creations@.contains_key(k)
                        ==> final(self).co_creations@[k] == old(self).co_creations@[k]
                    &&& final(self).signed@ == if lead {
                        old(self).signed@.difference(creator_keys(id, c.creators@, c.creators@.len() as int))
                    } else {
                        old(self).signed@.remove(pair_key_spec(id, signer))
                    }
                    &&& final(self).oracle == old(self).oracle
                    &&& final(self).next_id == old(self).next_id
                },
            },
    {
        match self.co_creations.get(&id) {
            Some(c) => {
                if c.status == CoCreationStatus::Published {
                    return Err(CoCreationError::AlreadyPublishedWithdraw);
                }
                if !Self::is_creator(&c.creators, signer) {
                    return Err(CoCreationError::NotCreator);
                }
            },
            None => return Err(CoCreationError::NotFound),
        }
        let key = pair_key(id, signer);
        if !self.signed.contains(&key) {
            return Err(CoCreationError::NotSigned);
        }
        let ghost old_map = self.co_creations@;
        let ghost old_signed = self.signed@;
        let mut c = self.co_creations.remove(&id).unwrap();
        if c.creators.len() > 0 && c.creators[0].address == signer {
            c.signatures = Vec::new();
            let n = c.creators.len();
            let mut j: usize = 0;
            while j < n
                invariant
                    n == c.creators@.len(),
                    j <= n,
                    self.co_creations@ == old_map.remove(id),
                    self.oracle == old(self).oracle,
                    self.next_id == old(self).next_id,
                    self.signed@ == old_signed.difference(creator_keys(id, c.creators@, j as int)),
                decreases n - j,
            {
                let k = pair_key(id, c.creators[j].address);
                self.signed.remove(&k);
                proof {
                    assert forall|x: u128| #[trigger] creator_keys(id, c.creators@, j + 1).contains(x) <==> (creator_keys(
                        id,
                        c.creators@,
                        j as int,
                    ).contains(x) || x == k) by {
                        if x == k {
                            assert(x == pair_key_spec(id, c.creators@[j as int].address));
                        }
                        if creator_keys(id, c.creators@, j + 1).contains(x) {
                            let i = choose|i: int| 0 <= i < j + 1 && x == pair_key_spec(id, c.creators@[i].address);
                            if i < j {
                                assert(creator_keys(id, c.creators@, j as int).contains(x));
                            }
                        }
                    }
                    assert(self.signed@ =~= old_signed.difference(creator_keys(id, c.creators@, j + 1)));
                }
                j = j + 1;
            }
        } else {
            c.signatures = without_u64(&c.signatures, signer);
            self.signed.remove(&key);
        }
        if c.signatures.len() == 0 {
            c.status = CoCreationStatus::Draft;
        }
        self.co_creations.insert(id, c);
        assert(self.co_creations@.dom() =~= old_map.dom());
        Ok(())
    }

    /// Splits `total_amount` of royalties of a published co-creation among
    /// its creators by share (the oracle's call); returns each positive share.
    #[verifier::loop_isolation(false)]
    pub fn distribute_royalty(&self, id: u64, total_amount: i128) -> (r: Result<Vec<(AccountId, i128)>, CoCreationError>)
        ensures
            match (if self.oracle is None {
                Some(CoCreationError::NotInitialized)
            } else if total_amount <= 0 {
                Some(CoCreationError::InvalidAmount)
            } else if !self.co_creations@.contains_key(id) {
                Some(CoCreationError::NotFound)
            } else if self.co_creations@[id].status != CoCreationStatus::Published {
                Some(CoCreationError::NotPublished)
            } else if exists|i: int| 0 <= i < self.co_creations@[id].creators@.len() && total_amount
                * (#[trigger] self.co_creations@[id].creators@[i]).share_bps > i128::MAX {
                Some(CoCreationError::Overflow)
            } else {
                None
            }) {
                Some(e) => r == Err::<Vec<(AccountId, i128)>, CoCreationError>(e),
                None => r is Ok && r.unwrap()@ == royalty_splits(self.co_creations@[id].creators@, total_amount),
            },
    {
        if self.oracle.is_none() {
            return Err(CoCreationError::NotInitialized);
        }
        if total_amount <= 0 {
            return Err(CoCreationError::InvalidAmount);
        }
        let c = match self.co_creations.get(&id) {
            Some(c) => c,
            None => return Err(CoCreationError::NotFound),
        };
        if c.status != CoCreationStatus::Published {
            return Err(CoCreationError::NotPublished);
        }
        let mut out: Vec<(AccountId, i128)> = Vec::new();
        let mut i: usize = 0;
        while i < c.creators.len()
            invariant
                i <= c.creators.len(),
                total_amount > 0,
                self.co_creations@.contains_key(id),
                c.creators@ == self.co_creations@[id].creators@,
                out@ == royalty_splits(c.creators@.take(i as int), total_amount),
                forall|j: int| 0 <= j < i ==> total_amount * (#[trigger] c.creators@[j]).share_bps <= i128::MAX,
            decreases c.creators.len() - i,
        {
            assert(c.creators@.take(i as int + 1).drop_last() =~= c.creators@.take(i as int));
            let s = c.creators[i];
            let product = match total_amount.checked_mul(s.share_bps as i128) {
                Some(p) => p,
                None => {
                    assert(total_amount * self.co_creations@[id].creators@[i as int].share_bps > i128::MAX);
                    return Err(CoCreationError::Overflow);
                },
            };
            let amount = product / 10000;
            if amount > 0 {
                out.push((s.address, amount));
            }
            i = i + 1;
        }
        assert(c.creators@.take(c.creators.len() as int) =~= c.creators@);
        Ok(out)
    }

    /// A copy of co-creation `id`.
    pub fn get_co_creation(&self, id: u64) -> (r: Result<CoCreation, CoCreationError>)
        ensures
            self.co_creations@.contains_key(id) ==> r is Ok && r.unwrap().same(&self.co_creations@[id]),
            !self.co_creations@.contains_key(id) ==> r matches Err(CoCreationError::NotFound),
    {
        match self.co_creations.get(&id) {
            Some(c) => Ok(c.copy()),
            None => Err(CoCreationError::NotFound),
        }
    }

    /// Whether `signer` has signed co-creation `id`.
    pub fn has_signed(&self, id: u64, signer: AccountId) -> (r: bool)
        ensures
            r == self.has_signed_spec(id, signer),
    {
        self.signed.contains(&pair_key(id, signer))
    }

    /// The royalty oracle.
    pub fn get_oracle(&self) -> (r: Result<AccountId, CoCreationError>)
        ensures
            match self.oracle {
                Some(o) => r == Ok::<AccountId, CoCreationError>(o),
                None => r == Err::<AccountId, CoCreationError>(CoCreationError::NotInitialized),
            },
    {
        match self.oracle {
            Some(o) => Ok(o),
            None => Err(CoCreationError::NotInitialized),
        }
    }
}

/// The total paid out by a list of royalty splits.
pub open spec fn split_total(s: Seq<(AccountId, i128)>) -> int
    decreases s.len(),
{
    if s.len() == 0 {
        0
    } else {
        split_total(s.drop_last()) + s.last().1
    }
}

proof fn lemma_royalty_scaled(c: Seq<CreatorShare>, total: i128)
    requires
        total >= 0,
        forall|i: int| 0 <= i < c.len() ==> #[trigger] c[i].share_bps <= BASIS_POINTS_TOTAL,
    ensures
        split_total(royalty_splits(c, total)) * 10000 <= total * share_total(c),
        split_total(royalty_splits(c, total)) >= 0,
    decreases c.len(),
{
    if c.len() > 0 {
        let d = c.drop_last();
        assert forall|i: int| 0 <= i < d.len() implies #[trigger] d[i].share_bps <= BASIS_POINTS_TOTAL by {
            assert(d[i] == c[i]);
        }
        lemma_royalty_scaled(d, total);
        let x = total * c.last().share_bps;
        let amount = x / 10000;
        assert(0 <= x <= total * 10000) by (nonlinear_arith)
            requires
                x == total * c.last().share_bps,
                total >= 0,
                c.last().share_bps <= 10000,
        ;
        assert(0 <= amount && amount * 10000 <= x && amount <= total) by (nonlinear_arith)
            requires
                amount == x / 10000,
                0 <= x <= total * 10000,
        ;
        let rest = royalty_splits(d, total);
        if amount > 0 {
            assert(royalty_splits(c, total) == rest.push((c.last().address, amount as i128)));
            assert(royalty_splits(c, total).drop_last() =~= rest);
        }
        assert(total * share_total(c) == total * share_total(d) + x) by (nonlinear_arith)
            requires
                share_total(c) == share_total(d) + c.last().share_bps,
                x == total * c.last().share_bps,
        ;
    }
}

/// Royalties never pay out more than the amount distributed: for a list of
/// creators that `initiate` accepts and a non-negative total, the splits add
/// up to at most the total.
pub proof fn lemma_royalty_within_total(c: Seq<CreatorShare>, total: i128)
    requires
        creators_error(c) is None,
        total >= 0,
    ensures
        split_total(royalty_splits(c, total)) <= total,
{
    assert forall|i: int| 0 <= i < c.len() implies #[trigger] c[i].share_bps <= BASIS_POINTS_TOTAL by {
        if c[i].share_bps > BASIS_POINTS_TOTAL {
            assert(has_bad_share(c));
        }
    }
    lemma_royalty_scaled(c, total);
    let t = split_total(royalty_splits(c, total));
    assert(t <= total) by (nonlinear_arith)
        requires
            t * 10000 <= total * 10000,
    ;
}

} // verus!
