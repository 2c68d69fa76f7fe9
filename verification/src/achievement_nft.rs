//! Achievement NFTs: a player mints an achievement for a puzzle the admin
//! has marked completed; achievements move between owners' collections and
//! can be burned, and the total supply counts the achievements that exist.
use vstd::prelude::*;
use std::collections::{HashMap, HashSet};
use crate::util::{AccountId, vec_at, vec_or_empty, push_value, pair_key, pair_key_spec, first_index_of, index_of_u32};

verus! {

broadcast use vstd::std_specs::hash::group_hash_axioms;

#[derive(Clone, Copy, Debug, PartialEq, Eq, Structural)]
pub enum AchievementError {
    AlreadyInitialized,
    NotInitialized,
    PuzzleNotCompleted,
    SelfTransfer,
    TokenNotFound,
    NotOwner,
    NotInCollection,
    Overflow,
}

pub struct Achievement {
    pub owner: AccountId,
    pub puzzle_id: u32,
    pub metadata: String,
    pub timestamp: u64,
}

impl Achievement {
    pub fn copy(&self) -> (r: Achievement)
        ensures
            r == *self,
    {
        Achievement { owner: self.owner, puzzle_id: self.puzzle_id, metadata: self.metadata.clone(), timestamp: self.timestamp }
    }
}

/// The storage of the contract.
pub struct AchievementNFT {
    pub admin: Option<AccountId>,
    pub next_token_id: Option<u32>,
    pub total_supply: u32,
    pub achievements: HashMap<u32, Achievement>,
    pub collections: HashMap<u64, Vec<u32>>,
    /// The completed puzzles, by `pair_key(user, puzzle id)`.
    pub completed: HashSet<u128>,
}

/// The distinct puzzles of the achievements `ids`, in order of first
/// appearance (ids without an achievement are skipped).
pub open spec fn puzzles_of(ids: Seq<u32>, achievements: Map<u32, Achievement>) -> Seq<u32>
    decreases ids.len(),
{
    if ids.len() == 0 {
        Seq::empty()
    } else {
        let rest = puzzles_of(ids.drop_last(), achievements);
        let id = ids.last();
        if achievements.contains_key(id) && !rest.contains(achievements[id].puzzle_id) {
            rest.push(achievements[id].puzzle_id)
        } else {
            rest
        }
    }
}

impl AchievementNFT {
    /// Token ids stay below the next id, the total supply counts the
    /// achievements that exist, and nothing is numbered before
    /// initialization.
    pub open spec fn wf(&self) -> bool {
        &&& self.admin is None ==> self.next_token_id is None
        &&& self.achievements@.dom().finite()
        &&& self.total_supply == self.achievements@.dom().len()
        &&& self.next_token_id is None ==> self.achievements@.dom().len() == 0
        &&& self.next_token_id matches Some(n) ==> forall|t: u32| #[trigger] self.achievements@.contains_key(t) ==> t < n
    }

    /// An empty contract.
    pub fn new() -> (r: Self)
        ensures
            r.admin is None,
            r.next_token_id is None,
            r.total_supply == 0,
            r.achievements@ == Map::<u32, Achievement>::empty(),
            r.collections@ == Map::<u64, Vec<u32>>::empty(),
            r.completed@ == Set::<u128>::empty(),
            r.wf(),
    {
        AchievementNFT {
            admin: None,
            next_token_id: None,
            total_supply: 0,
            achievements: HashMap::new(),
            collections: HashMap::new(),
            completed: HashSet::new(),
        }
    }

    /// Stores the admin; token ids start at 1.
    pub fn initialize(&mut self, admin: AccountId) -> (r: Result<(), AchievementError>)
        requires
            old(self).wf(),
        ensures
            final(self).wf(),
            old(self).admin is Some ==> r == Err::<(), AchievementError>(AchievementError::AlreadyInitialized)
                && *final(self) == *old(self),
            old(self).admin is None ==> r is Ok && *final(self) == (AchievementNFT {
                admin: Some(admin),
                next_token_id: Some(1u32),
                total_supply: 0,
                ..*old(self)
            }),
    {
        if self.admin.is_some() {
            return Err(AchievementError::AlreadyInitialized);
        }
        self.admin = Some(admin);
        self.next_token_id = Some(1);
        self.total_supply = 0;
        Ok(())
    }

    /// Marks `puzzle_id` completed by `user` (the admin's call).
    pub fn mark_puzzle_completed(&mut self, user: AccountId, puzzle_id: u32) -> (r: Result<(), AchievementError>)
        requires
            old(self).wf(),
        ensures
            final(self).wf(),
            old(self).admin is None ==> r == Err::<(), AchievementError>(AchievementError::NotInitialized) && *final(
                self) == *old(self),
            old(self).admin is Some ==> r is Ok && final(self).completed@ == old(self).completed@.insert(
                pair_key_spec(user, puzzle_id as u64),
            ) && final(self).achievements@ == old(self).achievements@ && final(self).collections@ == old(
                self).collections@ && final(self).total_supply == old(self).total_supply && final(self).next_token_id
                == old(self).next_token_id && final(self).admin == old(self).admin,
    {
        if self.admin.is_none() {
            return Err(AchievementError::NotInitialized);
        }
        self.completed.insert(pair_key(user, puzzle_id as u64));
        Ok(())
    }

    /// The error of minting.
    pub open spec fn mint_error(&self) -> Option<AchievementError> {
        if self.next_token_id is None {
            Some(AchievementError::NotInitialized)
        } else if self.next_token_id.unwrap() == u32::MAX || self.total_supply == u32::MAX {
            Some(AchievementError::Overflow)
        } else {
            None
        }
    }

    /// What minting the next token to `to` at time `now` does.
    pub open spec fn minted(pre: &Self, post: &Self, to: AccountId, puzzle_id: u32, metadata: String, now: u64, r: Result<
        u32,
        AchievementError,
    >) -> bool {
        let id = pre.next_token_id.unwrap();
        &&& r == Ok::<u32, AchievementError>(id)
        &&& post.achievements@ == pre.achievements@.insert(id, Achievement { owner: to, puzzle_id, metadata, timestamp: now })
        &&& forall|a: u64| #[trigger] vec_at(post.collections@, a) == if a == to {
            vec_at(pre.collections@, a).push(id)
        } else {
            vec_at(pre.collections@, a)
        }
        &&& post.next_token_id == Some((id + 1) as u32)
        &&& post.total_supply == pre.total_supply + 1
        &&& post.completed@ == pre.completed@
        &&& post.admin == pre.admin
    }

    fn mint_internal(&mut self, to: AccountId, puzzle_id: u32, metadata: String, now: u64) -> (r: Result<u32, AchievementError>)
        requires
            old(self).wf(),
        ensures
            final(self).wf(),
            match old(self).mint_error() {
                Some(e) => r == Err::<u32, AchievementError>(e) && *final(self) == *old(self),
                None => Self::minted(old(self), final(self), to, puzzle_id, metadata, now, r),
            },
    {
        let id = match self.next_token_id {
            Some(i) => i,
            None => return Err(AchievementError::NotInitialized),
        };
        if id == u32::MAX || self.total_supply == u32::MAX {
            return Err(AchievementError::Overflow);
        }
        let ghost old_ach = self.achievements@;
        assert(!old_ach.contains_key(id));
        self.achievements.insert(id, Achievement { owner: to, puzzle_id, metadata, timestamp: now });
        push_value(&mut self.collections, to, id);
        self.next_token_id = Some(id + 1);
        self.total_supply = self.total_supply + 1;
        assert(self.achievements@.dom() =~= old_ach.dom().insert(id));
        assert forall|t: u32| #[trigger] self.achievements@.contains_key(t) implies t < id + 1 by {
            if t != id {
                assert(old_ach.contains_key(t));
            }
        }
        Ok(id)
    }

    /// Mints an achievement of a completed puzzle to `to` at time `now`;
    /// returns its token id.
    pub fn mint(&mut self, to: AccountId, puzzle_id: u32, metadata: String, now: u64) -> (r: Result<u32, AchievementError>)
        requires
            old(self).wf(),
        ensures
            final(self).wf(),
            match (if !old(self).completed@.contains(pair_key_spec(to, puzzle_id as u64)) {
                Some(AchievementError::PuzzleNotCompleted)
            } else {
                old(self).mint_error()
            }) {
                Some(e) => r == Err::<u32, AchievementError>(e) && *final(self) == *old(self),
                None => Self::minted(old(self), final(self), to, puzzle_id, metadata, now, r),
            },
    {
        if !self.completed.contains(&pair_key(to, puzzle_id as u64)) {
            return Err(AchievementError::PuzzleNotCompleted);
        }
        self.mint_internal(to, puzzle_id, metadata, now)
    }

    /// Mints an achievement to `to` at time `now` without the completion
    /// check; returns its token id.
    pub fn craftmint(&mut self, to: AccountId, puzzle_id: u32, metadata: String, now: u64) -> (r: Result<u32, AchievementError>)
        requires
            old(self).wf(),
        ensures
            final(self).wf(),
            match old(self).mint_error() {
                Some(e) => r == Err::<u32, AchievementError>(e) && *final(self) == *old(self),
                None => Self::minted(old(self), final(self), to, puzzle_id, metadata, now, r),
            },
    {
        self.mint_internal(to, puzzle_id, metadata, now)
    }

    /// The error of `transfer`, checked in the order of the contract.
    pub open spec fn transfer_error(&self, from: AccountId, to: AccountId, token_id: u32) -> Option<AchievementError> {
        if from == to {
            Some(AchievementError::SelfTransfer)
        } else if !self.achievements@.contains_key(token_id) {
            Some(AchievementError::TokenNotFound)
        } else if self.achievements@[token_id].owner != from {
            Some(AchievementError::NotOwner)
        } else if !vec_at(self.collections@, from).contains(token_id) {
            Some(AchievementError::NotInCollection)
        } else {
            None
        }
    }

    /// Moves an achievement from `from`'s collection to `to`'s.
    pub fn transfer(&mut self, from: AccountId, to: AccountId, token_id: u32) -> (r: Result<(), AchievementError>)
        requires
            old(self).wf(),
        ensures
            final(self).wf(),
            match old(self).transfer_error(from, to, token_id) {
                Some(e) => r == Err::<(), AchievementError>(e) && *final(self) == *old(self),
                None => {
                    let from_ids = vec_at(old(self).collections@, from);
                    &&& r is Ok
                    &&& final(self).achievements@ == old(self).achievements@.insert(
                        token_id,
                        Achievement { owner: to, ..old(self).achievements@[token_id] },
                    )
                    &&& forall|a: u64| #[trigger] vec_at(final(self).collections@, a) == if a == from {
                        from_ids.remove(first_index_of(from_ids, token_id)->0)
                    } else if a == to {
                        vec_at(old(self).collections@, a).push(token_id)
                    } else {
                        vec_at(old(self).collections@, a)
                    }
                    &&& final(self).total_supply == old(self).total_supply
                    &&& final(self).next_token_id == old(self).next_token_id
                    &&& final(self).completed@ == old(self).completed@
                    &&& final(self).admin == old(self).admin
                },
            },
    {
        if from == to {
            return Err(AchievementError::SelfTransfer);
        }
        match self.achievements.get(&token_id) {
            Some(a) => {
                if a.owner != from {
                    return Err(AchievementError::NotOwner);
                }
            },
            None => return Err(AchievementError::TokenNotFound),
        }
        let mut from_col = vec_or_empty(&self.collections, &from);
        let index = match index_of_u32(&from_col, token_id) {
            Some(i) => i,
            None => return Err(AchievementError::NotInCollection),
        };
        proof {
            let s = from_col@;
            assert(s.contains(token_id));
            let k = choose|k: int| 0 <= k < s.len() && s[k] == token_id && forall|j: int| 0 <= j < k ==> s[j] != token_id;
            assert(k == index as int) by {
                if k < index {
                    assert(s[k] != token_id);
                }
                if index < k {
                    assert(s[index as int] != token_id);
                }
            }
        }
        from_col.remove(index);
        let ghost c0 = self.collections@;
        self.collections.insert(from, from_col);
        push_value(&mut self.collections, to, token_id);
        let ghost old_ach = self.achievements@;
        let mut a = self.achievements.remove(&token_id).unwrap();
        a.owner = to;
        self.achievements.insert(token_id, a);
        assert(self.achievements@.dom() =~= old_ach.dom());
        assert forall|t: u32| #[trigger] self.achievements@.contains_key(t) implies t < self.next_token_id.unwrap() by {
            assert(old_ach.contains_key(t));
        }
        Ok(())
    }

    /// The token ids that `owner` holds, in order of receipt.
    pub fn get_collection(&self, owner: AccountId) -> (r: Vec<u32>)
        ensures
            r@ == vec_at(self.collections@, owner),
    {
        vec_or_empty(&self.collections, &owner)
    }

    /// The owner of `token_id`.
    pub fn owner_of(&self, token_id: u32) -> (r: Result<AccountId, AchievementError>)
        ensures
            self.achievements@.contains_key(token_id) ==> r == Ok::<AccountId, AchievementError>(
                self.achievements@[token_id].owner,
            ),
            !self.achievements@.contains_key(token_id) ==> r == Err::<AccountId, AchievementError>(
                AchievementError::TokenNotFound,
            ),
    {
        match self.achievements.get(&token_id) {
            Some(a) => Ok(a.owner),
            None => Err(AchievementError::TokenNotFound),
        }
    }

    /// The number of achievements that exist.
    pub fn total_supply(&self) -> (r: u32)
        requires
            self.wf(),
        ensures
            r == self.total_supply,
            r == self.achievements@.dom().len(),
    {
        self.total_supply
    }

    /// Burns an achievement: it leaves its owner's collection (where it is
    /// listed) and the supply.
    pub fn burn(&mut self, token_id: u32) -> (r: Result<(), AchievementError>)
        requires
            old(self).wf(),
        ensures
            final(self).wf(),
            !old(self).achievements@.contains_key(token_id) ==> r == Err::<(), AchievementError>(
                AchievementError::TokenNotFound,
            ) && *final(self) == *old(self),
            old(self).achievements@.contains_key(token_id) ==> {
                let owner = old(self).achievements@[token_id].owner;
                let ids = vec_at(old(self).collections@, owner);
                &&& r is Ok
                &&& final(self).achievements@ == old(self).achievements@.remove(token_id)
                &&& final(self).total_supply == old(self).total_supply - 1
                &&& forall|a: u64| #[trigger] vec_at(final(self).collections@, a) == if a == owner && ids.contains(
                    token_id,
                ) {
                    ids.remove(first_index_of(ids, token_id)->0)
                } else {
                    vec_at(old(self).collections@, a)
                }
                &&& final(self).next_token_id == old(self).next_token_id
                &&& final(self).completed@ == old(self).completed@
                &&& final(self).admin == old(self).admin
            },
    {
        let owner = match self.achievements.get(&token_id) {
            Some(a) => a.owner,
            None => return Err(AchievementError::TokenNotFound),
        };
        let mut col = vec_or_empty(&self.collections, &owner);
        match index_of_u32(&col, token_id) {
            Some(index) => {
                proof {
                    let s = col@;
                    assert(s.contains(token_id));
                    let k = choose|k: int| 0 <= k < s.len() && s[k] == token_id && forall|j: int| 0 <= j < k ==> s[j] != token_id;
                    assert(k == index as int) by {
                        if k < index {
                            assert(s[k] != token_id);
                        }
                        if index < k {
                            assert(s[index as int] != token_id);
                        }
                    }
                }
                col.remove(index);
                self.collections.insert(owner, col);
            },
            None => {},
        }
        let ghost old_ach = self.achievements@;
        assert(old_ach.dom().contains(token_id));
        self.achievements.remove(&token_id);
        assert(self.achievements@.dom() =~= old_ach.dom().remove(token_id));
        self.total_supply = self.total_supply - 1;
        assert forall|t: u32| #[trigger] self.achievements@.contains_key(t) implies (self.next_token_id matches Some(n) ==> t < n) by {
            assert(old_ach.contains_key(t));
        }
        Ok(())
    }

    /// A copy of the achievement `token_id`, if any.
    pub fn get_achievement(&self, token_id: u32) -> (r: Option<Achievement>)
        ensures
            r == (if self.achievements@.contains_key(token_id) {
                Some(self.achievements@[token_id])
            } else {
                None::<Achievement>
            }),
    {
        match self.achievements.get(&token_id) {
            Some(a) => Some(a.copy()),
            None => None,
        }
    }

    /// The distinct puzzles of `owner`'s achievements, in collection order.
    pub fn puzzle_ids_of(&self, owner: AccountId) -> (r: Vec<u32>)
        ensures
            r@ == puzzles_of(vec_at(self.collections@, owner), self.achievements@),
    {
        let ids = vec_or_empty(&self.collections, &owner);
        let mut out: Vec<u32> = Vec::new();
        let mut i: usize = 0;
        while i < ids.len()
            invariant
                i <= ids.len(),
                out@ == puzzles_of(ids@.take(i as int), self.achievements@),
            decreases ids.len() - i,
        {
            assert(ids@.take(i as int + 1).drop_last() =~= ids@.take(i as int));
            match self.achievements.get(&ids[i]) {
                Some(a) => {
                    if !crate::util::contains_u32(&out, a.puzzle_id) {
                        out.push(a.puzzle_id);
                    }
                },
                None => {},
            }
            i = i + 1;
        }
        assert(ids@.take(ids.len() as int) =~= ids@);
        out
    }

    /// Whether one of `owner`'s achievements is of `puzzle_id`.
    pub fn has_puzzle(&self, owner: AccountId, puzzle_id: u32) -> (r: bool)
        ensures
            r == puzzles_of(vec_at(self.collections@, owner), self.achievements@).contains(puzzle_id),
    {
        let puzzles = self.puzzle_ids_of(owner);
        crate::util::contains_u32(&puzzles, puzzle_id)
    }
}

} // verus!
