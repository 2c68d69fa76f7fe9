//! NFTs that evolve with experience: an oracle adds XP, and an NFT takes the
//! level and metadata of the highest evolution rule whose XP threshold it
//! has reached, when that raises its level. NFTs below level 3 cannot move.
use vstd::prelude::*;
use std::collections::HashMap;
use crate::util::{AccountId, contains_u64};

verus! {

broadcast use vstd::std_specs::hash::group_hash_axioms;

/// The level from which an NFT can be transferred.
pub const TRANSFERABLE_LEVEL: u32 = 3;

#[derive(Clone, Copy, Debug, PartialEq, Eq, Structural)]
pub enum DynamicNftError {
    AlreadyInitialized,
    NotInitialized,
    NotAdmin,
    NotOracle,
    NftNotFound,
    NotOwner,
    Soulbound,
    Overflow,
}

pub struct DynamicNft {
    pub token_id: u32,
    pub owner: AccountId,
    pub level: u32,
    pub evolution_stage: u32,
    pub metadata_uri: String,
    pub xp: u64,
}

pub struct EvolutionRule {
    pub min_xp: u64,
    pub new_level: u32,
    pub new_metadata_uri: String,
}

/// The storage of the contract.
pub struct DynamicNftContract {
    pub admins: Vec<AccountId>,
    pub oracles: Vec<AccountId>,
    pub next_token_id: Option<u32>,
    pub nfts: HashMap<u32, DynamicNft>,
    /// The evolution rules, one per XP threshold.
    pub rules: Vec<EvolutionRule>,
}

impl DynamicNft {
    pub fn copy(&self) -> (r: DynamicNft)
        ensures
            r == *self,
    {
        DynamicNft {
            token_id: self.token_id,
            owner: self.owner,
            level: self.level,
            evolution_stage: self.evolution_stage,
            metadata_uri: self.metadata_uri.clone(),
            xp: self.xp,
        }
    }
}

impl EvolutionRule {
    pub fn copy(&self) -> (r: EvolutionRule)
        ensures
            r == *self,
    {
        EvolutionRule { min_xp: self.min_xp, new_level: self.new_level, new_metadata_uri: self.new_metadata_uri.clone() }
    }
}

/// Whether `rule` applies to an NFT with `xp` at `level`.
pub open spec fn rule_applies(rule: EvolutionRule, xp: u64, level: u32) -> bool {
    xp >= rule.min_xp && rule.min_xp > 0 && rule.new_level > level
}

/// The position of the applicable rule with the highest threshold, if any.
pub open spec fn best_rule(rules: Seq<EvolutionRule>, xp: u64, level: u32) -> Option<int>
    decreases rules.len(),
{
    if rules.len() == 0 {
        None
    } else {
        let prev = best_rule(rules.drop_last(), xp, level);
        let last = rules.len() - 1;
        if rule_applies(rules[last], xp, level) && (prev is None || rules[last].min_xp > rules[prev->0].min_xp) {
            Some(last)
        } else {
            prev
        }
    }
}

/// `nft` after evolving by `rules`.
pub open spec fn evolved(nft: DynamicNft, rules: Seq<EvolutionRule>) -> DynamicNft {
    match best_rule(rules, nft.xp, nft.level) {
        Some(i) => DynamicNft {
            level: rules[i].new_level,
            evolution_stage: (nft.evolution_stage + 1) as u32,
            metadata_uri: rules[i].new_metadata_uri,
            ..nft
        },
        None => nft,
    }
}

/// Whether evolving `nft` overflows its stage counter.
pub open spec fn evolve_overflows(nft: DynamicNft, rules: Seq<EvolutionRule>) -> bool {
    best_rule(rules, nft.xp, nft.level) is Some && nft.evolution_stage == u32::MAX
}

proof fn lemma_best_rule_in_range(rules: Seq<EvolutionRule>, xp: u64, level: u32)
    ensures
        best_rule(rules, xp, level) matches Some(i) ==> 0 <= i < rules.len() && rule_applies(rules[i], xp, level),
    decreases rules.len(),
{
    if rules.len() > 0 {
        lemma_best_rule_in_range(rules.drop_last(), xp, level);
    }
}

/// Evolution only raises an NFT: its level never goes down, and its owner,
/// token id and XP stay as they were.
pub proof fn lemma_evolution_raises_level(nft: DynamicNft, rules: Seq<EvolutionRule>)
    ensures
        evolved(nft, rules).level >= nft.level,
        evolved(nft, rules).level > nft.level <==> best_rule(rules, nft.xp, nft.level) is Some,
        evolved(nft, rules).owner == nft.owner,
        evolved(nft, rules).token_id == nft.token_id,
        evolved(nft, rules).xp == nft.xp,
{
    lemma_best_rule_in_range(rules, nft.xp, nft.level);
}

/// The position of the rule that applies to an NFT with `xp` at `level`.
fn find_best_rule(rules: &Vec<EvolutionRule>, xp: u64, level: u32) -> (r: Option<usize>)
    ensures
        r matches Some(i) ==> i < rules@.len() && best_rule(rules@, xp, level) == Some(i as int),
        r is None ==> best_rule(rules@, xp, level) is None,
{
    let mut best: Option<usize> = None;
    let mut i: usize = 0;
    while i < rules.len()
        invariant
            i <= rules.len(),
            best matches Some(b) ==> b < i,
            best == (match best_rule(rules@.take(i as int), xp, level) {
                Some(k) => Some(k as usize),
                None => None::<usize>,
            }),
        decreases rules.len() - i,
    {
        proof {
            lemma_best_rule_in_range(rules@.take(i as int), xp, level);
            assert(rules@.take(i as int + 1).drop_last() =~= rules@.take(i as int));
            assert(rules@.take(i as int + 1)[i as int] == rules@[i as int]);
            if let Some(b) = best {
                assert(rules@.take(i as int)[b as int] == rules@[b as int]);
            }
        }
        let r = &rules[i];
        let applies = xp >= r.min_xp && r.min_xp > 0 && r.new_level > level;
        let better = match best {
            None => true,
            Some(b) => r.min_xp > rules[b].min_xp,
        };
        if applies && better {
            best = Some(i);
        }
        i = i + 1;
    }
    assert(rules@.take(rules.len() as int) =~= rules@);
    proof {
        lemma_best_rule_in_range(rules@, xp, level);
    }
    best
}

impl DynamicNftContract {
    /// Evolves `nft` by the stored rules.
    fn evolve_nft(&self, nft: &mut DynamicNft) -> (r: Result<(), DynamicNftError>)
        ensures
            evolve_overflows(*old(nft), self.rules@) ==> r == Err::<(), DynamicNftError>(DynamicNftError::Overflow)
                && *final(nft) == *old(nft),
            !evolve_overflows(*old(nft), self.rules@) ==> r is Ok && *final(nft) == evolved(*old(nft), self.rules@),
    {
        match find_best_rule(&self.rules, nft.xp, nft.level) {
            Some(i) => {
                if nft.evolution_stage == u32::MAX {
                    return Err(DynamicNftError::Overflow);
                }
                nft.level = self.rules[i].new_level;
                nft.evolution_stage = nft.evolution_stage + 1;
                nft.metadata_uri = self.rules[i].new_metadata_uri.clone();
                Ok(())
            },
            None => Ok(()),
        }
    }

    /// An empty contract.
    pub fn new() -> (r: Self)
        ensures
            r.admins@.len() == 0,
            r.oracles@.len() == 0,
            r.next_token_id is None,
            r.nfts@ == Map::<u32, DynamicNft>::empty(),
            r.rules@.len() == 0,
    {
        DynamicNftContract {
            admins: Vec::new(),
            oracles: Vec::new(),
            next_token_id: None,
            nfts: HashMap::new(),
            rules: Vec::new(),
        }
    }

    /// Adds `admin` and `oracle`; token ids restart at 1 and the rules are
    /// cleared. An admin cannot initialize twice.
    pub fn initialize(&mut self, admin: AccountId, oracle: AccountId) -> (r: Result<(), DynamicNftError>)
        ensures
            old(self).admins@.contains(admin) ==> r == Err::<(), DynamicNftError>(DynamicNftError::AlreadyInitialized)
                && *final(self) == *old(self),
            !old(self).admins@.contains(admin) ==> {
                &&& r is Ok
                &&& final(self).admins@ == old(self).admins@.push(admin)
                &&& final(self).oracles@ == old(self).oracles@.push(oracle)
                &&& final(self).next_token_id == Some(1u32)
                &&& final(self).rules@.len() == 0
                &&& final(self).nfts@ == old(self).nfts@
            },
    {
        if contains_u64(&self.admins, admin) {
            return Err(DynamicNftError::AlreadyInitialized);
        }
        self.admins.push(admin);
        self.oracles.push(oracle);
        self.next_token_id = Some(1);
        self.rules = Vec::new();
        Ok(())
    }

    /// Mints the next NFT to `owner` at level 1 with the base metadata;
    /// returns its id.
    pub fn mint(&mut self, owner: AccountId) -> (r: Result<u32, DynamicNftError>)
        ensures
            old(self).next_token_id is None ==> r == Err::<u32, DynamicNftError>(DynamicNftError::NotInitialized)
                && *final(self) == *old(self),
            old(self).next_token_id == Some(u32::MAX) ==> r == Err::<u32, DynamicNftError>(DynamicNftError::Overflow)
                && *final(self) == *old(self),
            old(self).next_token_id is Some && old(self).next_token_id.unwrap() < u32::MAX ==> {
                let id = old(self).next_token_id.unwrap();
                let n = final(self).nfts@[id];
                &&& r == Ok::<u32, DynamicNftError>(id)
                &&& final(self).next_token_id == Some((id + 1) as u32)
                &&& final(self).nfts@.dom() == old(self).nfts@.dom().insert(id)
                &&& forall|k: u32| k != id && #[trigger] old(self).nfts@.contains_key(k) ==> final(self).nfts@[k]
                    == old(self).nfts@[k]
                &&& n.token_id == id && n.owner == owner && n.level == 1 && n.evolution_stage == 1 && n.xp == 0
                &&& n.metadata_uri@ == "ipfs://base-metadata"@
                &&& final(self).admins@ == old(self).admins@
                &&& final(self).oracles@ == old(self).oracles@
                &&& final(self).rules@ == old(self).rules@
            },
    {
        let id = match self.next_token_id {
            Some(i) => i,
            None => return Err(DynamicNftError::NotInitialized),
        };
        if id == u32::MAX {
            return Err(DynamicNftError::Overflow);
        }
        let ghost old_nfts = self.nfts@;
        self.nfts.insert(
            id,
            DynamicNft {
                token_id: id,
                owner,
                level: 1,
                evolution_stage: 1,
                metadata_uri: "ipfs://base-metadata".to_owned(),
                xp: 0,
            },
        );
        self.next_token_id = Some(id + 1);
        assert(self.nfts@.dom() =~= old_nfts.dom().insert(id));
        Ok(id)
    }

    /// Adds `amount` XP (saturating) to an NFT (an oracle's call) and
    /// evolves it.
    pub fn add_xp(&mut self, oracle: AccountId, token_id: u32, amount: u64) -> (r: Result<(), DynamicNftError>)
        ensures
            ({
                let raised = if old(self).nfts@.contains_key(token_id) {
                    DynamicNft {
                        xp: (if old(self).nfts@[token_id].xp + amount > u64::MAX {
                            u64::MAX as int
                        } else {
                            old(self).nfts@[token_id].xp + amount
                        }) as u64,
                        ..old(self).nfts@[token_id]
                    }
                } else {
                    old(self).nfts@[token_id]
                };
                match (if !old(self).oracles@.contains(oracle) {
                    Some(DynamicNftError::NotOracle)
                } else if !old(self).nfts@.contains_key(token_id) {
                    Some(DynamicNftError::NftNotFound)
                } else if evolve_overflows(raised, old(self).rules@) {
                    Some(DynamicNftError::Overflow)
                } else {
                    None
                }) {
                    Some(e) => r == Err::<(), DynamicNftError>(e) && *final(self) == *old(self),
                    None => {
                        &&& r is Ok
                        &&& final(self).nfts@ == old(self).nfts@.insert(token_id, evolved(raised, old(self).rules@))
                        &&& final(self).admins@ == old(self).admins@
                        &&& final(self).oracles@ == old(self).oracles@
                        &&& final(self).rules@ == old(self).rules@
                        &&& final(self).next_token_id == old(self).next_token_id
                    },
                }
            }),
    {
        if !contains_u64(&self.oracles, oracle) {
            return Err(DynamicNftError::NotOracle);
        }
        let mut nft = match self.nfts.get(&token_id) {
            Some(n) => n.copy(),
            None => return Err(DynamicNftError::NftNotFound),
        };
        nft.xp = nft.xp.saturating_add(amount);
        match self.evolve_nft(&mut nft) {
            Ok(()) => {},
            Err(e) => return Err(e),
        }
        self.nfts.insert(token_id, nft);
        Ok(())
    }

    /// Evolves an NFT (its owner's call).
    pub fn evolve(&mut self, caller: AccountId, token_id: u32) -> (r: Result<(), DynamicNftError>)
        ensures
            match (if !old(self).nfts@.contains_key(token_id) {
                Some(DynamicNftError::NftNotFound)
            } else if old(self).nfts@[token_id].owner != caller {
                Some(DynamicNftError::NotOwner)
            } else if evolve_overflows(old(self).nfts@[token_id], old(self).rules@) {
                Some(DynamicNftError::Overflow)
            } else {
                None
            }) {
                Some(e) => r == Err::<(), DynamicNftError>(e) && *final(self) == *old(self),
                None => {
                    &&& r is Ok
                    &&& final(self).nfts@ == old(self).nfts@.insert(
                        token_id,
                        evolved(old(self).nfts@[token_id], old(self).rules@),
                    )
                    &&& final(self).admins@ == old(self).admins@
                    &&& final(self).oracles@ == old(self).oracles@
                    &&& final(self).rules@ == old(self).rules@
                    &&& final(self).next_token_id == old(self).next_token_id
                },
            },
    {
        let mut nft = match self.nfts.get(&token_id) {
            Some(n) => n.copy(),
            None => return Err(DynamicNftError::NftNotFound),
        };
        if nft.owner != caller {
            return Err(DynamicNftError::NotOwner);
        }
        match self.evolve_nft(&mut nft) {
            Ok(()) => {},
            Err(e) => return Err(e),
        }
        self.nfts.insert(token_id, nft);
        Ok(())
    }

    /// A copy of the NFT `token_id`, if any.
    pub fn get_nft(&self, token_id: u32) -> (r: Option<DynamicNft>)
        ensures
            r == (if self.nfts@.contains_key(token_id) { Some(self.nfts@[token_id]) } else { None::<DynamicNft> }),
    {
        match self.nfts.get(&token_id) {
            Some(n) => Some(n.copy()),
            None => None,
        }
    }

    /// Moves an NFT of level 3 or more from `from` to `to`.
    pub fn transfer(&mut self, from: AccountId, to: AccountId, token_id: u32) -> (r: Result<(), DynamicNftError>)
        ensures
            match (if !old(self).nfts@.contains_key(token_id) {
                Some(DynamicNftError::NftNotFound)
            } else if old(self).nfts@[token_id].owner != from {
                Some(DynamicNftError::NotOwner)
            } else if old(self).nfts@[token_id].level < TRANSFERABLE_LEVEL {
                Some(DynamicNftError::Soulbound)
            } else {
                None
            }) {
                Some(e) => r == Err::<(), DynamicNftError>(e) && *final(self) == *old(self),
                None => {
                    &&& r is Ok
                    &&& final(self).nfts@ == old(self).nfts@.insert(
                        token_id,
                        DynamicNft { owner: to, ..old(self).nfts@[token_id] },
                    )
                    &&& final(self).admins@ == old(self).admins@
                    &&& final(self).oracles@ == old(self).oracles@
                    &&& final(self).rules@ == old(self).rules@
                    &&& final(self).next_token_id == old(self).next_token_id
                },
            },
    {
        match self.nfts.get(&token_id) {
            Some(n) => {
                if n.owner != from {
                    return Err(DynamicNftError::NotOwner);
                }
                if n.level < TRANSFERABLE_LEVEL {
                    return Err(DynamicNftError::Soulbound);
                }
            },
            None => return Err(DynamicNftError::NftNotFound),
        }
        let mut n = self.nfts.remove(&token_id).unwrap();
        n.owner = to;
        self.nfts.insert(token_id, n);
        Ok(())
    }

    /// Adds or replaces the rule for `min_xp` (an admin's call).
    pub fn add_evolution_rule(&mut self, admin: AccountId, min_xp: u64, new_level: u32, new_metadata_uri: String) -> (r:
        Result<(), DynamicNftError>)
        ensures
            !old(self).admins@.contains(admin) ==> r == Err::<(), DynamicNftError>(DynamicNftError::NotAdmin)
                && *final(self) == *old(self),
            old(self).admins@.contains(admin) ==> {
                let rule = EvolutionRule { min_xp, new_level, new_metadata_uri };
                &&& r is Ok
                &&& final(self).rules@ == match rule_index(old(self).rules@, min_xp) {
                    Some(i) => old(self).rules@.update(i, rule),
                    None => old(self).rules@.push(rule),
                }
                &&& final(self).admins@ == old(self).admins@
                &&& final(self).oracles@ == old(self).oracles@
                &&& final(self).nfts@ == old(self).nfts@
                &&& final(self).next_token_id == old(self).next_token_id
            },
    {
        if !contains_u64(&self.admins, admin) {
            return Err(DynamicNftError::NotAdmin);
        }
        let rule = EvolutionRule { min_xp, new_level, new_metadata_uri };
        match find_rule(&self.rules, min_xp) {
            Some(i) => {
                self.rules.set(i, rule);
            },
            None => {
                self.rules.push(rule);
            },
        }
        Ok(())
    }

    /// Removes the rule for `min_xp` (an admin's call).
    pub fn remove_evolution_rule(&mut self, admin: AccountId, min_xp: u64) -> (r: Result<(), DynamicNftError>)
        ensures
            !old(self).admins@.contains(admin) ==> r == Err::<(), DynamicNftError>(DynamicNftError::NotAdmin)
                && *final(self) == *old(self),
            old(self).admins@.contains(admin) ==> {
                &&& r is Ok
                &&& final(self).rules@ == match rule_index(old(self).rules@, min_xp) {
                    Some(i) => old(self).rules@.remove(i),
                    None => old(self).rules@,
                }
                &&& final(self).admins@ == old(self).admins@
                &&& final(self).oracles@ == old(self).oracles@
                &&& final(self).nfts@ == old(self).nfts@
                &&& final(self).next_token_id == old(self).next_token_id
            },
    {
        if !contains_u64(&self.admins, admin) {
            return Err(DynamicNftError::NotAdmin);
        }
        match find_rule(&self.rules, min_xp) {
            Some(i) => {
                self.rules.remove(i);
            },
            None => {},
        }
        Ok(())
    }

    /// Copies of the evolution rules.
    pub fn get_evolution_rules(&self) -> (r: Vec<EvolutionRule>)
        ensures
            r@ == self.rules@,
    {
        let mut r: Vec<EvolutionRule> = Vec::new();
        let mut i: usize = 0;
        while i < self.rules.len()
            invariant
                i <= self.rules.len(),
                r@ == self.rules@.take(i as int),
            decreases self.rules.len() - i,
        {
            r.push(self.rules[i].copy());
            i = i + 1;
            assert(r@ =~= self.rules@.take(i as int));
        }
        assert(self.rules@.take(self.rules.len() as int) =~= self.rules@);
        r
    }

    /// Makes `new_oracle` the only oracle (an admin's call).
    pub fn update_oracle(&mut self, admin: AccountId, new_oracle: AccountId) -> (r: Result<(), DynamicNftError>)
        ensures
            !old(self).admins@.contains(admin) ==> r == Err::<(), DynamicNftError>(DynamicNftError::NotAdmin)
                && *final(self) == *old(self),
            old(self).admins@.contains(admin) ==> r is Ok && final(self).oracles@ == seq![new_oracle]
                && final(self).admins@ == old(self).admins@ && final(self).nfts@ == old(self).nfts@ && final(
                self).rules@ == old(self).rules@ && final(self).next_token_id == old(self).next_token_id,
    {
        if !contains_u64(&self.admins, admin) {
            return Err(DynamicNftError::NotAdmin);
        }
        let mut o: Vec<AccountId> = Vec::new();
        o.push(new_oracle);
        self.oracles = o;
        Ok(())
    }
}

/// The position of the rule for `min_xp`, if any.
pub open spec fn rule_index(rules: Seq<EvolutionRule>, min_xp: u64) -> Option<int> {
    if exists|i: int| 0 <= i < rules.len() && #[trigger] rules[i].min_xp == min_xp {
        Some(choose|i: int| 0 <= i < rules.len() && #[trigger] rules[i].min_xp == min_xp && forall|j: int| 0 <= j < i ==> rules[j].min_xp != min_xp)
    } else {
        None
    }
}

fn find_rule(rules: &Vec<EvolutionRule>, min_xp: u64) -> (r: Option<usize>)
    ensures
        r matches Some(i) ==> i < rules@.len() && rule_index(rules@, min_xp) == Some(i as int),
        r is None ==> rule_index(rules@, min_xp) is None,
{
    let mut i: usize = 0;
    while i < rules.len()
        invariant
            i <= rules.len(),
            forall|j: int| 0 <= j < i ==> (#[trigger] rules@[j]).min_xp != min_xp,
        decreases rules.len() - i,
    {
        if rules[i].min_xp == min_xp {
            proof {
                assert(rules@[i as int].min_xp == min_xp);
                let c = choose|c: int| 0 <= c < rules@.len() && #[trigger] rules@[c].min_xp == min_xp && forall|j: int| 0 <= j < c ==> rules@[j].min_xp != min_xp;
                assert(c == i as int) by {
                    if c < i {
                        assert(rules@[c].min_xp != min_xp);
                    }
                    if i < c {
                        assert(rules@[i as int].min_xp != min_xp);
                    }
                }
            }
            return Some(i);
        }
        i = i + 1;
    }
    None
}

} // verus!
