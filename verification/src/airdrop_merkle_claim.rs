//! Airdrop campaigns: the admin deposits an allocation under a Merkle root;
//! each eligible account claims its amount once, with a proof that its leaf
//! belongs to the tree, until the deadline; the admin then takes back what
//! was not claimed.
use vstd::prelude::*;
use std::collections::{HashMap, HashSet};
use soroban_sdk::Env;
use crate::util::{AccountId, Transfer, pair_key, pair_key_spec};
use crate::host::{sha256, sha256_digest, xdr_of_i128, i128_xdr, xdr_of_hash, hash_xdr};

verus! {

broadcast use vstd::std_specs::hash::group_hash_axioms;

pub const STATUS_ACTIVE: u8 = 0;
pub const STATUS_EXPIRED: u8 = 1;

#[derive(Clone, Copy)]
pub struct AirdropCampaign {
    pub id: u32,
    pub merkle_root: [u8; 32],
    pub token: AccountId,
    pub total_allocation: i128,
    pub claimed_count: u32,
    pub claimed_amount: i128,
    pub deadline: u64,
    /// 0 active, 1 expired (reclaimed), 2 cancelled.
    pub status: u8,
}

#[derive(Clone, Copy, Debug, PartialEq, Eq, Structural)]
pub enum AirdropError {
    AlreadyInitialized,
    NotInitialized,
    AdminOnly,
    AllocationNotPositive,
    DeadlineNotInFuture,
    AmountNotPositive,
    CampaignNotFound,
    CampaignExpired,
    CampaignNotActive,
    AlreadyClaimed,
    InvalidProof,
    InsufficientAllocation,
    CampaignStillActive,
    NothingToReclaim,
    Overflow,
}

/// The storage of the contract; `contract` is its own account.
pub struct AirdropMerkleClaimContract {
    pub contract: AccountId,
    pub admin: Option<AccountId>,
    pub campaign_counter: u32,
    pub campaigns: HashMap<u32, AirdropCampaign>,
    /// The claims made, by `pair_key(campaign id, claimer)`.
    pub claimed: HashSet<u128>,
}

/// The root that a proof leads to from `leaf`: each step hashes the XDR of
/// the current hash followed by the XDR of the next proof element.
pub open spec fn merkle_fold(leaf: Seq<u8>, proof: Seq<Seq<u8>>) -> Seq<u8>
    decreases proof.len(),
{
    if proof.len() == 0 {
        leaf
    } else {
        sha256_digest(hash_xdr(merkle_fold(leaf, proof.drop_last())) + hash_xdr(proof.last()))
    }
}

/// The leaf of an allocation: the hash of the claimer's address XDR followed
/// by the amount's XDR.
pub open spec fn leaf_of(claimer_xdr: Seq<u8>, amount: i128) -> Seq<u8> {
    sha256_digest(claimer_xdr + i128_xdr(amount))
}

/// The byte strings of a list of hashes.
pub open spec fn proof_bytes(proof: Seq<[u8; 32]>) -> Seq<Seq<u8>> {
    proof.map_values(|h: [u8; 32]| h@)
}

/// `a` followed by `b`.
fn concat(a: &Vec<u8>, b: &Vec<u8>) -> (r: Vec<u8>)
    ensures
        r@ == a@ + b@,
{
    let mut r = crate::util::copy_vec(a);
    let mut i: usize = 0;
    while i < b.len()
        invariant
            i <= b.len(),
            r@ == a@ + b@.take(i as int),
        decreases b.len() - i,
    {
        r.push(b[i]);
        i = i + 1;
        assert(r@ =~= a@ + b@.take(i as int));
    }
    assert(b@.take(b.len() as int) =~= b@);
    r
}

/// Whether two hashes are equal byte for byte.
fn same_hash(a: &[u8; 32], b: &[u8; 32]) -> (r: bool)
    ensures
        r == (a@ == b@),
{
    let mut i: usize = 0;
    while i < 32
        invariant
            i <= 32,
            a@.len() == 32 && b@.len() == 32,
            forall|j: int| 0 <= j < i ==> a@[j] == b@[j],
        decreases 32 - i,
    {
        if a[i] != b[i] {
            return false;
        }
        i = i + 1;
    }
    assert(a@ =~= b@);
    true
}

/// Whether `proof` leads from the leaf of (`claimer_xdr`, `amount`) to `root`.
pub fn proof_leads_to(env: &Env, root: &[u8; 32], claimer_xdr: &Vec<u8>, amount: i128, proof: &Vec<[u8; 32]>) -> (r:
    bool)
    ensures
        r == (merkle_fold(leaf_of(claimer_xdr@, amount), proof_bytes(proof@)) == root@),
{
    let amount_xdr = xdr_of_i128(env, amount);
    let leaf_input = concat(claimer_xdr, &amount_xdr);
    let mut current = sha256(env, &leaf_input);
    let mut i: usize = 0;
    while i < proof.len()
        invariant
            i <= proof.len(),
            current@ == merkle_fold(leaf_of(claimer_xdr@, amount), proof_bytes(proof@).take(i as int)),
        decreases proof.len() - i,
    {
        let left = xdr_of_hash(env, &current);
        let right = xdr_of_hash(env, &proof[i]);
        let input = concat(&left, &right);
        current = sha256(env, &input);
        proof {
            let ps = proof_bytes(proof@);
            assert(ps.take(i as int + 1).drop_last() =~= ps.take(i as int));
            assert(ps.take(i as int + 1).last() == proof@[i as int]@);
        }
        i = i + 1;
    }
    assert(proof_bytes(proof@).take(proof.len() as int) =~= proof_bytes(proof@));
    same_hash(&current, root)
}

impl AirdropMerkleClaimContract {
    /// Claimed amounts stay within each campaign's positive allocation.
    pub open spec fn wf(&self) -> bool {
        forall|id: u32| #[trigger] self.campaigns@.contains_key(id) ==> {
            let c = self.campaigns@[id];
            0 <= c.claimed_amount <= c.total_allocation && c.total_allocation > 0
        }
    }

    /// Whether `claimer` claimed from `campaign_id`.
    pub open spec fn claimed_by(&self, campaign_id: u32, claimer: AccountId) -> bool {
        self.claimed@.contains(pair_key_spec(campaign_id as u64, claimer))
    }

    /// A contract with empty storage, deployed at `contract`.
    pub fn new(contract: AccountId) -> (r: Self)
        ensures
            r.contract == contract,
            r.admin is None,
            r.campaign_counter == 0,
            r.campaigns@ == Map::<u32, AirdropCampaign>::empty(),
            r.claimed@ == Set::<u128>::empty(),
            r.wf(),
    {
        AirdropMerkleClaimContract {
            contract,
            admin: None,
            campaign_counter: 0,
            campaigns: HashMap::new(),
            claimed: HashSet::new(),
        }
    }

    /// Stores the admin; campaign ids start at 1.
    pub fn initialize(&mut self, admin: AccountId) -> (r: Result<(), AirdropError>)
        requires
            old(self).wf(),
        ensures
            final(self).wf(),
            old(self).admin is Some ==> r == Err::<(), AirdropError>(AirdropError::AlreadyInitialized)
                && *final(self) == *old(self),
            old(self).admin is None ==> r is Ok && final(self).admin == Some(admin)
                && final(self).campaign_counter == 0 && final(self).campaigns@ == old(self).campaigns@
                && final(self).claimed@ == old(self).claimed@ && final(self).contract == old(self).contract,
    {
        if self.admin.is_some() {
            return Err(AirdropError::AlreadyInitialized);
        }
        self.admin = Some(admin);
        self.campaign_counter = 0;
        Ok(())
    }

    /// The stored admin.
    pub fn admin(&self) -> (r: Result<AccountId, AirdropError>)
        ensures
            match self.admin {
                Some(a) => r == Ok::<AccountId, AirdropError>(a),
                None => r == Err::<AccountId, AirdropError>(AirdropError::NotInitialized),
            },
    {
        match self.admin {
            Some(a) => Ok(a),
            None => Err(AirdropError::NotInitialized),
        }
    }

    /// The error of `create_campaign`, checked in the order of the contract.
    pub open spec fn create_error(&self, admin: AccountId, total_allocation: i128, deadline: u64, now: u64) -> Option<
        AirdropError,
    > {
        if self.admin is None {
            Some(AirdropError::NotInitialized)
        } else if self.admin.unwrap() != admin {
            Some(AirdropError::AdminOnly)
        } else if total_allocation <= 0 {
            Some(AirdropError::AllocationNotPositive)
        } else if deadline <= now {
            Some(AirdropError::DeadlineNotInFuture)
        } else if self.campaign_counter == u32::MAX {
            Some(AirdropError::Overflow)
        } else {
            None
        }
    }

    /// Opens a campaign under the next id with the admin's deposit of
    /// `total_allocation`; returns the id and the deposit.
    pub fn create_campaign(
        &mut self,
        admin: AccountId,
        merkle_root: [u8; 32],
        token: AccountId,
        total_allocation: i128,
        deadline: u64,
        now: u64,
    ) -> (r: Result<(u32, Transfer), AirdropError>)
        requires
            old(self).wf(),
        ensures
            final(self).wf(),
            match old(self).create_error(admin, total_allocation, deadline, now) {
                Some(e) => r == Err::<(u32, Transfer), AirdropError>(e) && *final(self) == *old(self),
                None => {
                    let id = (old(self).campaign_counter + 1) as u32;
                    &&& r == Ok::<(u32, Transfer), AirdropError>(
                        (id, Transfer { token, from: admin, to: old(self).contract, amount: total_allocation }),
                    )
                    &&& final(self).campaign_counter == id
                    &&& final(self).campaigns@ == old(self).campaigns@.insert(
                        id,
                        AirdropCampaign {
                            id,
                            merkle_root,
                            token,
                            total_allocation,
                            claimed_count: 0,
                            claimed_amount: 0,
                            deadline,
                            status: STATUS_ACTIVE,
                        },
                    )
                    &&& final(self).claimed@ == old(self).claimed@
                    &&& final(self).admin == old(self).admin
                    &&& final(self).contract == old(self).contract
                },
            },
    {
        match self.admin {
            None => return Err(AirdropError::NotInitialized),
            Some(a) => {
                if a != admin {
                    return Err(AirdropError::AdminOnly);
                }
            },
        }
        if total_allocation <= 0 {
            return Err(AirdropError::AllocationNotPositive);
        }
        if deadline <= now {
            return Err(AirdropError::DeadlineNotInFuture);
        }
        if self.campaign_counter == u32::MAX {
            return Err(AirdropError::Overflow);
        }
        let id = self.campaign_counter + 1;
        let ghost old_campaigns = self.campaigns@;
        self.campaigns.insert(
            id,
            AirdropCampaign {
                id,
                merkle_root,
                token,
                total_allocation,
                claimed_count: 0,
                claimed_amount: 0,
                deadline,
                status: STATUS_ACTIVE,
            },
        );
        self.campaign_counter = id;
        assert forall|k: u32| #[trigger] self.campaigns@.contains_key(k) implies {
            let c = self.campaigns@[k];
            0 <= c.claimed_amount <= c.total_allocation && c.total_allocation > 0
        } by {
            if k != id {
                assert(old_campaigns.contains_key(k));
            }
        }
        Ok((id, Transfer { token, from: admin, to: self.contract, amount: total_allocation }))
    }

    /// The error of a claim, checked in the order of the contract, where
    /// `proof_ok` says whether the claimer's proof leads to the root.
    pub open spec fn claim_error(&self, campaign_id: u32, claimer: AccountId, amount: i128, proof_ok: bool, now: u64) -> Option<
        AirdropError,
    > {
        if amount <= 0 {
            Some(AirdropError::AmountNotPositive)
        } else if !self.campaigns@.contains_key(campaign_id) {
            Some(AirdropError::CampaignNotFound)
        } else if now > self.campaigns@[campaign_id].deadline {
            Some(AirdropError::CampaignExpired)
        } else if self.campaigns@[campaign_id].status != STATUS_ACTIVE {
            Some(AirdropError::CampaignNotActive)
        } else if self.claimed_by(campaign_id, claimer) {
            Some(AirdropError::AlreadyClaimed)
        } else if !proof_ok {
            Some(AirdropError::InvalidProof)
        } else if self.campaigns@[campaign_id].claimed_amount + amount > self.campaigns@[campaign_id].total_allocation {
            Some(AirdropError::InsufficientAllocation)
        } else if self.campaigns@[campaign_id].claimed_count == u32::MAX {
            Some(AirdropError::Overflow)
        } else {
            None
        }
    }

    /// A claim of `amount` by `claimer` whose proof check gave `proof_ok`:
    /// the claim is recorded, the campaign's totals grow and the amount is
    /// paid out.
    pub fn claim_verified(&mut self, campaign_id: u32, claimer: AccountId, amount: i128, proof_ok: bool, now: u64) -> (r:
        Result<Transfer, AirdropError>)
        requires
            old(self).wf(),
        ensures
            r is Ok ==> forall|amt: i128, ok: bool, t: u64| #[trigger] final(self).claim_error(campaign_id, claimer, amt, ok, t) is Some,
            final(self).wf(),
            match old(self).claim_error(campaign_id, claimer, amount, proof_ok, now) {
                Some(e) => r == Err::<Transfer, AirdropError>(e) && *final(self) == *old(self),
                None => {
                    let c = old(self).campaigns@[campaign_id];
                    &&& r == Ok::<Transfer, AirdropError>(
                        Transfer { token: c.token, from: old(self).contract, to: claimer, amount },
                    )
                    &&& final(self).claimed@ == old(self).claimed@.insert(pair_key_spec(campaign_id as u64, claimer))
                    &&& final(self).campaigns@ == old(self).campaigns@.insert(
                        campaign_id,
                        AirdropCampaign {
                            claimed_count: (c.claimed_count + 1) as u32,
                            claimed_amount: (c.claimed_amount + amount) as i128,
                            ..c
                        },
                    )
                    &&& final(self).admin == old(self).admin
                    &&& final(self).campaign_counter == old(self).campaign_counter
                    &&& final(self).contract == old(self).contract
                },
            },
    {
        if amount <= 0 {
            return Err(AirdropError::AmountNotPositive);
        }
        let c = match self.campaigns.get(&campaign_id) {
            Some(c) => *c,
            None => return Err(AirdropError::CampaignNotFound),
        };
        if now > c.deadline {
            return Err(AirdropError::CampaignExpired);
        }
        if c.status != STATUS_ACTIVE {
            return Err(AirdropError::CampaignNotActive);
        }
        let key = pair_key(campaign_id as u64, claimer);
        if self.claimed.contains(&key) {
            return Err(AirdropError::AlreadyClaimed);
        }
        if !proof_ok {
            return Err(AirdropError::InvalidProof);
        }
        assert(self.campaigns@.contains_key(campaign_id));
        if amount > c.total_allocation - c.claimed_amount {
            return Err(AirdropError::InsufficientAllocation);
        }
        if c.claimed_count == u32::MAX {
            return Err(AirdropError::Overflow);
        }
        self.claimed.insert(key);
        let ghost old_campaigns = self.campaigns@;
        let updated = AirdropCampaign {
            claimed_count: c.claimed_count + 1,
            claimed_amount: c.claimed_amount + amount,
            ..c
        };
        self.campaigns.insert(campaign_id, updated);
        assert forall|k: u32| #[trigger] self.campaigns@.contains_key(k) implies {
            let d = self.campaigns@[k];
            0 <= d.claimed_amount <= d.total_allocation && d.total_allocation > 0
        } by {
            if k != campaign_id {
                assert(old_campaigns.contains_key(k));
            }
        }
        Ok(Transfer { token: c.token, from: self.contract, to: claimer, amount })
    }

    /// Whether `proof` proves that (`claimer_xdr`, `amount`) belongs to the
    /// tree of the campaign; `claimer_xdr` is the XDR of the claimer's address.
    pub fn verify_proof(&self, env: &Env, campaign_id: u32, claimer_xdr: &Vec<u8>, amount: i128, proof: &Vec<[u8; 32]>) -> (r:
        Result<bool, AirdropError>)
        ensures
            !self.campaigns@.contains_key(campaign_id) ==> r == Err::<bool, AirdropError>(AirdropError::CampaignNotFound),
            self.campaigns@.contains_key(campaign_id) ==> r == Ok::<bool, AirdropError>(
                merkle_fold(leaf_of(claimer_xdr@, amount), proof_bytes(proof@)) == self.campaigns@[campaign_id].merkle_root@,
            ),
    {
        match self.campaigns.get(&campaign_id) {
            Some(c) => Ok(proof_leads_to(env, &c.merkle_root, claimer_xdr, amount, proof)),
            None => Err(AirdropError::CampaignNotFound),
        }
    }

    /// A claim with its Merkle proof: the proof is checked against the
    /// campaign's root and the claim proceeds as `claim_verified`.
    ///
    /// `claimer_xdr` must be the XDR of the address that `claimer` numbers:
    /// the library knows accounts by number only and cannot check that the
    /// two name the same account, so the caller that maps addresses to
    /// numbers supplies both.
    pub fn claim(
        &mut self,
        env: &Env,
        campaign_id: u32,
        claimer: AccountId,
        claimer_xdr: &Vec<u8>,
        amount: i128,
        proof: &Vec<[u8; 32]>,
        now: u64,
    ) -> (r: Result<Transfer, AirdropError>)
        requires
            old(self).wf(),
        ensures
            final(self).wf(),
            ({
                let ok = old(self).campaigns@.contains_key(campaign_id) && merkle_fold(
                    leaf_of(claimer_xdr@, amount),
                    proof_bytes(proof@),
                ) == old(self).campaigns@[campaign_id].merkle_root@;
                match old(self).claim_error(campaign_id, claimer, amount, ok, now) {
                    Some(e) => r == Err::<Transfer, AirdropError>(e) && *final(self) == *old(self),
                    None => {
                        let c = old(self).campaigns@[campaign_id];
                        &&& r == Ok::<Transfer, AirdropError>(
                            Transfer { token: c.token, from: old(self).contract, to: claimer, amount },
                        )
                        &&& final(self).claimed@ == old(self).claimed@.insert(pair_key_spec(campaign_id as u64, claimer))
                        &&& final(self).campaigns@ == old(self).campaigns@.insert(
                            campaign_id,
                            AirdropCampaign {
                                claimed_count: (c.claimed_count + 1) as u32,
                                claimed_amount: (c.claimed_amount + amount) as i128,
                                ..c
                            },
                        )
                        &&& final(self).admin == old(self).admin
                        &&& final(self).campaign_counter == old(self).campaign_counter
                        &&& final(self).contract == old(self).contract
                    },
                }
            }),
    {
        let ok = match self.verify_proof(env, campaign_id, claimer_xdr, amount, proof) {
            Ok(b) => b,
            Err(_) => false,
        };
        self.claim_verified(campaign_id, claimer, amount, ok, now)
    }

    /// A copy of the campaign `campaign_id`, if any.
    pub fn get_campaign(&self, campaign_id: u32) -> (r: Option<AirdropCampaign>)
        ensures
            r == (if self.campaigns@.contains_key(campaign_id) {
                Some(self.campaigns@[campaign_id])
            } else {
                None::<AirdropCampaign>
            }),
    {
        match self.campaigns.get(&campaign_id) {
            Some(c) => Some(*c),
            None => None,
        }
    }

    /// Whether `claimer` claimed from `campaign_id`.
    pub fn has_claimed(&self, campaign_id: u32, claimer: AccountId) -> (r: bool)
        ensures
            r == self.claimed_by(campaign_id, claimer),
    {
        self.claimed.contains(&pair_key(campaign_id as u64, claimer))
    }

    /// The error of `reclaim_unclaimed`, checked in the order of the contract.
    pub open spec fn reclaim_error(&self, admin: AccountId, campaign_id: u32, now: u64) -> Option<AirdropError> {
        if self.admin is None {
            Some(AirdropError::NotInitialized)
        } else if self.admin.unwrap() != admin {
            Some(AirdropError::AdminOnly)
        } else if !self.campaigns@.contains_key(campaign_id) {
            Some(AirdropError::CampaignNotFound)
        } else if now <= self.campaigns@[campaign_id].deadline {
            Some(AirdropError::CampaignStillActive)
        } else if self.campaigns@[campaign_id].total_allocation == self.campaigns@[campaign_id].claimed_amount {
            Some(AirdropError::NothingToReclaim)
        } else {
            None
        }
    }

    /// After the deadline, marks the campaign expired and pays the admin
    /// what was not claimed; returns that amount and the payment.
    pub fn reclaim_unclaimed(&mut self, admin: AccountId, campaign_id: u32, now: u64) -> (r: Result<
        (i128, Transfer),
        AirdropError,
    >)
        requires
            old(self).wf(),
        ensures
            final(self).wf(),
            match old(self).reclaim_error(admin, campaign_id, now) {
                Some(e) => r == Err::<(i128, Transfer), AirdropError>(e) && *final(self) == *old(self),
                None => {
                    let c = old(self).campaigns@[campaign_id];
                    let unclaimed = (c.total_allocation - c.claimed_amount) as i128;
                    &&& r == Ok::<(i128, Transfer), AirdropError>(
                        (unclaimed, Transfer { token: c.token, from: old(self).contract, to: admin, amount: unclaimed }),
                    )
                    &&& final(self).campaigns@ == old(self).campaigns@.insert(
                        campaign_id,
                        AirdropCampaign { status: STATUS_EXPIRED, ..c },
                    )
                    &&& final(self).claimed@ == old(self).claimed@
                    &&& final(self).admin == old(self).admin
                    &&& final(self).campaign_counter == old(self).campaign_counter
                    &&& final(self).contract == old(self).contract
                },
            },
    {
        match self.admin {
            None => return Err(AirdropError::NotInitialized),
            Some(a) => {
                if a != admin {
                    return Err(AirdropError::AdminOnly);
                }
            },
        }
        let c = match self.campaigns.get(&campaign_id) {
            Some(c) => *c,
            None => return Err(AirdropError::CampaignNotFound),
        };
        if now <= c.deadline {
            return Err(AirdropError::CampaignStillActive);
        }
        assert(self.campaigns@.contains_key(campaign_id));
        let unclaimed = c.total_allocation - c.claimed_amount;
        if unclaimed == 0 {
            return Err(AirdropError::NothingToReclaim);
        }
        let ghost old_campaigns = self.campaigns@;
        self.campaigns.insert(campaign_id, AirdropCampaign { status: STATUS_EXPIRED, ..c });
        assert forall|k: u32| #[trigger] self.campaigns@.contains_key(k) implies {
            let d = self.campaigns@[k];
            0 <= d.claimed_amount <= d.total_allocation && d.total_allocation > 0
        } by {
            if k != campaign_id {
                assert(old_campaigns.contains_key(k));
            }
        }
        Ok((unclaimed, Transfer { token: c.token, from: self.contract, to: admin, amount: unclaimed }))
    }
}

} // verus!
