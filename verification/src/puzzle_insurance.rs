//! Insurance on puzzle attempts: a player buys a policy covering a number of
//! attempts for a time, priced from the base rate; each claim pays a share
//! of the loss until the attempts run out or the policy expires.
use vstd::prelude::*;
use std::collections::HashMap;
use crate::util::{AccountId, Transfer, trunc_div, vec_at, push_value, vec_or_empty};

verus! {

broadcast use vstd::std_specs::hash::group_hash_axioms;

/// The longest policy: one year, in seconds.
pub const MAX_DURATION: u64 = 31536000;

#[derive(Clone, Copy, Debug, PartialEq, Eq, Structural)]
pub struct InsurancePolicy {
    pub holder: AccountId,
    pub premium_paid: i128,
    pub coverage_percent: u32,
    pub attempts_covered: u32,
    pub attempts_used: u32,
    pub expires_at: u64,
    pub active: bool,
}

#[derive(Clone, Copy, Debug, PartialEq, Eq, Structural)]
pub struct InsuranceConfig {
    pub admin: AccountId,
    pub payment_token: AccountId,
    pub base_rate: i128,
    pub max_coverage_percent: u32,
}

#[derive(Clone, Copy, Debug, PartialEq, Eq, Structural)]
pub enum InsuranceError {
    AlreadyInitialized,
    NotInitialized,
    CoverageTooHigh,
    InvalidAttempts,
    InvalidDuration,
    PremiumNotPositive,
    PolicyNotFound,
    PolicyNotActive,
    PolicyExpired,
    NoAttemptsRemaining,
    LossNotPositive,
    PayoutNotPositive,
    PolicyAlreadyInactive,
    Overflow,
}

/// The storage of the contract; `contract` is its own account.
pub struct PuzzleInsuranceContract {
    pub contract: AccountId,
    pub config: Option<InsuranceConfig>,
    pub policy_counter: u64,
    pub policies: HashMap<u64, InsurancePolicy>,
    pub user_policies: HashMap<u64, Vec<u64>>,
}

/// The premium of a policy: attempts times base rate times coverage, in
/// basis points, rounded toward zero.
pub open spec fn premium_of(attempts: u32, base_rate: i128, coverage_percent: u32) -> int {
    trunc_div(attempts * base_rate * coverage_percent, 10000)
}

/// Whether computing the premium overflows an `i128`.
pub open spec fn premium_overflows(attempts: u32, base_rate: i128, coverage_percent: u32) -> bool {
    ||| attempts * base_rate > i128::MAX
    ||| attempts * base_rate < i128::MIN
    ||| attempts * base_rate * coverage_percent > i128::MAX
    ||| attempts * base_rate * coverage_percent < i128::MIN
}

/// The payout of a claim: the covered share of the loss, rounded toward zero.
pub open spec fn payout_of(loss: i128, coverage_percent: u32) -> int {
    trunc_div(loss * coverage_percent, 10000)
}

impl PuzzleInsuranceContract {
    /// A contract with empty storage, deployed at `contract`.
    pub fn new(contract: AccountId) -> (r: Self)
        ensures
            r.contract == contract,
            r.config is None,
            r.policy_counter == 0,
            r.policies@ == Map::<u64, InsurancePolicy>::empty(),
            r.user_policies@ == Map::<u64, Vec<u64>>::empty(),
    {
        PuzzleInsuranceContract {
            contract,
            config: None,
            policy_counter: 0,
            policies: HashMap::new(),
            user_policies: HashMap::new(),
        }
    }

    /// Stores the configuration; coverage is capped at 8000 basis points.
    pub fn initialize(&mut self, admin: AccountId, payment_token: AccountId, base_rate: i128) -> (r: Result<
        (),
        InsuranceError,
    >)
        ensures
            old(self).config is Some ==> r == Err::<(), InsuranceError>(InsuranceError::AlreadyInitialized)
                && *final(self) == *old(self),
            old(self).config is None ==> r is Ok && final(self).config == Some(
                InsuranceConfig { admin, payment_token, base_rate, max_coverage_percent: 8000 },
            ) && final(self).policy_counter == 0 && final(self).policies@ == old(self).policies@
                && final(self).user_policies@ == old(self).user_policies@ && final(self).contract == old(self).contract,
    {
        if self.config.is_some() {
            return Err(InsuranceError::AlreadyInitialized);
        }
        self.config = Some(InsuranceConfig { admin, payment_token, base_rate, max_coverage_percent: 8000 });
        self.policy_counter = 0;
        Ok(())
    }

    /// The error of `purchase_policy`, checked in the order of the contract.
    pub open spec fn purchase_error(&self, attempts: u32, duration: u64, coverage_percent: u32, now: u64) -> Option<
        InsuranceError,
    > {
        if self.config is None {
            Some(InsuranceError::NotInitialized)
        } else if coverage_percent > self.config.unwrap().max_coverage_percent {
            Some(InsuranceError::CoverageTooHigh)
        } else if attempts == 0 || attempts > 100 {
            Some(InsuranceError::InvalidAttempts)
        } else if duration == 0 || duration > MAX_DURATION {
            Some(InsuranceError::InvalidDuration)
        } else if premium_overflows(attempts, self.config.unwrap().base_rate, coverage_percent) {
            Some(InsuranceError::Overflow)
        } else if premium_of(attempts, self.config.unwrap().base_rate, coverage_percent) <= 0 {
            Some(InsuranceError::PremiumNotPositive)
        } else if self.policy_counter == u64::MAX || now + duration > u64::MAX {
            Some(InsuranceError::Overflow)
        } else {
            None
        }
    }

    /// Sells `holder` a policy under the next id, valid for `duration`
    /// seconds from `now`; returns the id and the premium payment.
    pub fn purchase_policy(&mut self, holder: AccountId, attempts: u32, duration: u64, coverage_percent: u32, now: u64) -> (r:
        Result<(u64, Transfer), InsuranceError>)
        ensures
            match old(self).purchase_error(attempts, duration, coverage_percent, now) {
                Some(e) => r == Err::<(u64, Transfer), InsuranceError>(e) && *final(self) == *old(self),
                None => {
                    let cfg = old(self).config.unwrap();
                    let premium = premium_of(attempts, cfg.base_rate, coverage_percent) as i128;
                    let id = (old(self).policy_counter + 1) as u64;
                    &&& r == Ok::<(u64, Transfer), InsuranceError>(
                        (id, Transfer { token: cfg.payment_token, from: holder, to: old(self).contract, amount: premium }),
                    )
                    &&& final(self).policy_counter == id
                    &&& final(self).policies@ == old(self).policies@.insert(
                        id,
                        InsurancePolicy {
                            holder,
                            premium_paid: premium,
                            coverage_percent,
                            attempts_covered: attempts,
                            attempts_used: 0,
                            expires_at: (now + duration) as u64,
                            active: true,
                        },
                    )
                    &&& forall|a: u64| #[trigger] vec_at(final(self).user_policies@, a) == if a == holder {
                        vec_at(old(self).user_policies@, a).push(id)
                    } else {
                        vec_at(old(self).user_policies@, a)
                    }
                    &&& final(self).config == old(self).config
                    &&& final(self).contract == old(self).contract
                },
            },
    {
        let cfg = match self.config {
            Some(c) => c,
            None => return Err(InsuranceError::NotInitialized),
        };
        if coverage_percent > cfg.max_coverage_percent {
            return Err(InsuranceError::CoverageTooHigh);
        }
        if attempts == 0 || attempts > 100 {
            return Err(InsuranceError::InvalidAttempts);
        }
        if duration == 0 || duration > MAX_DURATION {
            return Err(InsuranceError::InvalidDuration);
        }
        let a = match (attempts as i128).checked_mul(cfg.base_rate) {
            Some(v) => v,
            None => return Err(InsuranceError::Overflow),
        };
        let b = match a.checked_mul(coverage_percent as i128) {
            Some(v) => v,
            None => return Err(InsuranceError::Overflow),
        };
        let premium = b / 10000;
        if premium <= 0 {
            return Err(InsuranceError::PremiumNotPositive);
        }
        if self.policy_counter == u64::MAX || now > u64::MAX - duration {
            return Err(InsuranceError::Overflow);
        }
        let id = self.policy_counter + 1;
        self.policy_counter = id;
        self.policies.insert(
            id,
            InsurancePolicy {
                holder,
                premium_paid: premium,
                coverage_percent,
                attempts_covered: attempts,
                attempts_used: 0,
                expires_at: now + duration,
                active: true,
            },
        );
        push_value(&mut self.user_policies, holder, id);
        Ok((id, Transfer { token: cfg.payment_token, from: holder, to: self.contract, amount: premium }))
    }

    /// The error of `file_claim`: a policy whose attempts are used up reports
    /// that first, before its inactivity; the other checks follow the
    /// contract's order.
    pub open spec fn claim_error(&self, policy_id: u64, loss_amount: i128, now: u64) -> Option<InsuranceError> {
        if !self.policies@.contains_key(policy_id) {
            Some(InsuranceError::PolicyNotFound)
        } else if self.policies@[policy_id].attempts_used >= self.policies@[policy_id].attempts_covered {
            Some(InsuranceError::NoAttemptsRemaining)
        } else if !self.policies@[policy_id].active {
            Some(InsuranceError::PolicyNotActive)
        } else if now > self.policies@[policy_id].expires_at {
            Some(InsuranceError::PolicyExpired)
        } else if loss_amount <= 0 {
            Some(InsuranceError::LossNotPositive)
        } else if loss_amount * self.policies@[policy_id].coverage_percent > i128::MAX {
            Some(InsuranceError::Overflow)
        } else if payout_of(loss_amount, self.policies@[policy_id].coverage_percent) <= 0 {
            Some(InsuranceError::PayoutNotPositive)
        } else if self.config is None {
            Some(InsuranceError::NotInitialized)
        } else {
            None
        }
    }

    /// Pays a claim on `loss_amount`: the covered share goes to the holder and
    /// one attempt is used; the policy closes with its last attempt. Returns
    /// the payout and its payment.
    pub fn file_claim(&mut self, policy_id: u64, loss_amount: i128, now: u64) -> (r: Result<
        (i128, Transfer),
        InsuranceError,
    >)
        ensures
            match old(self).claim_error(policy_id, loss_amount, now) {
                Some(e) => r == Err::<(i128, Transfer), InsuranceError>(e) && *final(self) == *old(self),
                None => {
                    let p = old(self).policies@[policy_id];
                    let payout = payout_of(loss_amount, p.coverage_percent) as i128;
                    let used = (p.attempts_used + 1) as u32;
                    &&& r == Ok::<(i128, Transfer), InsuranceError>(
                        (
                            payout,
                            Transfer {
                                token: old(self).config.unwrap().payment_token,
                                from: old(self).contract,
                                to: p.holder,
                                amount: payout,
                            },
                        ),
                    )
                    &&& final(self).policies@ == old(self).policies@.insert(
                        policy_id,
                        InsurancePolicy { attempts_used: used, active: used < p.attempts_covered, ..p },
                    )
                    &&& final(self).user_policies@ == old(self).user_policies@
                    &&& final(self).policy_counter == old(self).policy_counter
                    &&& final(self).config == old(self).config
                    &&& final(self).contract == old(self).contract
                },
            },
    {
        let p = match self.policies.get(&policy_id) {
            Some(p) => *p,
            None => return Err(InsuranceError::PolicyNotFound),
        };
        if p.attempts_used >= p.attempts_covered {
            return Err(InsuranceError::NoAttemptsRemaining);
        }
        if !p.active {
            return Err(InsuranceError::PolicyNotActive);
        }
        if now > p.expires_at {
            return Err(InsuranceError::PolicyExpired);
        }
        if loss_amount <= 0 {
            return Err(InsuranceError::LossNotPositive);
        }
        let product = match loss_amount.checked_mul(p.coverage_percent as i128) {
            Some(v) => v,
            None => return Err(InsuranceError::Overflow),
        };
        let payout = product / 10000;
        if payout <= 0 {
            return Err(InsuranceError::PayoutNotPositive);
        }
        let cfg = match self.config {
            Some(c) => c,
            None => return Err(InsuranceError::NotInitialized),
        };
        let used = p.attempts_used + 1;
        self.policies.insert(
            policy_id,
            InsurancePolicy { attempts_used: used, active: used < p.attempts_covered, ..p },
        );
        Ok((payout, Transfer { token: cfg.payment_token, from: self.contract, to: p.holder, amount: payout }))
    }

    /// The policy `policy_id`, if any; an active policy past its expiry at
    /// `now` is marked inactive first.
    pub fn get_policy(&mut self, policy_id: u64, now: u64) -> (r: Option<InsurancePolicy>)
        ensures
            !old(self).policies@.contains_key(policy_id) ==> r is None && *final(self) == *old(self),
            old(self).policies@.contains_key(policy_id) ==> {
                let p = old(self).policies@[policy_id];
                let q = if p.active && now > p.expires_at { InsurancePolicy { active: false, ..p } } else { p };
                &&& r == Some(q)
                &&& final(self).policies@ == old(self).policies@.insert(policy_id, q)
                &&& final(self).user_policies@ == old(self).user_policies@
                &&& final(self).policy_counter == old(self).policy_counter
                &&& final(self).config == old(self).config
                &&& final(self).contract == old(self).contract
            },
    {
        let p = match self.policies.get(&policy_id) {
            Some(p) => *p,
            None => return None,
        };
        let ghost old_policies = self.policies@;
        if p.active && now > p.expires_at {
            let q = InsurancePolicy { active: false, ..p };
            self.policies.insert(policy_id, q);
            Some(q)
        } else {
            assert(old_policies.insert(policy_id, p) =~= old_policies);
            Some(p)
        }
    }

    /// The policies bought by `holder`, in order.
    pub fn get_user_policies(&self, holder: AccountId) -> (r: Vec<u64>)
        ensures
            r@ == vec_at(self.user_policies@, holder),
    {
        vec_or_empty(&self.user_policies, &holder)
    }

    /// Closes an active policy.
    pub fn expire_policy(&mut self, policy_id: u64) -> (r: Result<(), InsuranceError>)
        ensures
            !old(self).policies@.contains_key(policy_id) ==> r == Err::<(), InsuranceError>(
                InsuranceError::PolicyNotFound,
            ) && *final(self) == *old(self),
            old(self).policies@.contains_key(policy_id) && !old(self).policies@[policy_id].active ==> r == Err::<
                (),
                InsuranceError,
            >(InsuranceError::PolicyAlreadyInactive) && *final(self) == *old(self),
            old(self).policies@.contains_key(policy_id) && old(self).policies@[policy_id].active ==> r is Ok
                && final(self).policies@ == old(self).policies@.insert(
                policy_id,
                InsurancePolicy { active: false, ..old(self).policies@[policy_id] },
            ) && final(self).user_policies@ == old(self).user_policies@ && final(self).policy_counter == old(self).policy_counter && final(self).config == old(self).config && final(self).contract == old(self).contract,
    {
        let p = match self.policies.get(&policy_id) {
            Some(p) => *p,
            None => return Err(InsuranceError::PolicyNotFound),
        };
        if !p.active {
            return Err(InsuranceError::PolicyAlreadyInactive);
        }
        self.policies.insert(policy_id, InsurancePolicy { active: false, ..p });
        Ok(())
    }
}

/// A claim never pays more than the loss: with a coverage of at most the
/// whole (10000 basis points), the payout of a non-negative loss lies
/// between zero and the loss.
pub proof fn lemma_payout_within_loss(loss: i128, coverage_percent: u32)
    requires
        loss >= 0,
        coverage_percent <= 10000,
    ensures
        0 <= payout_of(loss, coverage_percent) <= loss,
{
    let x = loss * coverage_percent;
    assert(0 <= x <= loss * 10000) by (nonlinear_arith)
        requires
            x == loss * coverage_percent,
            loss >= 0,
            coverage_percent <= 10000,
    ;
    assert(0 <= x / 10000 <= loss) by (nonlinear_arith)
        requires
            0 <= x <= loss * 10000,
    ;
}

} // verus!
