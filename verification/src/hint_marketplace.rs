//! A marketplace for puzzle hints: creators publish hints, sellers list them
//! at a price that follows the hint's quality and demand, buyers pay the
//! seller, a platform fee and a creator royalty, raters refine a hint's
//! quality, and creators bundle hints into discounted packs.
use vstd::prelude::*;
use std::collections::HashMap;
use crate::util::{AccountId, Transfer, vec_at, value_at, value_or, vec_or_empty, push_value, remove_first_u64, seq_remove_first, count_of, copy_vec, pair_key, pair_key_spec};

verus! {

broadcast use vstd::std_specs::hash::group_hash_axioms;

#[derive(Clone, Copy, Debug, PartialEq, Eq, Structural)]
pub enum HintQuality {
    Poor,
    Fair,
    Good,
    Excellent,
    Perfect,
}

#[derive(Clone, Copy, Debug, PartialEq, Eq, Structural)]
pub enum ListingStatus {
    Active,
    Sold,
    Cancelled,
    Expired,
}

#[derive(Clone, Copy, Debug, PartialEq, Eq, Structural)]
pub enum MarketplaceError {
    NotInitialized,
    AlreadyInitialized,
    NotAuthorized,
    HintNotFound,
    ListingNotFound,
    ListingNotActive,
    ListingExpired,
    InvalidPrice,
    InvalidDuration,
    InsufficientBalance,
    InvalidQuality,
    InvalidRating,
    PackNotFound,
    PackExpired,
    DuplicateRating,
    FeeTooHigh,
    AdjustmentFactorTooHigh,
    RoyaltyTooHigh,
    CannotBuyOwnListing,
    EmptyPack,
    DiscountTooHigh,
    NotHintCreator,
    Overflow,
}

pub struct Hint {
    pub hint_id: u64,
    pub puzzle_id: u32,
    pub creator: AccountId,
    pub content_hash: Vec<u8>,
    pub quality: HintQuality,
    pub created_at: u64,
    pub total_sales: u32,
    pub total_rating: u64,
    pub rating_count: u32,
}

#[derive(Clone, Copy, Debug, PartialEq, Eq, Structural)]
pub struct HintListing {
    pub listing_id: u64,
    pub hint_id: u64,
    pub seller: AccountId,
    pub payment_token: AccountId,
    pub base_price: i128,
    pub current_price: i128,
    pub status: ListingStatus,
    pub created_time: u64,
    pub expiration_time: u64,
    pub creator: AccountId,
    pub royalty_bps: u32,
    pub quality: HintQuality,
}

pub struct HintPack {
    pub pack_id: u64,
    pub name: String,
    pub hint_ids: Vec<u64>,
    pub pack_price: i128,
    pub discount_bps: u32,
    pub creator: AccountId,
    pub created_at: u64,
    pub expiration_time: Option<u64>,
}

#[derive(Clone, Copy, Debug, PartialEq, Eq, Structural)]
pub struct Rating {
    pub rater: AccountId,
    pub hint_id: u64,
    pub quality_rating: u32,
    pub helpfulness: u32,
    pub timestamp: u64,
}

#[derive(Clone, Copy, Debug, PartialEq, Eq, Structural)]
pub struct MarketplaceConfig {
    pub admin: AccountId,
    pub fee_recipient: AccountId,
    pub fee_bps: u32,
    pub min_listing_duration: u64,
    pub max_listing_duration: u64,
    pub price_adjustment_factor: u32,
    pub min_quality_for_listing: HintQuality,
}

#[derive(Clone, Copy, Debug, PartialEq, Eq, Structural)]
pub struct DemandMetrics {
    pub hint_id: u64,
    pub views: u32,
    pub purchases: u32,
    pub last_purchase_time: u64,
    pub average_time_to_sale: u64,
}

/// The storage of the contract; `contract` is the contract's own account.
pub struct HintMarketplace {
    pub contract: AccountId,
    pub config: Option<MarketplaceConfig>,
    pub hint_counter: u64,
    pub listing_counter: u64,
    pub pack_counter: u64,
    pub hints: HashMap<u64, Hint>,
    pub listings: HashMap<u64, HintListing>,
    pub packs: HashMap<u64, HintPack>,
    /// Ratings under `pair_key(hint_id, rater)`.
    pub ratings: HashMap<u128, Rating>,
    pub ratings_by_hint: HashMap<u64, Vec<u64>>,
    pub listings_by_hint: HashMap<u64, Vec<u64>>,
    pub listings_by_seller: HashMap<u64, Vec<u64>>,
    pub listings_by_puzzle: HashMap<u32, Vec<u64>>,
    pub active_listings: Vec<u64>,
    pub price_history: HashMap<u64, Vec<i128>>,
    pub demand: HashMap<u64, DemandMetrics>,
    pub packs_by_creator: HashMap<u64, Vec<u64>>,
    pub active_packs: Vec<u64>,
}

// ───────────── mathematical model ─────────────

/// The rank of a quality: Poor 1 up to Perfect 5.
pub open spec fn quality_rank(q: HintQuality) -> int {
    match q {
        HintQuality::Poor => 1,
        HintQuality::Fair => 2,
        HintQuality::Good => 3,
        HintQuality::Excellent => 4,
        HintQuality::Perfect => 5,
    }
}

/// The price multiplier of a quality, in basis points.
pub open spec fn quality_multiplier(q: HintQuality) -> int {
    match q {
        HintQuality::Poor => 5000,
        HintQuality::Fair => 7500,
        HintQuality::Good => 10000,
        HintQuality::Excellent => 12500,
        HintQuality::Perfect => 15000,
    }
}

/// The quality that an average rating stands for; `Good` outside 1..=5.
pub open spec fn quality_of_average(avg: int) -> HintQuality {
    if avg == 1 {
        HintQuality::Poor
    } else if avg == 2 {
        HintQuality::Fair
    } else if avg == 3 {
        HintQuality::Good
    } else if avg == 4 {
        HintQuality::Excellent
    } else if avg == 5 {
        HintQuality::Perfect
    } else {
        HintQuality::Good
    }
}

/// The demand factor in basis points: 10000 plus the purchase rate scaled
/// by the adjustment factor, or 10000 without purchases.
pub open spec fn demand_factor(purchases: int, views: int, factor: int) -> int {
    if purchases > 0 {
        let denom = if views + purchases > 1 { views + purchases } else { 1 };
        10000 + (purchases * 10000 / denom) * factor / 10000
    } else {
        10000
    }
}

/// The listing price of a hint: the base price scaled by quality and
/// demand, kept between half and three times the base price.
pub open spec fn dynamic_price(base: int, q: HintQuality, purchases: int, views: int, factor: int) -> int {
    let qa = base * quality_multiplier(q) / 10000;
    let fp = qa * demand_factor(purchases, views, factor) / 10000;
    let lo = base / 2;
    let hi = base * 3;
    let clamped_lo = if fp > lo { fp } else { lo };
    if clamped_lo < hi {
        clamped_lo
    } else {
        hi
    }
}

/// Whether computing `dynamic_price` overflows 128-bit arithmetic.
pub open spec fn dynamic_price_overflows(base: int, q: HintQuality, purchases: int, views: int, factor: int) -> bool {
    let qa = base * quality_multiplier(q) / 10000;
    ||| base * quality_multiplier(q) > i128::MAX
    ||| qa * demand_factor(purchases, views, factor) > i128::MAX
    ||| base * 3 > i128::MAX
}

/// The split of a price: (seller, fee, royalty).
pub open spec fn payouts(price: int, fee_bps: int, royalty_bps: int) -> (int, int, int) {
    let fee = price * fee_bps / 10000;
    let royalty = price * royalty_bps / 10000;
    (price - fee - royalty, fee, royalty)
}

/// The last at most 100 prices of `h`.
pub open spec fn capped_history(h: Seq<i128>) -> Seq<i128> {
    if h.len() > 100 {
        h.subrange(h.len() - 100, h.len() as int)
    } else {
        h
    }
}

pub open spec fn zero_metrics(hint_id: u64) -> DemandMetrics {
    DemandMetrics { hint_id, views: 0, purchases: 0, last_purchase_time: 0, average_time_to_sale: 0 }
}

/// The metrics after a sale at `t` of a listing created at `created`.
pub open spec fn metrics_after_sale(m: DemandMetrics, created: u64, t: u64) -> DemandMetrics {
    let purchases = m.purchases + 1;
    let tts = t - created;
    let avg = if purchases == 1 {
        tts
    } else {
        (m.average_time_to_sale * (purchases - 1) + tts) / purchases
    };
    DemandMetrics {
        purchases: purchases as u32,
        last_purchase_time: t,
        average_time_to_sale: avg as u64,
        ..m
    }
}

/// Whether `metrics_after_sale` overflows or underflows.
pub open spec fn metrics_overflow(m: DemandMetrics, created: u64, t: u64) -> bool {
    let purchases = m.purchases + 1;
    ||| purchases > u32::MAX
    ||| t < created
    ||| (purchases != 1 && m.average_time_to_sale * (purchases - 1) + (t - created) > u64::MAX)
}

impl HintMarketplace {
    /// Fees, royalties and the price adjustment factor stay within 10000
    /// basis points and listed prices are not negative.
    pub open spec fn wf(&self) -> bool {
        &&& self.config is Some ==> {
            &&& self.config.unwrap().fee_bps <= 10000
            &&& self.config.unwrap().price_adjustment_factor <= 10000
        }
        &&& forall|id: u64| #[trigger] self.listings@.contains_key(id) ==> {
            &&& self.listings@[id].current_price >= 0
            &&& self.listings@[id].royalty_bps <= 10000
        }
    }

    pub open spec fn metrics_of(&self, hint_id: u64) -> DemandMetrics {
        value_at(self.demand@, hint_id, zero_metrics(hint_id))
    }

    pub open spec fn price_for(&self, hint_id: u64, base: i128) -> int {
        let m = self.metrics_of(hint_id);
        dynamic_price(
            base as int,
            self.hints@[hint_id].quality,
            m.purchases as int,
            m.views as int,
            self.config.unwrap().price_adjustment_factor as int,
        )
    }

    pub open spec fn create_listing_error(
        &self,
        seller: AccountId,
        hint_id: u64,
        base_price: i128,
        duration: u64,
        royalty_bps: u32,
        now: u64,
    ) -> Option<MarketplaceError> {
        let cfg = self.config.unwrap();
        let hint = self.hints@[hint_id];
        let m = self.metrics_of(hint_id);
        if self.config is None {
            Some(MarketplaceError::NotInitialized)
        } else if !self.hints@.contains_key(hint_id) {
            Some(MarketplaceError::HintNotFound)
        } else if quality_rank(hint.quality) < quality_rank(cfg.min_quality_for_listing) {
            Some(MarketplaceError::InvalidQuality)
        } else if base_price <= 0 {
            Some(MarketplaceError::InvalidPrice)
        } else if royalty_bps > 10000 {
            Some(MarketplaceError::RoyaltyTooHigh)
        } else if duration < cfg.min_listing_duration || duration > cfg.max_listing_duration {
            Some(MarketplaceError::InvalidDuration)
        } else if now + duration > u64::MAX || dynamic_price_overflows(
            base_price as int,
            hint.quality,
            m.purchases as int,
            m.views as int,
            cfg.price_adjustment_factor as int,
        ) || self.listing_counter == u64::MAX {
            Some(MarketplaceError::Overflow)
        } else {
            None
        }
    }

    pub open spec fn buy_error(&self, buyer: AccountId, listing_id: u64, now: u64) -> Option<
        MarketplaceError,
    > {
        let l = self.listings@[listing_id];
        let cfg = self.config.unwrap();
        let hint = self.hints@[l.hint_id];
        if !self.listings@.contains_key(listing_id) {
            Some(MarketplaceError::ListingNotFound)
        } else if l.status != ListingStatus::Active {
            Some(MarketplaceError::ListingNotActive)
        } else if now > l.expiration_time {
            Some(MarketplaceError::ListingExpired)
        } else if l.seller == buyer {
            Some(MarketplaceError::CannotBuyOwnListing)
        } else if self.config is None {
            Some(MarketplaceError::NotInitialized)
        } else if l.current_price * cfg.fee_bps > i128::MAX || l.current_price * cfg.fee_bps
            < i128::MIN || l.current_price * l.royalty_bps > i128::MAX || l.current_price
            * l.royalty_bps < i128::MIN || l.current_price - (l.current_price * cfg.fee_bps / 10000)
            < i128::MIN || l.current_price - (l.current_price * cfg.fee_bps / 10000) > i128::MAX
            || payouts(
            l.current_price as int,
            cfg.fee_bps as int,
            l.royalty_bps as int,
        ).0 < i128::MIN || payouts(
            l.current_price as int,
            cfg.fee_bps as int,
            l.royalty_bps as int,
        ).0 > i128::MAX {
            Some(MarketplaceError::Overflow)
        } else if !self.hints@.contains_key(l.hint_id) {
            Some(MarketplaceError::HintNotFound)
        } else if hint.total_sales == u32::MAX || metrics_overflow(
            self.metrics_of(l.hint_id),
            l.created_time,
            now,
        ) {
            Some(MarketplaceError::Overflow)
        } else {
            None
        }
    }
}

/// The rank of a quality.
pub fn quality_rank_of(q: HintQuality) -> (r: u32)
    ensures
        r == quality_rank(q),
{
    match q {
        HintQuality::Poor => 1,
        HintQuality::Fair => 2,
        HintQuality::Good => 3,
        HintQuality::Excellent => 4,
        HintQuality::Perfect => 5,
    }
}

/// The price of a listing; `None` where 128-bit arithmetic overflows.
pub fn calculate_dynamic_price(
    base_price: i128,
    quality: HintQuality,
    purchases: u32,
    views: u32,
    price_adjustment_factor: u32,
) -> (r: Option<i128>)
    requires
        base_price > 0,
        price_adjustment_factor <= 10000,
    ensures
        match r {
            Some(p) => !dynamic_price_overflows(
                base_price as int,
                quality,
                purchases as int,
                views as int,
                price_adjustment_factor as int,
            ) && p == dynamic_price(
                base_price as int,
                quality,
                purchases as int,
                views as int,
                price_adjustment_factor as int,
            ),
            None => dynamic_price_overflows(
                base_price as int,
                quality,
                purchases as int,
                views as int,
                price_adjustment_factor as int,
            ),
        },
{
    let qm: i128 = match quality {
        HintQuality::Poor => 5000,
        HintQuality::Fair => 7500,
        HintQuality::Good => 10000,
        HintQuality::Excellent => 12500,
        HintQuality::Perfect => 15000,
    };
    let scaled = match base_price.checked_mul(qm) {
        Some(v) => v,
        None => return None,
    };
    let qa = scaled / 10000;
    let df: i128 = if purchases > 0 {
        let total: i128 = views as i128 + purchases as i128;
        let denom: i128 = if total > 1 { total } else { 1 };
        let rate: i128 = (purchases as i128 * 10000) / denom;
        assert(0 <= rate <= 10000) by (nonlinear_arith)
            requires
                rate == (purchases as int * 10000) / denom as int,
                denom >= purchases as int,
                denom >= 1,
                purchases >= 0,
        ;
        assert(0 <= rate * price_adjustment_factor <= 100000000) by (nonlinear_arith)
            requires
                0 <= rate <= 10000,
                0 <= price_adjustment_factor <= 10000,
        ;
        10000 + (rate * price_adjustment_factor as i128) / 10000
    } else {
        10000
    };
    let prod = match qa.checked_mul(df) {
        Some(v) => v,
        None => return None,
    };
    let fp = prod / 10000;
    let hi = match base_price.checked_mul(3) {
        Some(v) => v,
        None => return None,
    };
    let lo = base_price / 2;
    let clamped_lo = if fp > lo {
        fp
    } else {
        lo
    };
    Some(
        if clamped_lo < hi {
            clamped_lo
        } else {
            hi
        },
    )
}


impl HintMarketplace {
    /// The listing indexes, the active lists and the counters of listings
    /// are the same in `self` and `other`.
    pub open spec fn listings_same(&self, other: &HintMarketplace) -> bool {
        &&& self.listing_counter == other.listing_counter
        &&& self.listings@ == other.listings@
        &&& self.listings_by_hint@ == other.listings_by_hint@
        &&& self.listings_by_seller@ == other.listings_by_seller@
        &&& self.listings_by_puzzle@ == other.listings_by_puzzle@
        &&& self.active_listings@ == other.active_listings@
    }

    /// Hints, packs, ratings and sales records are the same in `self` and `other`.
    pub open spec fn catalog_same(&self, other: &HintMarketplace) -> bool {
        &&& self.contract == other.contract
        &&& self.config == other.config
        &&& self.hint_counter == other.hint_counter
        &&& self.pack_counter == other.pack_counter
        &&& self.hints@ == other.hints@
        &&& self.packs@ == other.packs@
        &&& self.ratings@ == other.ratings@
        &&& self.ratings_by_hint@ == other.ratings_by_hint@
        &&& self.packs_by_creator@ == other.packs_by_creator@
        &&& self.active_packs@ == other.active_packs@
        &&& self.price_history@ == other.price_history@
        &&& self.demand@ == other.demand@
    }

    /// An uninitialized marketplace whose own account is `contract`.
    pub fn new(contract: AccountId) -> (r: Self)
        ensures
            r.wf(),
            r.contract == contract,
            r.config is None,
            r.hint_counter == 0 && r.listing_counter == 0 && r.pack_counter == 0,
            r.hints@.is_empty() && r.listings@.is_empty() && r.packs@.is_empty(),
            r.ratings@.is_empty() && r.ratings_by_hint@.is_empty(),
            r.listings_by_hint@.is_empty() && r.listings_by_seller@.is_empty(),
            r.listings_by_puzzle@.is_empty() && r.active_listings@.len() == 0,
            r.price_history@.is_empty() && r.demand@.is_empty(),
            r.packs_by_creator@.is_empty() && r.active_packs@.len() == 0,
    {
        HintMarketplace {
            contract,
            config: None,
            hint_counter: 0,
            listing_counter: 0,
            pack_counter: 0,
            hints: HashMap::new(),
            listings: HashMap::new(),
            packs: HashMap::new(),
            ratings: HashMap::new(),
            ratings_by_hint: HashMap::new(),
            listings_by_hint: HashMap::new(),
            listings_by_seller: HashMap::new(),
            listings_by_puzzle: HashMap::new(),
            active_listings: Vec::new(),
            price_history: HashMap::new(),
            demand: HashMap::new(),
            packs_by_creator: HashMap::new(),
            active_packs: Vec::new(),
        }
    }

    /// Stores the configuration; fees and the price adjustment factor are
    /// at most 10000 basis points.
    pub fn initialize(
        &mut self,
        admin: AccountId,
        fee_recipient: AccountId,
        fee_bps: u32,
        min_listing_duration: u64,
        max_listing_duration: u64,
        price_adjustment_factor: u32,
        min_quality_for_listing: HintQuality,
    ) -> (r: Result<(), MarketplaceError>)
        requires
            old(self).wf(),
        ensures
            r is Ok ==> final(self).active_listings@ == old(self).active_listings@
                && final(self).active_packs@ == old(self).active_packs@
                && final(self).contract == old(self).contract
                && final(self).demand@ == old(self).demand@
                && final(self).listings_by_hint@ == old(self).listings_by_hint@
                && final(self).listings_by_puzzle@ == old(self).listings_by_puzzle@
                && final(self).listings_by_seller@ == old(self).listings_by_seller@
                && final(self).packs_by_creator@ == old(self).packs_by_creator@
                && final(self).price_history@ == old(self).price_history@
                && final(self).ratings@ == old(self).ratings@
                && final(self).ratings_by_hint@ == old(self).ratings_by_hint@,
            final(self).wf(),
            r == if old(self).config is Some {
                Err::<(), MarketplaceError>(MarketplaceError::AlreadyInitialized)
            } else if fee_bps > 10000 {
                Err(MarketplaceError::FeeTooHigh)
            } else if price_adjustment_factor > 10000 {
                Err(MarketplaceError::AdjustmentFactorTooHigh)
            } else {
                Ok(())
            },
            r is Err ==> *final(self) == *old(self),
            r is Ok ==> final(self).config == Some(
                MarketplaceConfig {
                    admin,
                    fee_recipient,
                    fee_bps,
                    min_listing_duration,
                    max_listing_duration,
                    price_adjustment_factor,
                    min_quality_for_listing,
                },
            ) && final(self).hint_counter == 0 && final(self).listing_counter == 0
                && final(self).pack_counter == 0 && final(self).hints@ == old(self).hints@
                && final(self).packs@ == old(self).packs@ && final(self).listings@ == old(self).listings@,
    {
        if self.config.is_some() {
            return Err(MarketplaceError::AlreadyInitialized);
        }
        if fee_bps > 10000 {
            return Err(MarketplaceError::FeeTooHigh);
        }
        if price_adjustment_factor > 10000 {
            return Err(MarketplaceError::AdjustmentFactorTooHigh);
        }
        self.config = Some(
            MarketplaceConfig {
                admin,
                fee_recipient,
                fee_bps,
                min_listing_duration,
                max_listing_duration,
                price_adjustment_factor,
                min_quality_for_listing,
            },
        );
        self.hint_counter = 0;
        self.listing_counter = 0;
        self.pack_counter = 0;
        Ok(())
    }

    /// Replaces the fields of the configuration that are given.
    pub fn update_config(
        &mut self,
        fee_recipient: Option<AccountId>,
        fee_bps: Option<u32>,
        min_listing_duration: Option<u64>,
        max_listing_duration: Option<u64>,
        price_adjustment_factor: Option<u32>,
        min_quality_for_listing: Option<HintQuality>,
    ) -> (r: Result<(), MarketplaceError>)
        requires
            old(self).wf(),
        ensures
            r is Ok ==> final(self).active_packs@ == old(self).active_packs@
                && final(self).contract == old(self).contract
                && final(self).hint_counter == old(self).hint_counter
                && final(self).pack_counter == old(self).pack_counter
                && final(self).packs_by_creator@ == old(self).packs_by_creator@
                && final(self).price_history@ == old(self).price_history@
                && final(self).ratings@ == old(self).ratings@
                && final(self).ratings_by_hint@ == old(self).ratings_by_hint@,
            final(self).wf(),
            r == if old(self).config is None {
                Err::<(), MarketplaceError>(MarketplaceError::NotInitialized)
            } else if fee_bps is Some && fee_bps.unwrap() > 10000 {
                Err(MarketplaceError::FeeTooHigh)
            } else if price_adjustment_factor is Some && price_adjustment_factor.unwrap() > 10000 {
                Err(MarketplaceError::AdjustmentFactorTooHigh)
            } else {
                Ok(())
            },
            r is Err ==> *final(self) == *old(self),
            r is Ok ==> {
                let c = old(self).config.unwrap();
                &&& final(self).config == Some(
                    MarketplaceConfig {
                        admin: c.admin,
                        fee_recipient: if fee_recipient is Some {
                            fee_recipient.unwrap()
                        } else {
                            c.fee_recipient
                        },
                        fee_bps: if fee_bps is Some {
                            fee_bps.unwrap()
                        } else {
                            c.fee_bps
                        },
                        min_listing_duration: if min_listing_duration is Some {
                            min_listing_duration.unwrap()
                        } else {
                            c.min_listing_duration
                        },
                        max_listing_duration: if max_listing_duration is Some {
                            max_listing_duration.unwrap()
                        } else {
                            c.max_listing_duration
                        },
                        price_adjustment_factor: if price_adjustment_factor is Some {
                            price_adjustment_factor.unwrap()
                        } else {
                            c.price_adjustment_factor
                        },
                        min_quality_for_listing: if min_quality_for_listing is Some {
                            min_quality_for_listing.unwrap()
                        } else {
                            c.min_quality_for_listing
                        },
                    },
                )
                &&& final(self).listings_same(old(self))
                &&& final(self).hints@ == old(self).hints@
                &&& final(self).packs@ == old(self).packs@
                &&& final(self).demand@ == old(self).demand@
            },
    {
        let mut c = match self.config {
            Some(c) => c,
            None => return Err(MarketplaceError::NotInitialized),
        };
        if let Some(r) = fee_recipient {
            c.fee_recipient = r;
        }
        if let Some(bps) = fee_bps {
            if bps > 10000 {
                return Err(MarketplaceError::FeeTooHigh);
            }
            c.fee_bps = bps;
        }
        if let Some(min) = min_listing_duration {
            c.min_listing_duration = min;
        }
        if let Some(max) = max_listing_duration {
            c.max_listing_duration = max;
        }
        if let Some(f) = price_adjustment_factor {
            if f > 10000 {
                return Err(MarketplaceError::AdjustmentFactorTooHigh);
            }
            c.price_adjustment_factor = f;
        }
        if let Some(q) = min_quality_for_listing {
            c.min_quality_for_listing = q;
        }
        self.config = Some(c);
        Ok(())
    }

    /// Publishes a hint under the next hint id, with zeroed demand metrics.
    pub fn create_hint(
        &mut self,
        creator: AccountId,
        puzzle_id: u32,
        content_hash: Vec<u8>,
        quality: HintQuality,
        now: u64,
    ) -> (r: Result<u64, MarketplaceError>)
        requires
            old(self).wf(),
        ensures
            final(self).wf(),
            old(self).hint_counter == u64::MAX ==> r == Err::<u64, MarketplaceError>(
                MarketplaceError::Overflow,
            ) && *final(self) == *old(self),
            old(self).hint_counter < u64::MAX ==> {
                let id = (old(self).hint_counter + 1) as u64;
                &&& r == Ok::<u64, MarketplaceError>(id)
                &&& final(self).hint_counter == id
                &&& final(self).hints@ == old(self).hints@.insert(
                    id,
                    Hint {
                        hint_id: id,
                        puzzle_id,
                        creator,
                        content_hash,
                        quality,
                        created_at: now,
                        total_sales: 0,
                        total_rating: 0,
                        rating_count: 0,
                    },
                )
                &&& final(self).demand@ == old(self).demand@.insert(id, zero_metrics(id))
                &&& final(self).listings_same(old(self))
                &&& final(self).config == old(self).config
                &&& final(self).packs@ == old(self).packs@
                &&& final(self).ratings@ == old(self).ratings@
                &&& final(self).price_history@ == old(self).price_history@
            },
    {
        if self.hint_counter == u64::MAX {
            return Err(MarketplaceError::Overflow);
        }
        let id = self.hint_counter + 1;
        self.hint_counter = id;
        self.hints.insert(
            id,
            Hint {
                hint_id: id,
                puzzle_id,
                creator,
                content_hash,
                quality,
                created_at: now,
                total_sales: 0,
                total_rating: 0,
                rating_count: 0,
            },
        );
        self.demand.insert(
            id,
            DemandMetrics {
                hint_id: id,
                views: 0,
                purchases: 0,
                last_purchase_time: 0,
                average_time_to_sale: 0,
            },
        );
        Ok(id)
    }

    /// Lists a hint for sale at its dynamic price and indexes the listing by
    /// hint, seller and puzzle, and among the active listings.
    pub fn create_listing(
        &mut self,
        seller: AccountId,
        hint_id: u64,
        payment_token: AccountId,
        base_price: i128,
        duration: u64,
        royalty_bps: u32,
        now: u64,
    ) -> (r: Result<u64, MarketplaceError>)
        requires
            old(self).wf(),
        ensures
            final(self).wf(),
            match old(self).create_listing_error(
                seller,
                hint_id,
                base_price,
                duration,
                royalty_bps,
                now,
            ) {
                Some(e) => r == Err::<u64, MarketplaceError>(e) && *final(self) == *old(self),
                None => {
                    let id = (old(self).listing_counter + 1) as u64;
                    let hint = old(self).hints@[hint_id];
                    &&& r == Ok::<u64, MarketplaceError>(id)
                    &&& final(self).listing_counter == id
                    &&& final(self).listings@ == old(self).listings@.insert(
                        id,
                        HintListing {
                            listing_id: id,
                            hint_id,
                            seller,
                            payment_token,
                            base_price,
                            current_price: old(self).price_for(hint_id, base_price) as i128,
                            status: ListingStatus::Active,
                            created_time: now,
                            expiration_time: (now + duration) as u64,
                            creator: hint.creator,
                            royalty_bps,
                            quality: hint.quality,
                        },
                    )
                    &&& vec_at(final(self).listings_by_hint@, hint_id) == vec_at(
                        old(self).listings_by_hint@,
                        hint_id,
                    ).push(id)
                    &&& vec_at(final(self).listings_by_seller@, seller) == vec_at(
                        old(self).listings_by_seller@,
                        seller,
                    ).push(id)
                    &&& vec_at(final(self).listings_by_puzzle@, hint.puzzle_id) == vec_at(
                        old(self).listings_by_puzzle@,
                        hint.puzzle_id,
                    ).push(id)
                    &&& forall|h: u64| h != hint_id ==> #[trigger] vec_at(final(self).listings_by_hint@, h)
                        == vec_at(old(self).listings_by_hint@, h)
                    &&& forall|a: AccountId| a != seller ==> #[trigger] vec_at(
                        final(self).listings_by_seller@,
                        a,
                    ) == vec_at(old(self).listings_by_seller@, a)
                    &&& forall|p: u32| p != hint.puzzle_id ==> #[trigger] vec_at(
                        final(self).listings_by_puzzle@,
                        p,
                    ) == vec_at(old(self).listings_by_puzzle@, p)
                    &&& final(self).active_listings@ == old(self).active_listings@.push(id)
                    &&& final(self).catalog_same(old(self))
                },
            },
    {
        let cfg = match self.config {
            Some(c) => c,
            None => return Err(MarketplaceError::NotInitialized),
        };
        let (quality, creator, puzzle_id) = match self.hints.get(&hint_id) {
            Some(h) => (h.quality, h.creator, h.puzzle_id),
            None => return Err(MarketplaceError::HintNotFound),
        };
        if quality_rank_of(quality) < quality_rank_of(cfg.min_quality_for_listing) {
            return Err(MarketplaceError::InvalidQuality);
        }
        if base_price <= 0 {
            return Err(MarketplaceError::InvalidPrice);
        }
        if royalty_bps > 10000 {
            return Err(MarketplaceError::RoyaltyTooHigh);
        }
        if duration < cfg.min_listing_duration || duration > cfg.max_listing_duration {
            return Err(MarketplaceError::InvalidDuration);
        }
        let expiration_time = match now.checked_add(duration) {
            Some(t) => t,
            None => return Err(MarketplaceError::Overflow),
        };
        let m = value_or(&self.demand, &hint_id, DemandMetrics {
            hint_id,
            views: 0,
            purchases: 0,
            last_purchase_time: 0,
            average_time_to_sale: 0,
        });
        let current_price = match calculate_dynamic_price(
            base_price,
            quality,
            m.purchases,
            m.views,
            cfg.price_adjustment_factor,
        ) {
            Some(p) => p,
            None => return Err(MarketplaceError::Overflow),
        };
        if self.listing_counter == u64::MAX {
            return Err(MarketplaceError::Overflow);
        }
        let id = self.listing_counter + 1;
        self.listing_counter = id;
        self.listings.insert(
            id,
            HintListing {
                listing_id: id,
                hint_id,
                seller,
                payment_token,
                base_price,
                current_price,
                status: ListingStatus::Active,
                created_time: now,
                expiration_time,
                creator,
                royalty_bps,
                quality,
            },
        );
        push_value(&mut self.listings_by_hint, hint_id, id);
        push_value(&mut self.listings_by_seller, seller, id);
        push_value(&mut self.listings_by_puzzle, puzzle_id, id);
        self.active_listings.push(id);
        Ok(id)
    }

    /// Sells a listing: the buyer pays the price to the marketplace, which
    /// pays the seller, the fee recipient and the hint's creator; the sale
    /// is recorded in the hint, its demand metrics and its price history.
    /// Returns the token transfers, in order.
    pub fn buy(&mut self, buyer: AccountId, listing_id: u64, now: u64) -> (r: Result<
        Vec<Transfer>,
        MarketplaceError,
    >)
        requires
            old(self).wf(),
        ensures
            r is Ok ==> final(self).active_packs@ == old(self).active_packs@
                && final(self).contract == old(self).contract
                && final(self).hint_counter == old(self).hint_counter
                && final(self).pack_counter == old(self).pack_counter
                && final(self).packs_by_creator@ == old(self).packs_by_creator@
                && final(self).ratings_by_hint@ == old(self).ratings_by_hint@,
            final(self).wf(),
            match old(self).buy_error(buyer, listing_id, now) {
                Some(e) => r == Err::<Vec<Transfer>, MarketplaceError>(e) && *final(self) == *old(self),
                None => {
                    let l = old(self).listings@[listing_id];
                    let cfg = old(self).config.unwrap();
                    let (seller_amount, fee, royalty) = payouts(
                        l.current_price as int,
                        cfg.fee_bps as int,
                        l.royalty_bps as int,
                    );
                    let me = old(self).contract;
                    let hint = old(self).hints@[l.hint_id];
                    &&& r matches Ok(ts) && ts@ == seq![
                        Transfer { token: l.payment_token, from: buyer, to: me, amount: l.current_price },
                        Transfer { token: l.payment_token, from: me, to: l.seller, amount: seller_amount as i128 },
                    ] + (if fee > 0 {
                        seq![Transfer { token: l.payment_token, from: me, to: cfg.fee_recipient, amount: fee as i128 }]
                    } else {
                        Seq::<Transfer>::empty()
                    }) + (if royalty > 0 {
                        seq![Transfer { token: l.payment_token, from: me, to: l.creator, amount: royalty as i128 }]
                    } else {
                        Seq::<Transfer>::empty()
                    })
                    &&& final(self).listings@ == old(self).listings@.insert(
                        listing_id,
                        HintListing { status: ListingStatus::Sold, ..l },
                    )
                    &&& final(self).active_listings@ == seq_remove_first(
                        old(self).active_listings@,
                        listing_id,
                    )
                    &&& final(self).hints@ == old(self).hints@.insert(
                        l.hint_id,
                        Hint { total_sales: (hint.total_sales + 1) as u32, ..hint },
                    )
                    &&& final(self).demand@ == old(self).demand@.insert(
                        l.hint_id,
                        metrics_after_sale(old(self).metrics_of(l.hint_id), l.created_time, now),
                    )
                    &&& vec_at(final(self).price_history@, l.hint_id) == capped_history(
                        vec_at(old(self).price_history@, l.hint_id).push(l.current_price),
                    )
                    &&& forall|h: u64| h != l.hint_id ==> #[trigger] vec_at(final(self).price_history@, h)
                        == vec_at(old(self).price_history@, h)
                    &&& final(self).config == old(self).config
                    &&& final(self).listing_counter == old(self).listing_counter
                    &&& final(self).listings_by_hint@ == old(self).listings_by_hint@
                    &&& final(self).listings_by_seller@ == old(self).listings_by_seller@
                    &&& final(self).listings_by_puzzle@ == old(self).listings_by_puzzle@
                    &&& final(self).packs@ == old(self).packs@
                    &&& final(self).ratings@ == old(self).ratings@
                },
            },
    {
        let l = match self.listings.get(&listing_id) {
            Some(l) => *l,
            None => return Err(MarketplaceError::ListingNotFound),
        };
        if l.status != ListingStatus::Active {
            return Err(MarketplaceError::ListingNotActive);
        }
        if now > l.expiration_time {
            return Err(MarketplaceError::ListingExpired);
        }
        if l.seller == buyer {
            return Err(MarketplaceError::CannotBuyOwnListing);
        }
        let cfg = match self.config {
            Some(c) => c,
            None => return Err(MarketplaceError::NotInitialized),
        };
        let fee_scaled = match l.current_price.checked_mul(cfg.fee_bps as i128) {
            Some(v) => v,
            None => return Err(MarketplaceError::Overflow),
        };
        let royalty_scaled = match l.current_price.checked_mul(l.royalty_bps as i128) {
            Some(v) => v,
            None => return Err(MarketplaceError::Overflow),
        };
        let fee = fee_scaled / 10000;
        let royalty = royalty_scaled / 10000;
        let seller_amount = match l.current_price.checked_sub(fee) {
            Some(v) => match v.checked_sub(royalty) {
                Some(w) => w,
                None => return Err(MarketplaceError::Overflow),
            },
            None => return Err(MarketplaceError::Overflow),
        };
        let hint_sales = match self.hints.get(&l.hint_id) {
            Some(h) => h.total_sales,
            None => return Err(MarketplaceError::HintNotFound),
        };
        if hint_sales == u32::MAX {
            return Err(MarketplaceError::Overflow);
        }
        let m = value_or(&self.demand, &l.hint_id, DemandMetrics {
            hint_id: l.hint_id,
            views: 0,
            purchases: 0,
            last_purchase_time: 0,
            average_time_to_sale: 0,
        });
        if m.purchases == u32::MAX || now < l.created_time {
            return Err(MarketplaceError::Overflow);
        }
        let purchases = m.purchases + 1;
        let tts = now - l.created_time;
        let avg = if purchases == 1 {
            tts
        } else {
            match m.average_time_to_sale.checked_mul((purchases - 1) as u64) {
                Some(v) => match v.checked_add(tts) {
                    Some(w) => w / purchases as u64,
                    None => return Err(MarketplaceError::Overflow),
                },
                None => return Err(MarketplaceError::Overflow),
            }
        };
        let me = self.contract;
        let mut transfers: Vec<Transfer> = Vec::new();
        transfers.push(Transfer { token: l.payment_token, from: buyer, to: me, amount: l.current_price });
        transfers.push(Transfer { token: l.payment_token, from: me, to: l.seller, amount: seller_amount });
        if fee > 0 {
            transfers.push(Transfer { token: l.payment_token, from: me, to: cfg.fee_recipient, amount: fee });
        }
        if royalty > 0 {
            transfers.push(Transfer { token: l.payment_token, from: me, to: l.creator, amount: royalty });
        }
        let mut hint = self.hints.remove(&l.hint_id).unwrap();
        hint.total_sales = hint.total_sales + 1;
        self.hints.insert(l.hint_id, hint);
        self.demand.insert(
            l.hint_id,
            DemandMetrics {
                purchases,
                last_purchase_time: now,
                average_time_to_sale: avg,
                ..m
            },
        );
        self.listings.insert(listing_id, HintListing { status: ListingStatus::Sold, ..l });
        remove_first_u64(&mut self.active_listings, listing_id);
        let mut history = vec_or_empty(&self.price_history, &l.hint_id);
        history.push(l.current_price);
        let capped = last_hundred(&history);
        self.price_history.insert(l.hint_id, capped);
        assert(transfers@ =~= seq![
            Transfer { token: l.payment_token, from: buyer, to: me, amount: l.current_price },
            Transfer { token: l.payment_token, from: me, to: l.seller, amount: seller_amount },
        ] + (if fee > 0 {
            seq![Transfer { token: l.payment_token, from: me, to: cfg.fee_recipient, amount: fee }]
        } else {
            Seq::<Transfer>::empty()
        }) + (if royalty > 0 {
            seq![Transfer { token: l.payment_token, from: me, to: l.creator, amount: royalty }]
        } else {
            Seq::<Transfer>::empty()
        }));
        Ok(transfers)
    }
}

/// The last at most 100 prices of `h`.
fn last_hundred(h: &Vec<i128>) -> (r: Vec<i128>)
    ensures
        r@ == capped_history(h@),
{
    if h.len() <= 100 {
        return copy_vec(h);
    }
    let start = h.len() - 100;
    let mut out: Vec<i128> = Vec::new();
    let mut i = start;
    while i < h.len()
        invariant
            start <= i <= h.len(),
            start == h.len() - 100,
            out@ == h@.subrange(start as int, i as int),
        decreases h.len() - i,
    {
        out.push(h[i]);
        i = i + 1;
        assert(out@ =~= h@.subrange(start as int, i as int));
    }
    out
}


/// Division of `a` by a positive `b` that rounds toward zero.
pub open spec fn trunc_div(a: int, b: int) -> int {
    if a >= 0 {
        a / b
    } else {
        -((-a) / b)
    }
}

/// The error of computing the payouts of `price` with `fee_bps`: the
/// products overflow, or the seller's share does.
pub open spec fn pack_payout_overflows(price: int, fee_bps: int) -> bool {
    ||| price * fee_bps > i128::MAX
    ||| price * fee_bps < i128::MIN
    ||| price - trunc_div(price * fee_bps, 10000) > i128::MAX
    ||| price - trunc_div(price * fee_bps, 10000) < i128::MIN
}

/// The first reason, in the order of `ids`, why a pack of `ids` cannot be
/// created by `creator`.
pub open spec fn pack_hint_failure(hints: Map<u64, Hint>, ids: Seq<u64>, creator: AccountId) -> Option<
    MarketplaceError,
>
    decreases ids.len(),
{
    if ids.len() == 0 {
        None
    } else {
        match pack_hint_failure(hints, ids.drop_last(), creator) {
            Some(e) => Some(e),
            None => if !hints.contains_key(ids.last()) {
                Some(MarketplaceError::HintNotFound)
            } else if hints[ids.last()].creator != creator {
                Some(MarketplaceError::NotHintCreator)
            } else {
                None
            },
        }
    }
}

/// The first reason, in the order of `ids`, why the sales of the hints
/// `ids` cannot be counted.
pub open spec fn sales_failure(hints: Map<u64, Hint>, ids: Seq<u64>) -> Option<MarketplaceError>
    decreases ids.len(),
{
    if ids.len() == 0 {
        None
    } else {
        match sales_failure(hints, ids.drop_last()) {
            Some(e) => Some(e),
            None => if !hints.contains_key(ids.last()) {
                Some(MarketplaceError::HintNotFound)
            } else if hints[ids.last()].total_sales + count_of(ids, ids.last()) > u32::MAX {
                Some(MarketplaceError::Overflow)
            } else {
                None
            },
        }
    }
}

/// The listings and the active list after expiring the listing `id` at `now`.
pub open spec fn expire_one(listings: Map<u64, HintListing>, active: Seq<u64>, id: u64, now: u64) -> (
    Map<u64, HintListing>,
    Seq<u64>,
) {
    if listings.contains_key(id) && listings[id].status == ListingStatus::Active && now
        > listings[id].expiration_time {
        (
            listings.insert(id, HintListing { status: ListingStatus::Expired, ..listings[id] }),
            seq_remove_first(active, id),
        )
    } else {
        (listings, active)
    }
}

/// The listings and the active list after expiring the listings `ids` in turn.
pub open spec fn expire_all(listings: Map<u64, HintListing>, active: Seq<u64>, ids: Seq<u64>, now: u64) -> (
    Map<u64, HintListing>,
    Seq<u64>,
)
    decreases ids.len(),
{
    if ids.len() == 0 {
        (listings, active)
    } else {
        let (l, a) = expire_all(listings, active, ids.drop_last(), now);
        expire_one(l, a, ids.last(), now)
    }
}

impl Hint {
    pub open spec fn same(&self, other: &Hint) -> bool {
        &&& self.hint_id == other.hint_id
        &&& self.puzzle_id == other.puzzle_id
        &&& self.creator == other.creator
        &&& self.content_hash@ == other.content_hash@
        &&& self.quality == other.quality
        &&& self.created_at == other.created_at
        &&& self.total_sales == other.total_sales
        &&& self.total_rating == other.total_rating
        &&& self.rating_count == other.rating_count
    }

    pub fn copy(&self) -> (r: Hint)
        ensures
            r.same(self),
    {
        Hint {
            hint_id: self.hint_id,
            puzzle_id: self.puzzle_id,
            creator: self.creator,
            content_hash: copy_vec(&self.content_hash),
            quality: self.quality,
            created_at: self.created_at,
            total_sales: self.total_sales,
            total_rating: self.total_rating,
            rating_count: self.rating_count,
        }
    }
}

impl HintPack {
    pub open spec fn same(&self, other: &HintPack) -> bool {
        &&& self.pack_id == other.pack_id
        &&& self.name@ == other.name@
        &&& self.hint_ids@ == other.hint_ids@
        &&& self.pack_price == other.pack_price
        &&& self.discount_bps == other.discount_bps
        &&& self.creator == other.creator
        &&& self.created_at == other.created_at
        &&& self.expiration_time == other.expiration_time
    }

    pub fn copy(&self) -> (r: HintPack)
        ensures
            r.same(self),
    {
        HintPack {
            pack_id: self.pack_id,
            name: self.name.clone(),
            hint_ids: copy_vec(&self.hint_ids),
            pack_price: self.pack_price,
            discount_bps: self.discount_bps,
            creator: self.creator,
            created_at: self.created_at,
            expiration_time: self.expiration_time,
        }
    }
}

impl HintMarketplace {
    pub open spec fn rate_error(&self, rater: AccountId, hint_id: u64, quality_rating: u32, helpfulness: u32) -> Option<
        MarketplaceError,
    > {
        let h = self.hints@[hint_id];
        if !self.hints@.contains_key(hint_id) {
            Some(MarketplaceError::HintNotFound)
        } else if quality_rating < 1 || quality_rating > 5 || helpfulness < 1 || helpfulness > 5 {
            Some(MarketplaceError::InvalidRating)
        } else if self.ratings@.contains_key(pair_key_spec(hint_id, rater)) {
            Some(MarketplaceError::DuplicateRating)
        } else if h.total_rating + quality_rating > u64::MAX || h.rating_count == u32::MAX {
            Some(MarketplaceError::Overflow)
        } else {
            None
        }
    }

    /// Records a rating of 1 to 5 (quality and helpfulness) once per rater
    /// and sets the hint's quality from its average rating.
    pub fn rate_hint(
        &mut self,
        rater: AccountId,
        hint_id: u64,
        quality_rating: u32,
        helpfulness: u32,
        now: u64,
    ) -> (r: Result<(), MarketplaceError>)
        requires
            old(self).wf(),
        ensures
            r is Ok ==> ({
                let h = final(self).hints@[hint_id];
                let avg = h.total_rating as int / h.rating_count as int;
                &&& final(self).hints@.contains_key(hint_id)
                &&& h.rating_count == old(self).hints@[hint_id].rating_count + 1
                &&& h.total_rating == old(self).hints@[hint_id].total_rating + quality_rating
                &&& (1 <= avg <= 5 ==> quality_rank(h.quality) == avg)
                &&& (avg < 1 || avg > 5 ==> h.quality == HintQuality::Good)
            }),
            r is Ok ==> final(self).active_packs@ == old(self).active_packs@
                && final(self).contract == old(self).contract
                && final(self).hint_counter == old(self).hint_counter
                && final(self).pack_counter == old(self).pack_counter
                && final(self).packs_by_creator@ == old(self).packs_by_creator@,
            final(self).wf(),
            match old(self).rate_error(rater, hint_id, quality_rating, helpfulness) {
                Some(e) => r == Err::<(), MarketplaceError>(e) && *final(self) == *old(self),
                None => {
                    let h = old(self).hints@[hint_id];
                    let total = h.total_rating + quality_rating;
                    let count = h.rating_count + 1;
                    &&& r is Ok
                    &&& final(self).ratings@ == old(self).ratings@.insert(
                        pair_key_spec(hint_id, rater),
                        Rating { rater, hint_id, quality_rating, helpfulness, timestamp: now },
                    )
                    &&& forall|k: u64| #[trigger] vec_at(final(self).ratings_by_hint@, k) == if k
                        == hint_id {
                        vec_at(old(self).ratings_by_hint@, k).push(rater)
                    } else {
                        vec_at(old(self).ratings_by_hint@, k)
                    }
                    &&& final(self).hints@ == old(self).hints@.insert(
                        hint_id,
                        Hint {
                            total_rating: total as u64,
                            rating_count: count as u32,
                            quality: quality_of_average(total / count),
                            ..h
                        },
                    )
                    &&& final(self).listings_same(old(self))
                    &&& final(self).config == old(self).config
                    &&& final(self).packs@ == old(self).packs@
                    &&& final(self).demand@ == old(self).demand@
                    &&& final(self).price_history@ == old(self).price_history@
                },
            },
    {
        let (total_rating, rating_count) = match self.hints.get(&hint_id) {
            Some(h) => (h.total_rating, h.rating_count),
            None => return Err(MarketplaceError::HintNotFound),
        };
        if quality_rating < 1 || quality_rating > 5 || helpfulness < 1 || helpfulness > 5 {
            return Err(MarketplaceError::InvalidRating);
        }
        let key = pair_key(hint_id, rater);
        if self.ratings.contains_key(&key) {
            return Err(MarketplaceError::DuplicateRating);
        }
        let total = match total_rating.checked_add(quality_rating as u64) {
            Some(t) => t,
            None => return Err(MarketplaceError::Overflow),
        };
        if rating_count == u32::MAX {
            return Err(MarketplaceError::Overflow);
        }
        let count = rating_count + 1;
        self.ratings.insert(key, Rating { rater, hint_id, quality_rating, helpfulness, timestamp: now });
        push_value(&mut self.ratings_by_hint, hint_id, rater);
        let avg = total / count as u64;
        let quality = if avg == 1 {
            HintQuality::Poor
        } else if avg == 2 {
            HintQuality::Fair
        } else if avg == 3 {
            HintQuality::Good
        } else if avg == 4 {
            HintQuality::Excellent
        } else if avg == 5 {
            HintQuality::Perfect
        } else {
            HintQuality::Good
        };
        let mut h = self.hints.remove(&hint_id).unwrap();
        h.total_rating = total;
        h.rating_count = count;
        h.quality = quality;
        self.hints.insert(hint_id, h);
        Ok(())
    }

    pub open spec fn create_pack_error(&self, creator: AccountId, hint_ids: Seq<u64>, discount_bps: u32) -> Option<
        MarketplaceError,
    > {
        if hint_ids.len() == 0 {
            Some(MarketplaceError::EmptyPack)
        } else if discount_bps > 10000 {
            Some(MarketplaceError::DiscountTooHigh)
        } else if pack_hint_failure(self.hints@, hint_ids, creator) is Some {
            pack_hint_failure(self.hints@, hint_ids, creator)
        } else if self.pack_counter == u64::MAX {
            Some(MarketplaceError::Overflow)
        } else {
            None
        }
    }

    /// Bundles hints of `creator` into a pack under the next pack id.
    #[verifier::loop_isolation(false)]
    pub fn create_pack(
        &mut self,
        creator: AccountId,
        name: String,
        hint_ids: Vec<u64>,
        pack_price: i128,
        discount_bps: u32,
        expiration_time: Option<u64>,
        now: u64,
    ) -> (r: Result<u64, MarketplaceError>)
        requires
            old(self).wf(),
        ensures
            r is Ok ==> final(self).contract == old(self).contract
                && final(self).hint_counter == old(self).hint_counter
                && final(self).price_history@ == old(self).price_history@
                && final(self).ratings@ == old(self).ratings@
                && final(self).ratings_by_hint@ == old(self).ratings_by_hint@,
            final(self).wf(),
            match old(self).create_pack_error(creator, hint_ids@, discount_bps) {
                Some(e) => r == Err::<u64, MarketplaceError>(e) && *final(self) == *old(self),
                None => {
                    let id = (old(self).pack_counter + 1) as u64;
                    &&& r == Ok::<u64, MarketplaceError>(id)
                    &&& final(self).pack_counter == id
                    &&& final(self).packs@.contains_key(id)
                    &&& final(self).packs@ == old(self).packs@.insert(id, final(self).packs@[id])
                    &&& final(self).packs@[id].pack_id == id
                    &&& final(self).packs@[id].name == name
                    &&& final(self).packs@[id].hint_ids@ == hint_ids@
                    &&& final(self).packs@[id].pack_price == pack_price
                    &&& final(self).packs@[id].discount_bps == discount_bps
                    &&& final(self).packs@[id].creator == creator
                    &&& final(self).packs@[id].created_at == now
                    &&& final(self).packs@[id].expiration_time == expiration_time
                    &&& forall|a: AccountId| #[trigger] vec_at(final(self).packs_by_creator@, a) == if a
                        == creator {
                        vec_at(old(self).packs_by_creator@, a).push(id)
                    } else {
                        vec_at(old(self).packs_by_creator@, a)
                    }
                    &&& final(self).active_packs@ == old(self).active_packs@.push(id)
                    &&& final(self).listings_same(old(self))
                    &&& final(self).hints@ == old(self).hints@
                    &&& final(self).config == old(self).config
                    &&& final(self).demand@ == old(self).demand@
                },
            },
    {
        if hint_ids.len() == 0 {
            return Err(MarketplaceError::EmptyPack);
        }
        if discount_bps > 10000 {
            return Err(MarketplaceError::DiscountTooHigh);
        }
        let mut failure: Option<MarketplaceError> = None;
        let mut i: usize = 0;
        while i < hint_ids.len()
            invariant
                i <= hint_ids.len(),
                *self == *old(self),
                failure == pack_hint_failure(self.hints@, hint_ids@.take(i as int), creator),
            decreases hint_ids.len() - i,
        {
            assert(hint_ids@.take(i as int + 1).drop_last() =~= hint_ids@.take(i as int));
            if failure.is_none() {
                match self.hints.get(&hint_ids[i]) {
                    None => {
                        failure = Some(MarketplaceError::HintNotFound);
                    },
                    Some(h) => {
                        if h.creator != creator {
                            failure = Some(MarketplaceError::NotHintCreator);
                        }
                    },
                }
            }
            i = i + 1;
        }
        assert(hint_ids@.take(hint_ids.len() as int) =~= hint_ids@);
        if let Some(e) = failure {
            return Err(e);
        }
        if self.pack_counter == u64::MAX {
            return Err(MarketplaceError::Overflow);
        }
        let id = self.pack_counter + 1;
        self.pack_counter = id;
        self.packs.insert(
            id,
            HintPack {
                pack_id: id,
                name,
                hint_ids,
                pack_price,
                discount_bps,
                creator,
                created_at: now,
                expiration_time,
            },
        );
        push_value(&mut self.packs_by_creator, creator, id);
        self.active_packs.push(id);
        Ok(id)
    }

    pub open spec fn buy_pack_error(&self, pack_id: u64, now: u64) -> Option<MarketplaceError> {
        let p = self.packs@[pack_id];
        if !self.packs@.contains_key(pack_id) {
            Some(MarketplaceError::PackNotFound)
        } else if p.expiration_time is Some && now > p.expiration_time.unwrap() {
            Some(MarketplaceError::PackExpired)
        } else if self.config is None {
            Some(MarketplaceError::NotInitialized)
        } else if pack_payout_overflows(p.pack_price as int, self.config.unwrap().fee_bps as int) {
            Some(MarketplaceError::Overflow)
        } else {
            sales_failure(self.hints@, p.hint_ids@)
        }
    }

    /// Sells a pack: the buyer pays the pack price, which goes to the pack's
    /// creator less the platform fee, and every hint of the pack counts a
    /// sale. Returns the token transfers, in order.
    #[verifier::loop_isolation(false)]
    pub fn buy_pack(&mut self, buyer: AccountId, pack_id: u64, payment_token: AccountId, now: u64) -> (r:
        Result<Vec<Transfer>, MarketplaceError>)
        requires
            old(self).wf(),
        ensures
            r is Ok ==> final(self).active_packs@ == old(self).active_packs@
                && final(self).contract == old(self).contract
                && final(self).hint_counter == old(self).hint_counter
                && final(self).pack_counter == old(self).pack_counter
                && final(self).packs_by_creator@ == old(self).packs_by_creator@
                && final(self).price_history@ == old(self).price_history@
                && final(self).ratings_by_hint@ == old(self).ratings_by_hint@,
            final(self).wf(),
            match old(self).buy_pack_error(pack_id, now) {
                Some(e) => r == Err::<Vec<Transfer>, MarketplaceError>(e) && *final(self) == *old(self),
                None => {
                    let p = old(self).packs@[pack_id];
                    let cfg = old(self).config.unwrap();
                    let fee = trunc_div(p.pack_price * cfg.fee_bps, 10000);
                    let me = old(self).contract;
                    &&& r matches Ok(ts) && ts@ == seq![
                        Transfer { token: payment_token, from: buyer, to: me, amount: p.pack_price },
                        Transfer { token: payment_token, from: me, to: p.creator, amount: (p.pack_price - fee) as i128 },
                    ] + (if fee > 0 {
                        seq![Transfer { token: payment_token, from: me, to: cfg.fee_recipient, amount: fee as i128 }]
                    } else {
                        Seq::<Transfer>::empty()
                    })
                    &&& final(self).hints@.dom() == old(self).hints@.dom()
                    &&& forall|h: u64| #[trigger] final(self).hints@.contains_key(h) ==> final(self).hints@[h] == (Hint {
                        total_sales: (old(self).hints@[h].total_sales + count_of(p.hint_ids@, h)) as u32,
                        ..old(self).hints@[h]
                    })
                    &&& final(self).listings_same(old(self))
                    &&& final(self).packs@ == old(self).packs@
                    &&& final(self).config == old(self).config
                    &&& final(self).demand@ == old(self).demand@
                    &&& final(self).ratings@ == old(self).ratings@
                },
            },
    {
        let (price, pack_creator, ids, expiration) = match self.packs.get(&pack_id) {
            Some(p) => (p.pack_price, p.creator, copy_vec(&p.hint_ids), p.expiration_time),
            None => return Err(MarketplaceError::PackNotFound),
        };
        if let Some(exp) = expiration {
            if now > exp {
                return Err(MarketplaceError::PackExpired);
            }
        }
        let cfg = match self.config {
            Some(c) => c,
            None => return Err(MarketplaceError::NotInitialized),
        };
        let fee_scaled = match price.checked_mul(cfg.fee_bps as i128) {
            Some(v) => v,
            None => return Err(MarketplaceError::Overflow),
        };
        let fee = fee_scaled / 10000;
        let creator_amount = match price.checked_sub(fee) {
            Some(v) => v,
            None => return Err(MarketplaceError::Overflow),
        };
        // count the sales per hint before recording any
        let mut added: HashMap<u64, u32> = HashMap::new();
        let mut failure: Option<MarketplaceError> = None;
        let mut i: usize = 0;
        while i < ids.len()
            invariant
                i <= ids.len(),
                *self == *old(self),
                failure == sales_failure(self.hints@, ids@.take(i as int)),
                failure is None ==> forall|h: u64| #[trigger] value_at(added@, h, 0u32) == count_of(
                    ids@.take(i as int),
                    h,
                ),
            decreases ids.len() - i,
        {
            assert(ids@.take(i as int + 1).drop_last() =~= ids@.take(i as int));
            if failure.is_none() {
                let h = ids[i];
                match self.hints.get(&h) {
                    None => {
                        failure = Some(MarketplaceError::HintNotFound);
                    },
                    Some(hint) => {
                        let so_far = value_or(&added, &h, 0u32);
                        if hint.total_sales as u64 + so_far as u64 + 1 > u32::MAX as u64 {
                            failure = Some(MarketplaceError::Overflow);
                        } else {
                            let ghost before = added@;
                            added.insert(h, so_far + 1);
                            assert forall|q: u64| #[trigger] value_at(added@, q, 0u32) == count_of(
                                ids@.take(i as int + 1),
                                q,
                            ) by {
                                assert(ids@.take(i as int + 1).last() == h);
                                if q != h {
                                    assert(value_at(added@, q, 0u32) == value_at(before, q, 0u32));
                                }
                            }
                        }
                    },
                }
            }
            i = i + 1;
        }
        assert(ids@.take(ids.len() as int) =~= ids@);
        if let Some(e) = failure {
            return Err(e);
        }
        let me = self.contract;
        let mut transfers: Vec<Transfer> = Vec::new();
        transfers.push(Transfer { token: payment_token, from: buyer, to: me, amount: price });
        transfers.push(Transfer { token: payment_token, from: me, to: pack_creator, amount: creator_amount });
        if fee > 0 {
            transfers.push(Transfer { token: payment_token, from: me, to: cfg.fee_recipient, amount: fee });
        }
        let mut j: usize = 0;
        while j < ids.len()
            invariant
                j <= ids.len(),
                self.hints@.dom() == old(self).hints@.dom(),
                forall|h: u64| #[trigger] self.hints@.contains_key(h) ==> self.hints@[h] == (Hint {
                    total_sales: (old(self).hints@[h].total_sales + count_of(ids@.take(j as int), h)) as u32,
                    ..old(self).hints@[h]
                }),
                self.listings_same(old(self)),
                self.packs@ == old(self).packs@,
                self.config == old(self).config,
                self.demand@ == old(self).demand@,
                self.ratings@ == old(self).ratings@,
                self.contract == old(self).contract,
                self.hint_counter == old(self).hint_counter,
                self.pack_counter == old(self).pack_counter,
                self.ratings_by_hint@ == old(self).ratings_by_hint@,
                self.price_history@ == old(self).price_history@,
                self.packs_by_creator@ == old(self).packs_by_creator@,
                self.active_packs@ == old(self).active_packs@,
            decreases ids.len() - j,
        {
            assert(ids@.take(j as int + 1).drop_last() =~= ids@.take(j as int));
            let h = ids[j];
            proof {
                lemma_sales_prefix(old(self).hints@, ids@, j as int + 1);
            }
            let mut hint = self.hints.remove(&h).unwrap();
            hint.total_sales = hint.total_sales + 1;
            self.hints.insert(h, hint);
            j = j + 1;
        }
        assert(ids@.take(ids.len() as int) =~= ids@);
        assert(transfers@ =~= seq![
            Transfer { token: payment_token, from: buyer, to: me, amount: price },
            Transfer { token: payment_token, from: me, to: pack_creator, amount: creator_amount },
        ] + (if fee > 0 {
            seq![Transfer { token: payment_token, from: me, to: cfg.fee_recipient, amount: fee }]
        } else {
            Seq::<Transfer>::empty()
        }));
        Ok(transfers)
    }

    pub open spec fn cancel_error(&self, seller: AccountId, listing_id: u64) -> Option<MarketplaceError> {
        if !self.listings@.contains_key(listing_id) {
            Some(MarketplaceError::ListingNotFound)
        } else if self.listings@[listing_id].seller != seller {
            Some(MarketplaceError::NotAuthorized)
        } else if self.listings@[listing_id].status != ListingStatus::Active {
            Some(MarketplaceError::ListingNotActive)
        } else {
            None
        }
    }

    /// Cancels an active listing of `seller`.
    pub fn cancel_listing(&mut self, seller: AccountId, listing_id: u64) -> (r: Result<(), MarketplaceError>)
        requires
            old(self).wf(),
        ensures
            final(self).wf(),
            match old(self).cancel_error(seller, listing_id) {
                Some(e) => r == Err::<(), MarketplaceError>(e) && *final(self) == *old(self),
                None => {
                    &&& r is Ok
                    &&& final(self).listings@ == old(self).listings@.insert(
                        listing_id,
                        HintListing { status: ListingStatus::Cancelled, ..old(self).listings@[listing_id] },
                    )
                    &&& final(self).active_listings@ == seq_remove_first(old(self).active_listings@, listing_id)
                    &&& final(self).catalog_same(old(self))
                    &&& final(self).listing_counter == old(self).listing_counter
                    &&& final(self).listings_by_hint@ == old(self).listings_by_hint@
                    &&& final(self).listings_by_seller@ == old(self).listings_by_seller@
                    &&& final(self).listings_by_puzzle@ == old(self).listings_by_puzzle@
                },
            },
    {
        let l = match self.listings.get(&listing_id) {
            Some(l) => *l,
            None => return Err(MarketplaceError::ListingNotFound),
        };
        if l.seller != seller {
            return Err(MarketplaceError::NotAuthorized);
        }
        if l.status != ListingStatus::Active {
            return Err(MarketplaceError::ListingNotActive);
        }
        self.listings.insert(listing_id, HintListing { status: ListingStatus::Cancelled, ..l });
        remove_first_u64(&mut self.active_listings, listing_id);
        Ok(())
    }

    /// Marks as expired those of the listings `listing_ids` that are active
    /// and past their expiration time.
    #[verifier::loop_isolation(false)]
    pub fn expire_listings(&mut self, listing_ids: &Vec<u64>, now: u64)
        requires
            old(self).wf(),
        ensures
            final(self).wf(),
            (final(self).listings@, final(self).active_listings@) == expire_all(
                old(self).listings@,
                old(self).active_listings@,
                listing_ids@,
                now,
            ),
            final(self).catalog_same(old(self)),
            final(self).listing_counter == old(self).listing_counter,
            final(self).listings_by_hint@ == old(self).listings_by_hint@,
            final(self).listings_by_seller@ == old(self).listings_by_seller@,
            final(self).listings_by_puzzle@ == old(self).listings_by_puzzle@,
    {
        let mut i: usize = 0;
        while i < listing_ids.len()
            invariant
                i <= listing_ids.len(),
                self.wf(),
                (self.listings@, self.active_listings@) == expire_all(
                    old(self).listings@,
                    old(self).active_listings@,
                    listing_ids@.take(i as int),
                    now,
                ),
                self.catalog_same(old(self)),
                self.listing_counter == old(self).listing_counter,
                self.listings_by_hint@ == old(self).listings_by_hint@,
                self.listings_by_seller@ == old(self).listings_by_seller@,
                self.listings_by_puzzle@ == old(self).listings_by_puzzle@,
            decreases listing_ids.len() - i,
        {
            assert(listing_ids@.take(i as int + 1).drop_last() =~= listing_ids@.take(i as int));
            let id = listing_ids[i];
            match self.listings.get(&id) {
                Some(l) => {
                    let l = *l;
                    if l.status == ListingStatus::Active && now > l.expiration_time {
                        self.listings.insert(id, HintListing { status: ListingStatus::Expired, ..l });
                        remove_first_u64(&mut self.active_listings, id);
                    }
                },
                None => {},
            }
            i = i + 1;
        }
        assert(listing_ids@.take(listing_ids.len() as int) =~= listing_ids@);
    }

    /// A copy of the hint `hint_id`, if published.
    pub fn get_hint(&self, hint_id: u64) -> (r: Option<Hint>)
        ensures
            r is Some <==> self.hints@.contains_key(hint_id),
            r matches Some(h) ==> h.same(&self.hints@[hint_id]),
    {
        match self.hints.get(&hint_id) {
            Some(h) => Some(h.copy()),
            None => None,
        }
    }

    pub fn get_listing(&self, listing_id: u64) -> (r: Option<HintListing>)
        ensures
            r == if self.listings@.contains_key(listing_id) {
                Some(self.listings@[listing_id])
            } else {
                None::<HintListing>
            },
    {
        match self.listings.get(&listing_id) {
            Some(l) => Some(*l),
            None => None,
        }
    }

    pub fn get_pack(&self, pack_id: u64) -> (r: Option<HintPack>)
        ensures
            r is Some <==> self.packs@.contains_key(pack_id),
            r matches Some(p) ==> p.same(&self.packs@[pack_id]),
    {
        match self.packs.get(&pack_id) {
            Some(p) => Some(p.copy()),
            None => None,
        }
    }

    pub fn get_rating(&self, hint_id: u64, rater: AccountId) -> (r: Option<Rating>)
        ensures
            r == if self.ratings@.contains_key(pair_key_spec(hint_id, rater)) {
                Some(self.ratings@[pair_key_spec(hint_id, rater)])
            } else {
                None::<Rating>
            },
    {
        match self.ratings.get(&pair_key(hint_id, rater)) {
            Some(x) => Some(*x),
            None => None,
        }
    }

    pub fn get_listings_by_hint(&self, hint_id: u64) -> (r: Vec<u64>)
        ensures
            r@ == vec_at(self.listings_by_hint@, hint_id),
    {
        vec_or_empty(&self.listings_by_hint, &hint_id)
    }

    pub fn get_listings_by_seller(&self, seller: AccountId) -> (r: Vec<u64>)
        ensures
            r@ == vec_at(self.listings_by_seller@, seller),
    {
        vec_or_empty(&self.listings_by_seller, &seller)
    }

    pub fn get_listings_by_puzzle(&self, puzzle_id: u32) -> (r: Vec<u64>)
        ensures
            r@ == vec_at(self.listings_by_puzzle@, puzzle_id),
    {
        vec_or_empty(&self.listings_by_puzzle, &puzzle_id)
    }

    pub fn get_active_listings(&self) -> (r: Vec<u64>)
        ensures
            r@ == self.active_listings@,
    {
        copy_vec(&self.active_listings)
    }

    pub fn get_ratings_by_hint(&self, hint_id: u64) -> (r: Vec<u64>)
        ensures
            r@ == vec_at(self.ratings_by_hint@, hint_id),
    {
        vec_or_empty(&self.ratings_by_hint, &hint_id)
    }

    pub fn get_price_history(&self, hint_id: u64) -> (r: Vec<i128>)
        ensures
            r@ == vec_at(self.price_history@, hint_id),
    {
        vec_or_empty(&self.price_history, &hint_id)
    }

    pub fn get_demand_metrics(&self, hint_id: u64) -> (r: Option<DemandMetrics>)
        ensures
            r == if self.demand@.contains_key(hint_id) {
                Some(self.demand@[hint_id])
            } else {
                None::<DemandMetrics>
            },
    {
        match self.demand.get(&hint_id) {
            Some(m) => Some(*m),
            None => None,
        }
    }

    pub fn get_packs_by_creator(&self, creator: AccountId) -> (r: Vec<u64>)
        ensures
            r@ == vec_at(self.packs_by_creator@, creator),
    {
        vec_or_empty(&self.packs_by_creator, &creator)
    }

    pub fn get_active_packs(&self) -> (r: Vec<u64>)
        ensures
            r@ == self.active_packs@,
    {
        copy_vec(&self.active_packs)
    }

    pub fn get_config(&self) -> (r: Result<MarketplaceConfig, MarketplaceError>)
        ensures
            r == match self.config {
                Some(c) => Ok::<MarketplaceConfig, MarketplaceError>(c),
                None => Err(MarketplaceError::NotInitialized),
            },
    {
        match self.config {
            Some(c) => Ok(c),
            None => Err(MarketplaceError::NotInitialized),
        }
    }
}

/// Without a sales failure on `ids`, none on its prefixes, and the
/// hints named in the prefix exist with room for their sales.
proof fn lemma_sales_prefix(hints: Map<u64, Hint>, ids: Seq<u64>, n: int)
    requires
        0 < n <= ids.len(),
        sales_failure(hints, ids) is None,
    ensures
        hints.contains_key(ids[n - 1]),
        hints[ids[n - 1]].total_sales + count_of(ids.take(n), ids[n - 1]) <= u32::MAX,
    decreases ids.len(),
{
    if n < ids.len() {
        lemma_sales_prefix(hints, ids.drop_last(), n);
        assert(ids.drop_last().take(n) =~= ids.take(n));
    } else {
        assert(ids.take(n) =~= ids);
    }
}

/// Whatever the quality and the demand, the listing price of a hint with a
/// non-negative base price stays between half and three times that base.
pub proof fn lemma_price_in_band(base: int, q: HintQuality, purchases: int, views: int, factor: int)
    requires
        base >= 0,
    ensures
        base / 2 <= dynamic_price(base, q, purchases, views, factor) <= base * 3,
{
}

/// A rating sets a hint's quality to the quality whose rank is the integer
/// average of its ratings (1 Poor up to 5 Perfect), and to `Good` when the
/// average falls outside 1 to 5.
pub proof fn lemma_average_sets_quality(avg: int)
    ensures
        1 <= avg <= 5 ==> quality_rank(quality_of_average(avg)) == avg,
        avg < 1 || avg > 5 ==> quality_of_average(avg) == HintQuality::Good,
{
}

/// The price multiplier grows by 2500 basis points per quality rank, from
/// half the base price for `Poor` to one and a half times for `Perfect`,
/// with `Good` at the base price.
pub proof fn lemma_quality_multiplier_steps(q: HintQuality)
    ensures
        quality_multiplier(q) == 2500 * (quality_rank(q) + 1),
        1 <= quality_rank(q) <= 5,
{
}

/// A sale splits the price exactly: the seller's part, the fee and the
/// royalty add up to the price, and the fee and the royalty are their
/// basis points of the price, rounded down.
pub proof fn lemma_sale_splits_price(price: int, fee_bps: int, royalty_bps: int)
    requires
        price >= 0,
        0 <= fee_bps,
        0 <= royalty_bps,
    ensures
        payouts(price, fee_bps, royalty_bps).0 + payouts(price, fee_bps, royalty_bps).1 + payouts(
            price,
            fee_bps,
            royalty_bps,
        ).2 == price,
        payouts(price, fee_bps, royalty_bps).1 * 10000 <= price * fee_bps < (payouts(price, fee_bps, royalty_bps).1
            + 1) * 10000,
        payouts(price, fee_bps, royalty_bps).2 * 10000 <= price * royalty_bps < (payouts(
            price,
            fee_bps,
            royalty_bps,
        ).2 + 1) * 10000,
{
    let x = price * fee_bps;
    let y = price * royalty_bps;
    assert(x >= 0 && y >= 0) by (nonlinear_arith)
        requires
            x == price * fee_bps,
            y == price * royalty_bps,
            price >= 0,
            fee_bps >= 0,
            royalty_bps >= 0,
    ;
    assert((x / 10000) * 10000 <= x < (x / 10000 + 1) * 10000) by (nonlinear_arith)
        requires
            x >= 0,
    ;
    assert((y / 10000) * 10000 <= y < (y / 10000 + 1) * 10000) by (nonlinear_arith)
        requires
            y >= 0,
    ;
}

} // verus!
