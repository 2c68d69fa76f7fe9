//! A marketplace where the owner of an NFT lists one of its traits for sale
//! and a buyer moves the trait onto another NFT, paying the seller and a
//! platform fee.
use vstd::prelude::*;
use std::collections::HashMap;
use crate::util::{AccountId, Transfer, vec_at, vec_or_empty, push_value, seq_remove_first};

verus! {

broadcast use vstd::std_specs::hash::group_hash_axioms;

pub const STATUS_ACTIVE: u8 = 0;
pub const STATUS_SOLD: u8 = 1;
pub const STATUS_CANCELLED: u8 = 2;

pub struct TraitListing {
    pub id: u32,
    pub seller: AccountId,
    pub source_nft_id: u32,
    pub trait_key: String,
    pub trait_value: String,
    pub price: i128,
    pub payment_token: AccountId,
    /// 0 active, 1 sold, 2 cancelled.
    pub status: u8,
    pub created_at: u64,
}

#[derive(Clone, Copy, Debug, PartialEq, Eq, Structural)]
pub struct MarketplaceConfig {
    pub admin: AccountId,
    pub platform_fee_bps: u32,
    pub fee_collector: AccountId,
    pub nft_contract: AccountId,
    pub payment_token: AccountId,
}

#[derive(Clone, Copy, Debug, PartialEq, Eq, Structural)]
pub enum TraitMarketError {
    AlreadyInitialized,
    FeeTooHigh,
    NotInitialized,
    PriceNotPositive,
    TraitAlreadyListed,
    ListingNotFound,
    ListingNotActive,
    DestinationHasTrait,
    OnlySellerCanCancel,
    AdminOnly,
    Overflow,
}

/// The value a trait holds on an NFT.
pub struct TraitValue {
    pub nft_id: u32,
    pub trait_key: String,
    pub value: String,
}

/// An entry of the index of listings by trait type.
pub struct TraitTypeIndex {
    pub trait_key: String,
    pub listing_id: u32,
}

/// The storage of the contract; `contract` is its own account.
pub struct NftTraitMarketplaceContract {
    pub contract: AccountId,
    pub admin: Option<AccountId>,
    pub config: Option<MarketplaceConfig>,
    pub listing_counter: u32,
    pub listings: HashMap<u32, TraitListing>,
    pub seller_listings: HashMap<u64, Vec<u32>>,
    pub trait_type_listings: Vec<TraitTypeIndex>,
    /// The (NFT, trait key) pairs marked as holding the trait.
    pub has_trait: Vec<(u32, String)>,
    pub trait_values: Vec<TraitValue>,
}

// ───────────── mathematical model ─────────────

/// Whether the NFT `nft` is marked as holding the trait `key`.
pub open spec fn holds(s: Seq<(u32, String)>, nft: u32, key: Seq<char>) -> bool {
    exists|i: int| 0 <= i < s.len() && #[trigger] s[i].0 == nft && s[i].1@ == key
}

/// The value of the trait `key` on `nft`: the last one recorded, if any.
pub open spec fn value_of(s: Seq<TraitValue>, nft: u32, key: Seq<char>) -> Option<Seq<char>>
    decreases s.len(),
{
    if s.len() == 0 {
        None
    } else if s.last().nft_id == nft && s.last().trait_key@ == key {
        Some(s.last().value@)
    } else {
        value_of(s.drop_last(), nft, key)
    }
}

/// The listing ids indexed under the trait `key`, in the order they were listed.
pub open spec fn listings_of_key(s: Seq<TraitTypeIndex>, key: Seq<char>) -> Seq<u32>
    decreases s.len(),
{
    if s.len() == 0 {
        Seq::empty()
    } else if s.last().trait_key@ == key {
        listings_of_key(s.drop_last(), key).push(s.last().listing_id)
    } else {
        listings_of_key(s.drop_last(), key)
    }
}

/// The fee of a sale at `price`, rounded toward zero.
pub open spec fn fee_of(price: int, fee_bps: int) -> int {
    price * fee_bps / 10000
}

impl TraitListing {
    pub open spec fn same(&self, other: &TraitListing) -> bool {
        &&& self.id == other.id
        &&& self.seller == other.seller
        &&& self.source_nft_id == other.source_nft_id
        &&& self.trait_key@ == other.trait_key@
        &&& self.trait_value@ == other.trait_value@
        &&& self.price == other.price
        &&& self.payment_token == other.payment_token
        &&& self.status == other.status
        &&& self.created_at == other.created_at
    }

    pub fn copy(&self) -> (r: TraitListing)
        ensures
            r.same(self),
    {
        TraitListing {
            id: self.id,
            seller: self.seller,
            source_nft_id: self.source_nft_id,
            trait_key: self.trait_key.clone(),
            trait_value: self.trait_value.clone(),
            price: self.price,
            payment_token: self.payment_token,
            status: self.status,
            created_at: self.created_at,
        }
    }
}

// ───────────── table helpers ─────────────

fn holds_exec(s: &Vec<(u32, String)>, nft: u32, key: &String) -> (r: bool)
    ensures
        r == holds(s@, nft, key@),
{
    let mut i: usize = 0;
    while i < s.len()
        invariant
            i <= s.len(),
            forall|j: int| 0 <= j < i ==> !(#[trigger] s@[j].0 == nft && s@[j].1@ == key@),
        decreases s.len() - i,
    {
        if s[i].0 == nft && s[i].1 == *key {
            return true;
        }
        i = i + 1;
    }
    false
}

/// Marks `nft` as holding `key`.
fn mark(s: &mut Vec<(u32, String)>, nft: u32, key: String)
    ensures
        forall|n: u32, k: Seq<char>| #[trigger] holds(final(s)@, n, k) == (holds(old(s)@, n, k) || (n == nft
            && k == key@)),
{
    if !holds_exec(s, nft, &key) {
        let ghost k0 = key@;
        s.push((nft, key));
        assert forall|n: u32, k: Seq<char>| #[trigger] holds(s@, n, k) == (holds(old(s)@, n, k) || (n == nft
            && k == k0)) by {
            if holds(old(s)@, n, k) {
                let i = choose|i: int| 0 <= i < old(s)@.len() && #[trigger] old(s)@[i].0 == n && old(s)@[i].1@ == k;
                assert(s@[i] == old(s)@[i]);
            }
            if n == nft && k == k0 {
                assert(s@[s@.len() - 1].0 == nft);
            }
            if holds(s@, n, k) {
                let i = choose|i: int| 0 <= i < s@.len() && #[trigger] s@[i].0 == n && s@[i].1@ == k;
                if i < old(s)@.len() {
                    assert(old(s)@[i] == s@[i]);
                }
            }
        }
    }
}

/// Clears the mark of `key` on `nft`.
fn unmark(s: &mut Vec<(u32, String)>, nft: u32, key: &String)
    ensures
        forall|n: u32, k: Seq<char>| #[trigger] holds(final(s)@, n, k) == (holds(old(s)@, n, k) && !(n == nft
            && k == key@)),
{
    let mut out: Vec<(u32, String)> = Vec::new();
    let mut i: usize = 0;
    while i < s.len()
        invariant
            i <= s.len(),
            forall|n: u32, k: Seq<char>| #[trigger] holds(out@, n, k) == (holds(s@.take(i as int), n, k) && !(n
                == nft && k == key@)),
        decreases s.len() - i,
    {
        let ghost before = out@;
        let keep = !(s[i].0 == nft && s[i].1 == *key);
        if keep {
            let e = (s[i].0, s[i].1.clone());
            out.push(e);
        }
        assert forall|n: u32, k: Seq<char>| #[trigger] holds(out@, n, k) == (holds(s@.take(i as int + 1), n, k)
            && !(n == nft && k == key@)) by {
            let t0 = s@.take(i as int);
            let t1 = s@.take(i as int + 1);
            if holds(t0, n, k) {
                let j = choose|j: int| 0 <= j < t0.len() && #[trigger] t0[j].0 == n && t0[j].1@ == k;
                assert(t1[j] == t0[j]);
            }
            if holds(t1, n, k) {
                let j = choose|j: int| 0 <= j < t1.len() && #[trigger] t1[j].0 == n && t1[j].1@ == k;
                if j < t0.len() {
                    assert(t0[j] == t1[j]);
                }
            }
            if holds(out@, n, k) {
                let j = choose|j: int| 0 <= j < out@.len() && #[trigger] out@[j].0 == n && out@[j].1@ == k;
                if j < before.len() {
                    assert(before[j] == out@[j]);
                    assert(holds(before, n, k));
                }
            }
            if holds(before, n, k) {
                let j = choose|j: int| 0 <= j < before.len() && #[trigger] before[j].0 == n && before[j].1@ == k;
                assert(out@[j] == before[j]);
            }
            if keep && n == s@[i as int].0 && k == s@[i as int].1@ {
                assert(out@[out@.len() - 1] == s@[i as int]);
                assert(t1[i as int] == s@[i as int]);
            }
        }
        i = i + 1;
    }
    assert(s@.take(s.len() as int) =~= s@);
    *s = out;
}

/// Sets the value of the trait `key` on `nft`.
fn set_value(s: &mut Vec<TraitValue>, nft: u32, key: String, value: String)
    ensures
        forall|n: u32, k: Seq<char>| #[trigger] value_of(final(s)@, n, k) == if n == nft && k == key@ {
            Some(value@)
        } else {
            value_of(old(s)@, n, k)
        },
{
    let ghost old_s = s@;
    s.push(TraitValue { nft_id: nft, trait_key: key, value });
    assert(s@.drop_last() =~= old_s);
}

/// Appends `id` to the listings of the trait `key`.
fn index_listing(s: &mut Vec<TraitTypeIndex>, key: String, id: u32)
    ensures
        forall|k: Seq<char>| #[trigger] listings_of_key(final(s)@, k) == if k == key@ {
            listings_of_key(old(s)@, k).push(id)
        } else {
            listings_of_key(old(s)@, k)
        },
{
    let ghost old_s = s@;
    s.push(TraitTypeIndex { trait_key: key, listing_id: id });
    assert(s@.drop_last() =~= old_s);
}

/// The listing ids indexed under `key`.
fn ids_of_key(s: &Vec<TraitTypeIndex>, key: &String) -> (r: Vec<u32>)
    ensures
        r@ == listings_of_key(s@, key@),
{
    let mut r: Vec<u32> = Vec::new();
    let mut i: usize = 0;
    while i < s.len()
        invariant
            i <= s.len(),
            r@ == listings_of_key(s@.take(i as int), key@),
        decreases s.len() - i,
    {
        assert(s@.take(i as int + 1).drop_last() =~= s@.take(i as int));
        if s[i].trait_key == *key {
            r.push(s[i].listing_id);
        }
        i = i + 1;
    }
    assert(s@.take(s.len() as int) =~= s@);
    r
}

/// The ids of `ids` whose listing exists and is active, in order.
pub open spec fn active_ids(ids: Seq<u32>, m: Map<u32, TraitListing>) -> Seq<u32>
    decreases ids.len(),
{
    if ids.len() == 0 {
        Seq::empty()
    } else {
        let rest = active_ids(ids.drop_last(), m);
        let id = ids.last();
        if m.contains_key(id) && m[id].status == STATUS_ACTIVE {
            rest.push(id)
        } else {
            rest
        }
    }
}

/// `l` with its status set to `status`.
pub open spec fn with_status(l: TraitListing, status: u8) -> TraitListing {
    TraitListing {
        id: l.id,
        seller: l.seller,
        source_nft_id: l.source_nft_id,
        trait_key: l.trait_key,
        trait_value: l.trait_value,
        price: l.price,
        payment_token: l.payment_token,
        status,
        created_at: l.created_at,
    }
}

/// Copies of the listings of `ids` that exist and are active, in order.
fn collect_active(ids: &Vec<u32>, m: &HashMap<u32, TraitListing>) -> (r: Vec<TraitListing>)
    ensures
        r@.len() == active_ids(ids@, m@).len(),
        forall|j: int| 0 <= j < r@.len() ==> #[trigger] r@[j].same(&m@[active_ids(ids@, m@)[j]]),
{
    let mut r: Vec<TraitListing> = Vec::new();
    let mut i: usize = 0;
    while i < ids.len()
        invariant
            i <= ids.len(),
            r@.len() == active_ids(ids@.take(i as int), m@).len(),
            forall|j: int| 0 <= j < r@.len() ==> #[trigger] r@[j].same(&m@[active_ids(ids@.take(i as int), m@)[j]]),
        decreases ids.len() - i,
    {
        let id = ids[i];
        assert(ids@.take(i as int + 1).drop_last() =~= ids@.take(i as int));
        assert(ids@.take(i as int + 1).last() == id);
        match m.get(&id) {
            Some(l) => {
                if l.status == STATUS_ACTIVE {
                    r.push(l.copy());
                }
            },
            None => {},
        }
        i = i + 1;
    }
    assert(ids@.take(ids.len() as int) =~= ids@);
    r
}

impl NftTraitMarketplaceContract {
    /// The invariant that every entry point keeps.
    pub open spec fn wf(&self) -> bool {
        &&& (self.config matches Some(c) ==> c.platform_fee_bps <= 10000)
        &&& forall|k: u32| #[trigger] self.listings@.contains_key(k) ==> self.listings@[k].price > 0
    }

    /// Every table but the listings and the trait marks is the same.
    pub open spec fn settings_same(&self, other: &Self) -> bool {
        &&& self.contract == other.contract
        &&& self.admin == other.admin
        &&& self.config == other.config
        &&& self.listing_counter == other.listing_counter
    }

    /// A contract with empty storage, deployed at `contract`.
    pub fn new(contract: AccountId) -> (r: Self)
        ensures
            r.contract == contract,
            r.admin is None,
            r.config is None,
            r.listing_counter == 0,
            r.listings@ == Map::<u32, TraitListing>::empty(),
            r.seller_listings@ == Map::<u64, Vec<u32>>::empty(),
            r.trait_type_listings@ == Seq::<TraitTypeIndex>::empty(),
            r.has_trait@ == Seq::<(u32, String)>::empty(),
            r.trait_values@ == Seq::<TraitValue>::empty(),
            r.wf(),
    {
        NftTraitMarketplaceContract {
            contract,
            admin: None,
            config: None,
            listing_counter: 0,
            listings: HashMap::new(),
            seller_listings: HashMap::new(),
            trait_type_listings: Vec::new(),
            has_trait: Vec::new(),
            trait_values: Vec::new(),
        }
    }

    /// Stores the admin and the configuration; the admin collects the fees.
    pub fn initialize(
        &mut self,
        admin: AccountId,
        platform_fee_bps: u32,
        nft_contract: AccountId,
        payment_token: AccountId,
    ) -> (r: Result<(), TraitMarketError>)
        requires
            old(self).wf(),
        ensures
            final(self).wf(),
            old(self).admin is Some ==> r == Err::<(), TraitMarketError>(TraitMarketError::AlreadyInitialized),
            old(self).admin is None && platform_fee_bps > 10000 ==> r == Err::<(), TraitMarketError>(
                TraitMarketError::FeeTooHigh,
            ),
            r is Err ==> *final(self) == *old(self),
            old(self).admin is None && platform_fee_bps <= 10000 ==> r is Ok,
            r is Ok ==> {
                &&& old(self).admin is None && platform_fee_bps <= 10000
                &&& final(self).admin == Some(admin)
                &&& final(self).config == Some(
                    MarketplaceConfig { admin, platform_fee_bps, fee_collector: admin, nft_contract, payment_token },
                )
                &&& final(self).listing_counter == 0
                &&& final(self).contract == old(self).contract
                &&& final(self).listings@ == old(self).listings@
                &&& final(self).seller_listings@ == old(self).seller_listings@
                &&& final(self).trait_type_listings@ == old(self).trait_type_listings@
                &&& final(self).has_trait@ == old(self).has_trait@
                &&& final(self).trait_values@ == old(self).trait_values@
            },
    {
        if self.admin.is_some() {
            return Err(TraitMarketError::AlreadyInitialized);
        }
        if platform_fee_bps > 10000 {
            return Err(TraitMarketError::FeeTooHigh);
        }
        self.admin = Some(admin);
        self.config = Some(
            MarketplaceConfig { admin, platform_fee_bps, fee_collector: admin, nft_contract, payment_token },
        );
        self.listing_counter = 0;
        Ok(())
    }

    /// The stored admin.
    pub fn admin(&self) -> (r: Result<AccountId, TraitMarketError>)
        ensures
            match self.admin {
                Some(a) => r == Ok::<AccountId, TraitMarketError>(a),
                None => r == Err::<AccountId, TraitMarketError>(TraitMarketError::NotInitialized),
            },
    {
        match self.admin {
            Some(a) => Ok(a),
            None => Err(TraitMarketError::NotInitialized),
        }
    }

    /// The stored configuration.
    pub fn config(&self) -> (r: Result<MarketplaceConfig, TraitMarketError>)
        ensures
            match self.config {
                Some(c) => r == Ok::<MarketplaceConfig, TraitMarketError>(c),
                None => r == Err::<MarketplaceConfig, TraitMarketError>(TraitMarketError::NotInitialized),
            },
    {
        match self.config {
            Some(c) => Ok(c),
            None => Err(TraitMarketError::NotInitialized),
        }
    }

    /// The error of `list_trait`, checked in the order of the contract.
    pub open spec fn list_trait_error(&self, source_nft_id: u32, trait_key: Seq<char>, price: i128) -> Option<
        TraitMarketError,
    > {
        if price <= 0 {
            Some(TraitMarketError::PriceNotPositive)
        } else if self.config is None {
            Some(TraitMarketError::NotInitialized)
        } else if holds(self.has_trait@, source_nft_id, trait_key) {
            Some(TraitMarketError::TraitAlreadyListed)
        } else if self.listing_counter == u32::MAX {
            Some(TraitMarketError::Overflow)
        } else {
            None
        }
    }

    /// Lists the trait `trait_key` of `source_nft_id` at `price` under the
    /// next listing id, marks the trait as held by the NFT and records its
    /// value; returns the listing id.
    pub fn list_trait(
        &mut self,
        seller: AccountId,
        source_nft_id: u32,
        trait_key: String,
        trait_value: String,
        price: i128,
        now: u64,
    ) -> (r: Result<u32, TraitMarketError>)
        requires
            old(self).wf(),
        ensures
            final(self).wf(),
            match old(self).list_trait_error(source_nft_id, trait_key@, price) {
                Some(e) => r == Err::<u32, TraitMarketError>(e) && *final(self) == *old(self),
                None => {
                    let id = (old(self).listing_counter + 1) as u32;
                    &&& r == Ok::<u32, TraitMarketError>(id)
                    &&& final(self).listing_counter == id
                    &&& final(self).listings@ == old(self).listings@.insert(
                        id,
                        TraitListing {
                            id,
                            seller,
                            source_nft_id,
                            trait_key,
                            trait_value,
                            price,
                            payment_token: old(self).config.unwrap().payment_token,
                            status: STATUS_ACTIVE,
                            created_at: now,
                        },
                    )
                    &&& forall|n: u32, k: Seq<char>| #[trigger] holds(final(self).has_trait@, n, k) == (holds(
                        old(self).has_trait@, n, k) || (n == source_nft_id && k == trait_key@))
                    &&& forall|n: u32, k: Seq<char>| #[trigger] value_of(final(self).trait_values@, n, k) == if n
                        == source_nft_id && k == trait_key@ {
                        Some(trait_value@)
                    } else {
                        value_of(old(self).trait_values@, n, k)
                    }
                    &&& forall|k: Seq<char>| #[trigger] listings_of_key(final(self).trait_type_listings@, k) == if k
                        == trait_key@ {
                        listings_of_key(old(self).trait_type_listings@, k).push(id)
                    } else {
                        listings_of_key(old(self).trait_type_listings@, k)
                    }
                    &&& forall|a: u64| #[trigger] vec_at(final(self).seller_listings@, a) == if a == seller {
                        vec_at(old(self).seller_listings@, a).push(id)
                    } else {
                        vec_at(old(self).seller_listings@, a)
                    }
                    &&& final(self).contract == old(self).contract
                    &&& final(self).admin == old(self).admin
                    &&& final(self).config == old(self).config
                },
            },
    {
        if price <= 0 {
            return Err(TraitMarketError::PriceNotPositive);
        }
        let config = match self.config {
            Some(c) => c,
            None => return Err(TraitMarketError::NotInitialized),
        };
        if holds_exec(&self.has_trait, source_nft_id, &trait_key) {
            return Err(TraitMarketError::TraitAlreadyListed);
        }
        if self.listing_counter == u32::MAX {
            return Err(TraitMarketError::Overflow);
        }
        mark(&mut self.has_trait, source_nft_id, trait_key.clone());
        set_value(&mut self.trait_values, source_nft_id, trait_key.clone(), trait_value.clone());
        let id = self.listing_counter + 1;
        let key_for_index = trait_key.clone();
        let listing = TraitListing {
            id,
            seller,
            source_nft_id,
            trait_key,
            trait_value,
            price,
            payment_token: config.payment_token,
            status: STATUS_ACTIVE,
            created_at: now,
        };
        self.listings.insert(id, listing);
        self.listing_counter = id;
        push_value(&mut self.seller_listings, seller, id);
        index_listing(&mut self.trait_type_listings, key_for_index, id);
        Ok(id)
    }

    /// The error of `buy_trait`, checked in the order of the contract.
    pub open spec fn buy_trait_error(&self, listing_id: u32, destination_nft_id: u32) -> Option<TraitMarketError> {
        if !self.listings@.contains_key(listing_id) {
            Some(TraitMarketError::ListingNotFound)
        } else if self.listings@[listing_id].status != STATUS_ACTIVE {
            Some(TraitMarketError::ListingNotActive)
        } else if holds(self.has_trait@, destination_nft_id, self.listings@[listing_id].trait_key@) {
            Some(TraitMarketError::DestinationHasTrait)
        } else if self.config is None {
            Some(TraitMarketError::NotInitialized)
        } else if self.listings@[listing_id].price * self.config.unwrap().platform_fee_bps > i128::MAX {
            Some(TraitMarketError::Overflow)
        } else {
            None
        }
    }

    /// Buys the trait of an active listing for `destination_nft_id`: the buyer
    /// pays the seller the price less the platform fee, and the fee collector
    /// the fee when it is positive; the trait moves from the source NFT to the
    /// destination and the listing is marked sold.
    pub fn buy_trait(&mut self, listing_id: u32, buyer: AccountId, destination_nft_id: u32) -> (r: Result<
        Vec<Transfer>,
        TraitMarketError,
    >)
        requires
            old(self).wf(),
        ensures
            final(self).wf(),
            match old(self).buy_trait_error(listing_id, destination_nft_id) {
                Some(e) => r == Err::<Vec<Transfer>, TraitMarketError>(e) && *final(self) == *old(self),
                None => {
                    let l = old(self).listings@[listing_id];
                    let cfg = old(self).config.unwrap();
                    let fee = fee_of(l.price as int, cfg.platform_fee_bps as int);
                    let pay_seller = Transfer {
                        token: l.payment_token,
                        from: buyer,
                        to: l.seller,
                        amount: (l.price - fee) as i128,
                    };
                    let pay_fee = Transfer { token: l.payment_token, from: buyer, to: cfg.fee_collector, amount: fee as i128 };
                    &&& r is Ok
                    &&& r.unwrap()@ == if fee > 0 { seq![pay_seller, pay_fee] } else { seq![pay_seller] }
                    &&& final(self).listings@ == old(self).listings@.insert(listing_id, with_status(l, STATUS_SOLD))
                    &&& forall|n: u32, k: Seq<char>| #[trigger] holds(final(self).has_trait@, n, k) == ((holds(
                        old(self).has_trait@, n, k) && !(n == l.source_nft_id && k == l.trait_key@)) || (n
                        == destination_nft_id && k == l.trait_key@))
                    &&& forall|n: u32, k: Seq<char>| #[trigger] value_of(final(self).trait_values@, n, k) == if n
                        == destination_nft_id && k == l.trait_key@ {
                        Some(l.trait_value@)
                    } else {
                        value_of(old(self).trait_values@, n, k)
                    }
                    &&& final(self).trait_type_listings@ == old(self).trait_type_listings@
                    &&& final(self).seller_listings@ == old(self).seller_listings@
                    &&& final(self).settings_same(old(self))
                },
            },
    {
        let (seller, source, price, token, key, value) = match self.listings.get(&listing_id) {
            Some(l) => (l.seller, l.source_nft_id, l.price, l.payment_token, l.trait_key.clone(), l.trait_value.clone()),
            None => return Err(TraitMarketError::ListingNotFound),
        };
        if self.listings.get(&listing_id).unwrap().status != STATUS_ACTIVE {
            return Err(TraitMarketError::ListingNotActive);
        }
        if holds_exec(&self.has_trait, destination_nft_id, &key) {
            return Err(TraitMarketError::DestinationHasTrait);
        }
        let config = match self.config {
            Some(c) => c,
            None => return Err(TraitMarketError::NotInitialized),
        };
        let product = match price.checked_mul(config.platform_fee_bps as i128) {
            Some(p) => p,
            None => return Err(TraitMarketError::Overflow),
        };
        let fee = product / 10000;
        assert(fee <= price) by (nonlinear_arith)
            requires
                product == price * config.platform_fee_bps,
                config.platform_fee_bps <= 10000,
                price > 0,
                fee == product / 10000,
        ;
        let seller_amount = price - fee;
        let mut transfers: Vec<Transfer> = Vec::new();
        transfers.push(Transfer { token, from: buyer, to: seller, amount: seller_amount });
        if fee > 0 {
            transfers.push(Transfer { token, from: buyer, to: config.fee_collector, amount: fee });
        }
        let ghost old_listings = self.listings@;
        let mut listing = self.listings.remove(&listing_id).unwrap();
        listing.status = STATUS_SOLD;
        self.listings.insert(listing_id, listing);
        assert(self.listings@ =~= old_listings.insert(listing_id, with_status(old_listings[listing_id], STATUS_SOLD)));
        unmark(&mut self.has_trait, source, &key);
        mark(&mut self.has_trait, destination_nft_id, key.clone());
        set_value(&mut self.trait_values, destination_nft_id, key, value);
        assert forall|k: u32| #[trigger] self.listings@.contains_key(k) implies self.listings@[k].price > 0 by {
            assert(old_listings.contains_key(k));
        }
        Ok(transfers)
    }

    /// The error of `cancel_listing`, checked in the order of the contract.
    pub open spec fn cancel_listing_error(&self, seller: AccountId, listing_id: u32) -> Option<TraitMarketError> {
        if !self.listings@.contains_key(listing_id) {
            Some(TraitMarketError::ListingNotFound)
        } else if self.listings@[listing_id].seller != seller {
            Some(TraitMarketError::OnlySellerCanCancel)
        } else if self.listings@[listing_id].status != STATUS_ACTIVE {
            Some(TraitMarketError::ListingNotActive)
        } else {
            None
        }
    }

    /// Cancels an active listing of `seller`: the trait mark of the source NFT
    /// is cleared, the listing is marked cancelled and leaves the seller's
    /// list.
    pub fn cancel_listing(&mut self, seller: AccountId, listing_id: u32) -> (r: Result<(), TraitMarketError>)
        requires
            old(self).wf(),
        ensures
            final(self).wf(),
            match old(self).cancel_listing_error(seller, listing_id) {
                Some(e) => r == Err::<(), TraitMarketError>(e) && *final(self) == *old(self),
                None => {
                    let l = old(self).listings@[listing_id];
                    &&& r is Ok
                    &&& final(self).listings@ == old(self).listings@.insert(listing_id, with_status(l, STATUS_CANCELLED))
                    &&& forall|n: u32, k: Seq<char>| #[trigger] holds(final(self).has_trait@, n, k) == (holds(
                        old(self).has_trait@, n, k) && !(n == l.source_nft_id && k == l.trait_key@))
                    &&& forall|a: u64| #[trigger] vec_at(final(self).seller_listings@, a) == if a == seller {
                        seq_remove_first(vec_at(old(self).seller_listings@, a), listing_id)
                    } else {
                        vec_at(old(self).seller_listings@, a)
                    }
                    &&& final(self).trait_values@ == old(self).trait_values@
                    &&& final(self).trait_type_listings@ == old(self).trait_type_listings@
                    &&& final(self).settings_same(old(self))
                },
            },
    {
        let (owner, source, key) = match self.listings.get(&listing_id) {
            Some(l) => (l.seller, l.source_nft_id, l.trait_key.clone()),
            None => return Err(TraitMarketError::ListingNotFound),
        };
        if owner != seller {
            return Err(TraitMarketError::OnlySellerCanCancel);
        }
        if self.listings.get(&listing_id).unwrap().status != STATUS_ACTIVE {
            return Err(TraitMarketError::ListingNotActive);
        }
        unmark(&mut self.has_trait, source, &key);
        let ghost old_listings = self.listings@;
        let mut listing = self.listings.remove(&listing_id).unwrap();
        listing.status = STATUS_CANCELLED;
        self.listings.insert(listing_id, listing);
        assert(self.listings@ =~= old_listings.insert(
            listing_id,
            with_status(old_listings[listing_id], STATUS_CANCELLED),
        ));
        assert forall|k: u32| #[trigger] self.listings@.contains_key(k) implies self.listings@[k].price > 0 by {
            assert(old_listings.contains_key(k));
        }
        let ghost old_sellers = self.seller_listings@;
        let mut ids = vec_or_empty(&self.seller_listings, &seller);
        crate::util::remove_first_u32(&mut ids, listing_id);
        self.seller_listings.insert(seller, ids);
        assert forall|a: u64| #[trigger] vec_at(self.seller_listings@, a) == if a == seller {
            seq_remove_first(vec_at(old_sellers, a), listing_id)
        } else {
            vec_at(old_sellers, a)
        } by {}
        Ok(())
    }

    /// A copy of the listing `listing_id`, if any.
    pub fn get_listing(&self, listing_id: u32) -> (r: Option<TraitListing>)
        ensures
            r is Some == self.listings@.contains_key(listing_id),
            r is Some ==> r.unwrap().same(&self.listings@[listing_id]),
    {
        match self.listings.get(&listing_id) {
            Some(l) => Some(l.copy()),
            None => None,
        }
    }

    /// Whether `nft_id` is marked as holding the trait `trait_key`.
    pub fn has_trait(&self, nft_id: u32, trait_key: String) -> (r: bool)
        ensures
            r == holds(self.has_trait@, nft_id, trait_key@),
    {
        holds_exec(&self.has_trait, nft_id, &trait_key)
    }

    /// The recorded value of the trait `trait_key` on `nft_id`, if any.
    pub fn get_trait(&self, nft_id: u32, trait_key: String) -> (r: Option<String>)
        ensures
            match value_of(self.trait_values@, nft_id, trait_key@) {
                Some(v) => r is Some && r.unwrap()@ == v,
                None => r is None,
            },
    {
        let s = &self.trait_values;
        let mut i: usize = s.len();
        assert(s@.take(s.len() as int) =~= s@);
        while i > 0
            invariant
                i <= s.len(),
                s@ == self.trait_values@,
                value_of(s@, nft_id, trait_key@) == value_of(s@.take(i as int), nft_id, trait_key@),
            decreases i,
        {
            assert(s@.take(i as int).drop_last() =~= s@.take(i as int - 1));
            assert(s@.take(i as int).last() == s@[i as int - 1]);
            if s[i - 1].nft_id == nft_id && s[i - 1].trait_key == trait_key {
                let v = s[i - 1].value.clone();
                assert(s@.take(i as int).last().trait_key@ == trait_key@);
                assert(value_of(s@.take(i as int), nft_id, trait_key@) == Some(v@));
                return Some(v);
            }
            i = i - 1;
        }
        None
    }

    /// Copies of the active listings indexed under `trait_key`, in listing order.
    pub fn list_active_listings(&self, trait_key: String) -> (r: Vec<TraitListing>)
        ensures
            r@.len() == active_ids(listings_of_key(self.trait_type_listings@, trait_key@), self.listings@).len(),
            forall|j: int| 0 <= j < r@.len() ==> #[trigger] r@[j].same(
                &self.listings@[active_ids(listings_of_key(self.trait_type_listings@, trait_key@), self.listings@)[j]],
            ),
    {
        let ids = ids_of_key(&self.trait_type_listings, &trait_key);
        collect_active(&ids, &self.listings)
    }

    /// Copies of the active listings of `seller`, in listing order.
    pub fn get_seller_active_listings(&self, seller: AccountId) -> (r: Vec<TraitListing>)
        ensures
            r@.len() == active_ids(vec_at(self.seller_listings@, seller), self.listings@).len(),
            forall|j: int| 0 <= j < r@.len() ==> #[trigger] r@[j].same(
                &self.listings@[active_ids(vec_at(self.seller_listings@, seller), self.listings@)[j]],
            ),
    {
        let ids = vec_or_empty(&self.seller_listings, &seller);
        collect_active(&ids, &self.listings)
    }

    /// The error of the admin's configuration updates.
    pub open spec fn admin_error(&self, admin: AccountId) -> Option<TraitMarketError> {
        if self.admin is None {
            Some(TraitMarketError::NotInitialized)
        } else if self.admin.unwrap() != admin {
            Some(TraitMarketError::AdminOnly)
        } else if self.config is None {
            Some(TraitMarketError::NotInitialized)
        } else {
            None
        }
    }

    /// Sets the platform fee; the admin only, at most 10000 basis points.
    pub fn update_platform_fee(&mut self, admin: AccountId, new_fee_bps: u32) -> (r: Result<(), TraitMarketError>)
        requires
            old(self).wf(),
        ensures
            final(self).wf(),
            match (if old(self).admin is None {
                Some(TraitMarketError::NotInitialized)
            } else if old(self).admin.unwrap() != admin {
                Some(TraitMarketError::AdminOnly)
            } else if new_fee_bps > 10000 {
                Some(TraitMarketError::FeeTooHigh)
            } else {
                old(self).admin_error(admin)
            }) {
                Some(e) => r == Err::<(), TraitMarketError>(e) && *final(self) == *old(self),
                None => {
                    &&& r is Ok
                    &&& final(self).config == Some(
                        MarketplaceConfig { platform_fee_bps: new_fee_bps, ..old(self).config.unwrap() },
                    )
                    &&& final(self).admin == old(self).admin
                    &&& final(self).listing_counter == old(self).listing_counter
                    &&& final(self).contract == old(self).contract
                    &&& final(self).listings@ == old(self).listings@
                    &&& final(self).seller_listings@ == old(self).seller_listings@
                    &&& final(self).trait_type_listings@ == old(self).trait_type_listings@
                    &&& final(self).has_trait@ == old(self).has_trait@
                    &&& final(self).trait_values@ == old(self).trait_values@
                },
            },
    {
        match self.admin {
            None => return Err(TraitMarketError::NotInitialized),
            Some(a) => {
                if a != admin {
                    return Err(TraitMarketError::AdminOnly);
                }
            },
        }
        if new_fee_bps > 10000 {
            return Err(TraitMarketError::FeeTooHigh);
        }
        let mut config = match self.config {
            Some(c) => c,
            None => return Err(TraitMarketError::NotInitialized),
        };
        config.platform_fee_bps = new_fee_bps;
        self.config = Some(config);
        Ok(())
    }

    /// Sets the account that collects the platform fee; the admin only.
    pub fn update_fee_collector(&mut self, admin: AccountId, new_collector: AccountId) -> (r: Result<
        (),
        TraitMarketError,
    >)
        requires
            old(self).wf(),
        ensures
            final(self).wf(),
            match old(self).admin_error(admin) {
                Some(e) => r == Err::<(), TraitMarketError>(e) && *final(self) == *old(self),
                None => {
                    &&& r is Ok
                    &&& final(self).config == Some(
                        MarketplaceConfig { fee_collector: new_collector, ..old(self).config.unwrap() },
                    )
                    &&& final(self).admin == old(self).admin
                    &&& final(self).listing_counter == old(self).listing_counter
                    &&& final(self).contract == old(self).contract
                    &&& final(self).listings@ == old(self).listings@
                    &&& final(self).seller_listings@ == old(self).seller_listings@
                    &&& final(self).trait_type_listings@ == old(self).trait_type_listings@
                    &&& final(self).has_trait@ == old(self).has_trait@
                    &&& final(self).trait_values@ == old(self).trait_values@
                },
            },
    {
        match self.admin {
            None => return Err(TraitMarketError::NotInitialized),
            Some(a) => {
                if a != admin {
                    return Err(TraitMarketError::AdminOnly);
                }
            },
        }
        let mut config = match self.config {
            Some(c) => c,
            None => return Err(TraitMarketError::NotInitialized),
        };
        config.fee_collector = new_collector;
        self.config = Some(config);
        Ok(())
    }
}

} // verus!
