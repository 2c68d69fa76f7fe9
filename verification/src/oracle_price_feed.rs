//! A price oracle: for each registered pair the admin names the providers;
//! each provider's latest price is kept, and the pair's price is the median
//! of those prices, with a history of the last hundred medians.
use vstd::prelude::*;
use vstd::relations::{sorted_by, total_ordering};
use crate::util::{AccountId, first_index_of, contains_u64, seq_without, without_u64, trunc_div};

verus! {

broadcast use vstd::seq_lib::group_to_multiset_ensures;

/// The most snapshots a pair's history keeps.
pub const MAX_HISTORY: usize = 100;

#[derive(Clone, Copy, Debug, PartialEq, Eq, Structural)]
pub enum PriceFeedError {
    NotInitialized,
    AlreadyInitialized,
    Unauthorized,
    PairNotFound,
    ProviderNotFound,
    ProviderAlreadyExists,
    StalePrice,
    InsufficientProviders,
    InvalidPrice,
    Overflow,
}

#[derive(Clone, Copy, Debug, PartialEq, Eq, Structural)]
pub struct PriceSnapshot {
    pub median_price: i128,
    pub timestamp: u64,
}

#[derive(Clone, Copy, Debug, PartialEq, Eq, Structural)]
pub struct Config {
    pub admin: AccountId,
    pub stale_threshold: u64,
}

pub struct PriceFeed {
    pub pair_id: String,
    pub token_a: AccountId,
    pub token_b: AccountId,
    pub providers: Vec<AccountId>,
    /// Each provider's latest price.
    pub prices: Vec<(AccountId, i128)>,
    pub last_updated: u64,
    pub median_price: i128,
    /// The medians recorded, oldest first.
    pub history: Vec<PriceSnapshot>,
}

/// The storage of the contract.
pub struct OraclePriceFeed {
    pub config: Option<Config>,
    pub feeds: Vec<PriceFeed>,
}

// ───────────── the median ─────────────

/// The order of prices.
pub open spec fn price_leq() -> spec_fn(i128, i128) -> bool {
    |a: i128, b: i128| a <= b
}

/// The median of `s`: the middle price once sorted, or the mean of the two
/// middle prices (rounded toward zero) when there is an even number.
pub open spec fn median_of(s: Seq<i128>) -> int {
    let t = s.sort_by(price_leq());
    let n = s.len() as int;
    if n % 2 == 1 {
        t[n / 2] as int
    } else {
        trunc_div(t[n / 2 - 1] + t[n / 2], 2)
    }
}

/// Whether the mean of the two middle prices overflows.
pub open spec fn median_overflows(s: Seq<i128>) -> bool {
    let t = s.sort_by(price_leq());
    let n = s.len() as int;
    n % 2 == 0 && n > 0 && (t[n / 2 - 1] + t[n / 2] > i128::MAX || t[n / 2 - 1] + t[n / 2] < i128::MIN)
}

/// The prices of a list of (provider, price) entries.
pub open spec fn price_values(s: Seq<(AccountId, i128)>) -> Seq<i128> {
    s.map_values(|p: (AccountId, i128)| p.1)
}

/// The providers of a list of (provider, price) entries.
pub open spec fn price_keys(s: Seq<(AccountId, i128)>) -> Seq<AccountId> {
    s.map_values(|p: (AccountId, i128)| p.0)
}

/// The pair ids of the feeds.
pub open spec fn pair_ids(s: Seq<PriceFeed>) -> Seq<Seq<char>> {
    s.map_values(|f: PriceFeed| f.pair_id@)
}

/// The entries of `s` other than those of `provider`, in order.
pub open spec fn prices_without(s: Seq<(AccountId, i128)>, provider: AccountId) -> Seq<(AccountId, i128)>
    decreases s.len(),
{
    if s.len() == 0 {
        Seq::empty()
    } else if s.last().0 == provider {
        prices_without(s.drop_last(), provider)
    } else {
        prices_without(s.drop_last(), provider).push(s.last())
    }
}

/// `s` with `provider`'s price set to `price`: its first entry is replaced,
/// or a new entry is added.
pub open spec fn prices_set(s: Seq<(AccountId, i128)>, provider: AccountId, price: i128) -> Seq<(AccountId, i128)> {
    match first_index_of(price_keys(s), provider) {
        Some(i) => s.update(i, (provider, price)),
        None => s.push((provider, price)),
    }
}

/// `h` with `snap` added, keeping the last hundred.
pub open spec fn history_push(h: Seq<PriceSnapshot>, snap: PriceSnapshot) -> Seq<PriceSnapshot> {
    if h.len() + 1 > MAX_HISTORY {
        h.push(snap).drop_first()
    } else {
        h.push(snap)
    }
}

proof fn lemma_price_leq_total()
    ensures
        total_ordering(price_leq()),
{
}

/// `v` sorted by price.
fn sort_prices(v: &Vec<i128>) -> (r: Vec<i128>)
    ensures
        r@ == v@.sort_by(price_leq()),
{
    let mut out: Vec<i128> = Vec::new();
    let mut i: usize = 0;
    while i < v.len()
        invariant
            i <= v.len(),
            sorted_by(out@, price_leq()),
            out@.to_multiset() == v@.take(i as int).to_multiset(),
        decreases v.len() - i,
    {
        let x = v[i];
        let mut p: usize = 0;
        while p < out.len() && out[p] <= x
            invariant
                p <= out.len(),
                forall|j: int| 0 <= j < p ==> out@[j] <= x,
            decreases out.len() - p,
        {
            p = p + 1;
        }
        let ghost before = out@;
        out.insert(p, x);
        proof {
            assert(sorted_by(out@, price_leq())) by {
                assert forall|a: int, b: int| 0 <= a < b < out@.len() implies #[trigger] (price_leq())(out@[a], out@[b]) by {
                    if b < p {
                        assert(before[a] <= before[b] || (price_leq())(before[a], before[b]));
                    } else if b == p {
                        assert(out@[a] == before[a]);
                    } else if a == p {
                        assert(out@[b] == before[b - 1]);
                        if p < before.len() {
                            assert(x < before[p as int]);
                            if b - 1 > p {
                                assert((price_leq())(before[p as int], before[b - 1]));
                            }
                        }
                    } else if a < p {
                        assert(out@[a] == before[a] && out@[b] == before[b - 1]);
                        assert((price_leq())(before[a], before[b - 1]));
                    } else {
                        assert(out@[a] == before[a - 1] && out@[b] == before[b - 1]);
                        assert((price_leq())(before[a - 1], before[b - 1]));
                    }
                }
            }
            assert(v@.take(i as int + 1) =~= v@.take(i as int).push(x));
            vstd::seq_lib::to_multiset_insert(before, p as int, x);
        }
        i = i + 1;
    }
    proof {
        assert(v@.take(v.len() as int) =~= v@);
        lemma_price_leq_total();
        v@.lemma_sort_by_ensures(price_leq());
        vstd::seq_lib::lemma_sorted_unique(out@, v@.sort_by(price_leq()), price_leq());
    }
    out
}

/// The median of the prices of `prices`.
fn compute_median(prices: &Vec<(AccountId, i128)>) -> (r: Result<i128, PriceFeedError>)
    ensures
        prices@.len() == 0 ==> r == Err::<i128, PriceFeedError>(PriceFeedError::InsufficientProviders),
        prices@.len() > 0 && median_overflows(price_values(prices@)) ==> r == Err::<i128, PriceFeedError>(
            PriceFeedError::Overflow,
        ),
        prices@.len() > 0 && !median_overflows(price_values(prices@)) ==> r == Ok::<i128, PriceFeedError>(
            median_of(price_values(prices@)) as i128,
        ),
{
    if prices.len() == 0 {
        return Err(PriceFeedError::InsufficientProviders);
    }
    let mut values: Vec<i128> = Vec::new();
    let mut i: usize = 0;
    while i < prices.len()
        invariant
            i <= prices.len(),
            values@ == price_values(prices@).take(i as int),
        decreases prices.len() - i,
    {
        values.push(prices[i].1);
        i = i + 1;
        assert(values@ =~= price_values(prices@).take(i as int));
    }
    assert(price_values(prices@).take(prices.len() as int) =~= price_values(prices@));
    let sorted = sort_prices(&values);
    proof {
        lemma_price_leq_total();
        values@.lemma_sort_by_ensures(price_leq());
        assert(sorted@.len() == values@.len()) by {
            assert(sorted@.to_multiset().len() == values@.to_multiset().len());
        }
    }
    let n = sorted.len();
    if n % 2 == 1 {
        Ok(sorted[n / 2])
    } else {
        let a = sorted[n / 2 - 1];
        let b = sorted[n / 2];
        match a.checked_add(b) {
            Some(s) => Ok(s / 2),
            None => Err(PriceFeedError::Overflow),
        }
    }
}

/// The position of the feed of `pair_id`, if any.
fn find_feed(feeds: &Vec<PriceFeed>, pair_id: &String) -> (r: Option<usize>)
    ensures
        match r {
            Some(i) => first_index_of(pair_ids(feeds@), pair_id@) == Some(i as int) && i < feeds@.len()
                && feeds@[i as int].pair_id@ == pair_id@,
            None => first_index_of(pair_ids(feeds@), pair_id@) is None,
        },
{
    let mut i: usize = 0;
    while i < feeds.len()
        invariant
            i <= feeds.len(),
            forall|j: int| 0 <= j < i ==> (#[trigger] feeds@[j]).pair_id@ != pair_id@,
        decreases feeds.len() - i,
    {
        if feeds[i].pair_id == *pair_id {
            proof {
                let ks = pair_ids(feeds@);
                assert(ks[i as int] == pair_id@);
                let c = choose|c: int| 0 <= c < ks.len() && ks[c] == pair_id@ && forall|j: int| 0 <= j < c ==> ks[j] != pair_id@;
                assert(c == i as int) by {
                    if c < i {
                        assert(feeds@[c].pair_id@ != pair_id@);
                    }
                    if i < c {
                        assert(ks[i as int] != pair_id@);
                    }
                }
            }
            return Some(i);
        }
        i = i + 1;
    }
    proof {
        let ks = pair_ids(feeds@);
        if ks.contains(pair_id@) {
            let c = choose|c: int| 0 <= c < ks.len() && ks[c] == pair_id@;
            assert(feeds@[c].pair_id@ == pair_id@);
        }
    }
    None
}

/// `s` with `provider`'s price set to `price`.
fn set_price(s: &mut Vec<(AccountId, i128)>, provider: AccountId, price: i128)
    ensures
        final(s)@ == prices_set(old(s)@, provider, price),
        final(s)@.len() > 0,
{
    let mut i: usize = 0;
    while i < s.len()
        invariant
            i <= s.len(),
            s@ == old(s)@,
            forall|j: int| 0 <= j < i ==> (#[trigger] s@[j]).0 != provider,
        decreases s.len() - i,
    {
        if s[i].0 == provider {
            proof {
                let ks = price_keys(s@);
                assert(ks[i as int] == provider);
                let c = choose|c: int| 0 <= c < ks.len() && ks[c] == provider && forall|j: int| 0 <= j < c ==> ks[j] != provider;
                assert(c == i as int) by {
                    if c < i {
                        assert(s@[c].0 != provider);
                    }
                    if i < c {
                        assert(ks[i as int] != provider);
                    }
                }
            }
            s.set(i, (provider, price));
            return;
        }
        i = i + 1;
    }
    proof {
        let ks = price_keys(s@);
        if ks.contains(provider) {
            let c = choose|c: int| 0 <= c < ks.len() && ks[c] == provider;
            assert(s@[c].0 == provider);
        }
    }
    s.push((provider, price));
}

/// `s` without the entries of `provider`.
fn drop_prices(s: &Vec<(AccountId, i128)>, provider: AccountId) -> (r: Vec<(AccountId, i128)>)
    ensures
        r@ == prices_without(s@, provider),
{
    let mut r: Vec<(AccountId, i128)> = Vec::new();
    let mut i: usize = 0;
    while i < s.len()
        invariant
            i <= s.len(),
            r@ == prices_without(s@.take(i as int), provider),
        decreases s.len() - i,
    {
        assert(s@.take(i as int + 1).drop_last() =~= s@.take(i as int));
        if s[i].0 != provider {
            r.push(s[i]);
        }
        i = i + 1;
    }
    assert(s@.take(s.len() as int) =~= s@);
    r
}

impl OraclePriceFeed {
    /// The position of the feed of `pair_id`, if any.
    pub open spec fn feed_index(&self, pair_id: Seq<char>) -> Option<int> {
        first_index_of(pair_ids(self.feeds@), pair_id)
    }

    /// The feed of `pair_id` (meaningful where it exists).
    pub open spec fn feed(&self, pair_id: Seq<char>) -> PriceFeed {
        self.feeds@[self.feed_index(pair_id)->0]
    }

    /// An empty contract.
    pub fn new() -> (r: Self)
        ensures
            r.config is None,
            r.feeds@.len() == 0,
    {
        OraclePriceFeed { config: None, feeds: Vec::new() }
    }

    /// Stores the admin and the age after which a price is stale.
    pub fn initialize(&mut self, admin: AccountId, stale_threshold: u64) -> (r: Result<(), PriceFeedError>)
        ensures
            old(self).config is Some ==> r == Err::<(), PriceFeedError>(PriceFeedError::AlreadyInitialized)
                && *final(self) == *old(self),
            old(self).config is None ==> r is Ok && final(self).config == Some(Config { admin, stale_threshold })
                && final(self).feeds@ == old(self).feeds@,
    {
        if self.config.is_some() {
            return Err(PriceFeedError::AlreadyInitialized);
        }
        self.config = Some(Config { admin, stale_threshold });
        Ok(())
    }

    /// Registers a pair with no providers (the admin's call); a pair that
    /// exists already is refused with `PairNotFound`, as the contract does.
    pub fn register_pair(&mut self, pair_id: String, token_a: AccountId, token_b: AccountId) -> (r: Result<
        (),
        PriceFeedError,
    >)
        ensures
            old(self).config is None ==> r == Err::<(), PriceFeedError>(PriceFeedError::NotInitialized) && *final(self)
                == *old(self),
            old(self).config is Some && old(self).feed_index(pair_id@) is Some ==> r == Err::<(), PriceFeedError>(
                PriceFeedError::PairNotFound,
            ) && *final(self) == *old(self),
            old(self).config is Some && old(self).feed_index(pair_id@) is None ==> {
                let f = final(self).feeds@.last();
                &&& r is Ok
                &&& final(self).feeds@.drop_last() == old(self).feeds@
                &&& final(self).feeds@.len() == old(self).feeds@.len() + 1
                &&& f.pair_id@ == pair_id@ && f.token_a == token_a && f.token_b == token_b
                &&& f.providers@.len() == 0 && f.prices@.len() == 0 && f.history@.len() == 0
                &&& f.last_updated == 0 && f.median_price == 0
                &&& final(self).config == old(self).config
            },
    {
        if self.config.is_none() {
            return Err(PriceFeedError::NotInitialized);
        }
        if find_feed(&self.feeds, &pair_id).is_some() {
            return Err(PriceFeedError::PairNotFound);
        }
        let ghost old_feeds = self.feeds@;
        self.feeds.push(
            PriceFeed {
                pair_id,
                token_a,
                token_b,
                providers: Vec::new(),
                prices: Vec::new(),
                last_updated: 0,
                median_price: 0,
                history: Vec::new(),
            },
        );
        assert(self.feeds@.drop_last() =~= old_feeds);
        Ok(())
    }

    /// Adds a provider to a pair (the admin's call).
    pub fn add_provider(&mut self, pair_id: String, provider: AccountId) -> (r: Result<(), PriceFeedError>)
        ensures
            match (if old(self).config is None {
                Some(PriceFeedError::NotInitialized)
            } else if old(self).feed_index(pair_id@) is None {
                Some(PriceFeedError::PairNotFound)
            } else if old(self).feed(pair_id@).providers@.contains(provider) {
                Some(PriceFeedError::ProviderAlreadyExists)
            } else {
                None
            }) {
                Some(e) => r == Err::<(), PriceFeedError>(e) && *final(self) == *old(self),
                None => {
                    let i = old(self).feed_index(pair_id@)->0;
                    let f = old(self).feeds@[i];
                    &&& r is Ok
                    &&& final(self).feeds@ == old(self).feeds@.update(
                        i,
                        PriceFeed { providers: final(self).feeds@[i].providers, ..f },
                    )
                    &&& final(self).feeds@[i].providers@ == f.providers@.push(provider)
                    &&& final(self).config == old(self).config
                },
            },
    {
        if self.config.is_none() {
            return Err(PriceFeedError::NotInitialized);
        }
        let i = match find_feed(&self.feeds, &pair_id) {
            Some(i) => i,
            None => return Err(PriceFeedError::PairNotFound),
        };
        if contains_u64(&self.feeds[i].providers, provider) {
            return Err(PriceFeedError::ProviderAlreadyExists);
        }
        let ghost old_feeds = self.feeds@;
        let mut f = self.feeds.remove(i);
        f.providers.push(provider);
        self.feeds.insert(i, f);
        assert(self.feeds@ =~= old_feeds.update(i as int, self.feeds@[i as int]));
        Ok(())
    }

    /// Removes a provider and its price from a pair (the admin's call).
    pub fn remove_provider(&mut self, pair_id: String, provider: AccountId) -> (r: Result<(), PriceFeedError>)
        ensures
            match (if old(self).config is None {
                Some(PriceFeedError::NotInitialized)
            } else if old(self).feed_index(pair_id@) is None {
                Some(PriceFeedError::PairNotFound)
            } else if !old(self).feed(pair_id@).providers@.contains(provider) {
                Some(PriceFeedError::ProviderNotFound)
            } else {
                None
            }) {
                Some(e) => r == Err::<(), PriceFeedError>(e) && *final(self) == *old(self),
                None => {
                    let i = old(self).feed_index(pair_id@)->0;
                    let f = old(self).feeds@[i];
                    let nf = final(self).feeds@[i];
                    &&& r is Ok
                    &&& final(self).feeds@ == old(self).feeds@.update(
                        i,
                        PriceFeed { providers: nf.providers, prices: nf.prices, ..f },
                    )
                    &&& nf.providers@ == seq_without(f.providers@, provider)
                    &&& nf.prices@ == prices_without(f.prices@, provider)
                    &&& final(self).config == old(self).config
                },
            },
    {
        if self.config.is_none() {
            return Err(PriceFeedError::NotInitialized);
        }
        let i = match find_feed(&self.feeds, &pair_id) {
            Some(i) => i,
            None => return Err(PriceFeedError::PairNotFound),
        };
        if !contains_u64(&self.feeds[i].providers, provider) {
            return Err(PriceFeedError::ProviderNotFound);
        }
        let ghost old_feeds = self.feeds@;
        let mut f = self.feeds.remove(i);
        f.providers = without_u64(&f.providers, provider);
        f.prices = drop_prices(&f.prices, provider);
        self.feeds.insert(i, f);
        assert(self.feeds@ =~= old_feeds.update(i as int, self.feeds@[i as int]));
        Ok(())
    }

    /// The error of `submit_price`, checked in the order of the contract.
    pub open spec fn submit_error(&self, pair_id: Seq<char>, provider: AccountId, price: i128) -> Option<PriceFeedError> {
        if price <= 0 {
            Some(PriceFeedError::InvalidPrice)
        } else if self.feed_index(pair_id) is None {
            Some(PriceFeedError::PairNotFound)
        } else if !self.feed(pair_id).providers@.contains(provider) {
            Some(PriceFeedError::Unauthorized)
        } else if median_overflows(price_values(prices_set(self.feed(pair_id).prices@, provider, price))) {
            Some(PriceFeedError::Overflow)
        } else {
            None
        }
    }

    /// Records `provider`'s price at time `now`, sets the pair's price to the
    /// median of its providers' prices and adds it to the history.
    pub fn submit_price(&mut self, pair_id: String, provider: AccountId, price: i128, now: u64) -> (r: Result<
        (),
        PriceFeedError,
    >)
        ensures
            match old(self).submit_error(pair_id@, provider, price) {
                Some(e) => r == Err::<(), PriceFeedError>(e) && *final(self) == *old(self),
                None => {
                    let i = old(self).feed_index(pair_id@)->0;
                    let f = old(self).feeds@[i];
                    let nf = final(self).feeds@[i];
                    let prices = prices_set(f.prices@, provider, price);
                    let m = median_of(price_values(prices)) as i128;
                    &&& r is Ok
                    &&& final(self).feeds@ == old(self).feeds@.update(
                        i,
                        PriceFeed { prices: nf.prices, history: nf.history, last_updated: now, median_price: m, ..f },
                    )
                    &&& nf.prices@ == prices
                    &&& nf.history@ == history_push(f.history@, PriceSnapshot { median_price: m, timestamp: now })
                    &&& final(self).config == old(self).config
                },
            },
    {
        if price <= 0 {
            return Err(PriceFeedError::InvalidPrice);
        }
        let i = match find_feed(&self.feeds, &pair_id) {
            Some(i) => i,
            None => return Err(PriceFeedError::PairNotFound),
        };
        if !contains_u64(&self.feeds[i].providers, provider) {
            return Err(PriceFeedError::Unauthorized);
        }
        let mut prices = crate::util::copy_vec(&self.feeds[i].prices);
        set_price(&mut prices, provider, price);
        let m = match compute_median(&prices) {
            Ok(m) => m,
            Err(e) => return Err(e),
        };
        let ghost old_feeds = self.feeds@;
        let mut f = self.feeds.remove(i);
        let ghost h0 = f.history@;
        f.prices = prices;
        f.last_updated = now;
        f.median_price = m;
        f.history.push(PriceSnapshot { median_price: m, timestamp: now });
        if f.history.len() > MAX_HISTORY {
            f.history.remove(0);
        }
        assert(f.history@ =~= history_push(h0, PriceSnapshot { median_price: m, timestamp: now }));
        self.feeds.insert(i, f);
        assert(self.feeds@ =~= old_feeds.update(i as int, self.feeds@[i as int]));
        Ok(())
    }

    /// The median price of a pair and when it was set, unless it is older
    /// than the stale threshold at `now`.
    pub fn get_price(&self, pair_id: String, now: u64) -> (r: Result<(i128, u64), PriceFeedError>)
        ensures
            match (if self.feed_index(pair_id@) is None {
                Some(PriceFeedError::PairNotFound)
            } else if self.config is None {
                Some(PriceFeedError::NotInitialized)
            } else if self.feed(pair_id@).last_updated + self.config.unwrap().stale_threshold > u64::MAX {
                Some(PriceFeedError::Overflow)
            } else if now > self.feed(pair_id@).last_updated + self.config.unwrap().stale_threshold {
                Some(PriceFeedError::StalePrice)
            } else {
                None
            }) {
                Some(e) => r == Err::<(i128, u64), PriceFeedError>(e),
                None => r == Ok::<(i128, u64), PriceFeedError>(
                    (self.feed(pair_id@).median_price, self.feed(pair_id@).last_updated),
                ),
            },
    {
        let i = match find_feed(&self.feeds, &pair_id) {
            Some(i) => i,
            None => return Err(PriceFeedError::PairNotFound),
        };
        let cfg = match self.config {
            Some(c) => c,
            None => return Err(PriceFeedError::NotInitialized),
        };
        let f = &self.feeds[i];
        if f.last_updated > u64::MAX - cfg.stale_threshold {
            return Err(PriceFeedError::Overflow);
        }
        if now > f.last_updated + cfg.stale_threshold {
            return Err(PriceFeedError::StalePrice);
        }
        Ok((f.median_price, f.last_updated))
    }

    /// The last `limit` snapshots of a pair's history, oldest first.
    pub fn get_price_history(&self, pair_id: String, limit: u32) -> (r: Result<Vec<PriceSnapshot>, PriceFeedError>)
        ensures
            self.feed_index(pair_id@) is None ==> r == Err::<Vec<PriceSnapshot>, PriceFeedError>(
                PriceFeedError::PairNotFound,
            ),
            self.feed_index(pair_id@) is Some ==> {
                let h = self.feed(pair_id@).history@;
                &&& r is Ok
                &&& r.unwrap()@ == if h.len() > limit { h.skip(h.len() - limit) } else { h }
            },
    {
        let i = match find_feed(&self.feeds, &pair_id) {
            Some(i) => i,
            None => return Err(PriceFeedError::PairNotFound),
        };
        let h = &self.feeds[i].history;
        let len = h.len();
        let start = if len > limit as usize { len - limit as usize } else { 0 };
        let mut out: Vec<PriceSnapshot> = Vec::new();
        let mut k: usize = start;
        while k < len
            invariant
                start <= k <= len,
                len == h@.len(),
                out@ == h@.subrange(start as int, k as int),
            decreases len - k,
        {
            out.push(h[k]);
            k = k + 1;
            assert(out@ =~= h@.subrange(start as int, k as int));
        }
        assert(out@ =~= if h@.len() > limit { h@.skip(h@.len() - limit) } else { h@ });
        Ok(out)
    }

    /// The providers of a pair.
    pub fn get_providers(&self, pair_id: String) -> (r: Result<Vec<AccountId>, PriceFeedError>)
        ensures
            self.feed_index(pair_id@) is None ==> r == Err::<Vec<AccountId>, PriceFeedError>(
                PriceFeedError::PairNotFound,
            ),
            self.feed_index(pair_id@) is Some ==> r is Ok && r.unwrap()@ == self.feed(pair_id@).providers@,
    {
        match find_feed(&self.feeds, &pair_id) {
            Some(i) => Ok(crate::util::copy_vec(&self.feeds[i].providers)),
            None => Err(PriceFeedError::PairNotFound),
        }
    }

    /// Sets the stale threshold (the admin's call).
    pub fn set_stale_threshold(&mut self, new_threshold: u64) -> (r: Result<(), PriceFeedError>)
        ensures
            old(self).config is None ==> r == Err::<(), PriceFeedError>(PriceFeedError::NotInitialized) && *final(self)
                == *old(self),
            old(self).config is Some ==> r is Ok && final(self).config == Some(
                Config { stale_threshold: new_threshold, ..old(self).config.unwrap() },
            ) && final(self).feeds@ == old(self).feeds@,
    {
        let mut cfg = match self.config {
            Some(c) => c,
            None => return Err(PriceFeedError::NotInitialized),
        };
        cfg.stale_threshold = new_threshold;
        self.config = Some(cfg);
        Ok(())
    }
}

/// A sorted copy holds each of its elements somewhere in the original.
proof fn lemma_sorted_member(s: Seq<i128>, k: int)
    requires
        0 <= k < s.len(),
    ensures
        s.sort_by(price_leq()).len() == s.len(),
        exists|i: int| 0 <= i < s.len() && s[i] == s.sort_by(price_leq())[k],
{
    lemma_price_leq_total();
    s.lemma_sort_by_ensures(price_leq());
    let t = s.sort_by(price_leq());
    s.to_multiset_ensures();
    t.to_multiset_ensures();
    assert(t.len() == s.len());
    assert(t.contains(t[k]));
    assert(s.contains(t[k]));
}

/// The median never leaves the range of the prices it is taken from: for a
/// non-empty list it is at least the least price and at most the greatest.
pub proof fn lemma_median_within_prices(s: Seq<i128>)
    requires
        s.len() > 0,
    ensures
        exists|i: int| 0 <= i < s.len() && s[i] <= median_of(s),
        exists|j: int| 0 <= j < s.len() && median_of(s) <= s[j],
{
    lemma_price_leq_total();
    s.lemma_sort_by_ensures(price_leq());
    let t = s.sort_by(price_leq());
    let n = s.len() as int;
    lemma_sorted_member(s, n / 2);
    let j = choose|j: int| 0 <= j < s.len() && s[j] == t[n / 2];
    if n % 2 == 1 {
        assert(s[j] <= median_of(s) <= s[j]);
    } else {
        lemma_sorted_member(s, n / 2 - 1);
        let i = choose|i: int| 0 <= i < s.len() && s[i] == t[n / 2 - 1];
        assert(price_leq()(t[n / 2 - 1], t[n / 2]));
        assert(s[i] <= median_of(s) <= s[j]);
    }
}

} // verus!
