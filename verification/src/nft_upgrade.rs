//! Tiered NFT upgrades: a player pays the cost of a tier, a random roll
//! against the tier's success rate decides the outcome; a success applies
//! the tier's attribute boosts and a failure refunds half the cost.
use vstd::prelude::*;
use vstd::utf8::encode_utf8;
use std::collections::HashMap;
use crate::util::{AccountId, Transfer, vec_at};

verus! {

broadcast use vstd::std_specs::hash::group_hash_axioms;

/// The highest tier an upgrade can target.
pub const MAX_TIER: u32 = 5;

/// The denominator of success rates: 10000 basis points are certain success.
pub const BPS_DENOMINATOR: u64 = 10000;

/// Failed upgrades refund the cost divided by this.
pub const REFUND_DIVISOR: i128 = 2;

#[derive(Clone, Copy, Debug, PartialEq, Eq, Structural)]
pub struct ContractConfig {
    pub admin: AccountId,
    pub token: AccountId,
    pub nft_contract: AccountId,
}

/// The cost, success rate and attribute boosts of one tier.
pub struct UpgradeConfig {
    pub tier: u32,
    pub cost: i128,
    pub success_rate_bps: u32,
    /// Attribute name and the boost a success adds to it.
    pub attribute_boosts: Vec<(String, u32)>,
}

/// The record of one upgrade attempt.
pub struct UpgradeAttempt {
    pub nft_id: u32,
    pub player: AccountId,
    pub tokens_spent: i128,
    pub success: bool,
    /// The attributes after the attempt (unchanged on failure).
    pub new_attributes: Vec<(String, u32)>,
    pub attempted_at: u64,
}

#[derive(Clone, Copy, Debug, PartialEq, Eq, Structural)]
pub enum UpgradeError {
    AlreadyInitialized,
    NotInitialized,
    AdminOnly,
    MaxTierReached,
    TierNotFound,
    NotNftOwner,
}

/// The storage of the contract; `contract` is its own account.
pub struct NftUpgradeContract {
    pub contract: AccountId,
    pub config: Option<ContractConfig>,
    pub upgrade_configs: HashMap<u32, UpgradeConfig>,
    pub history: HashMap<u32, Vec<UpgradeAttempt>>,
    pub attributes: HashMap<u32, Vec<(String, u32)>>,
}

// ───────────── attribute maps ─────────────

/// The attribute map that a list of (name, value) entries stands for; a
/// later entry for a name replaces an earlier one.
pub open spec fn attr_map(s: Seq<(String, u32)>) -> Map<Seq<char>, u32>
    decreases s.len(),
{
    if s.len() == 0 {
        Map::empty()
    } else {
        attr_map(s.drop_last()).insert(s.last().0@, s.last().1)
    }
}

/// The value of `k` in `m`, 0 where absent.
pub open spec fn get_or_zero(m: Map<Seq<char>, u32>, k: Seq<char>) -> u32 {
    if m.contains_key(k) {
        m[k]
    } else {
        0
    }
}

/// `a + b`, saturating at `u32::MAX`.
pub open spec fn sat_add(a: u32, b: u32) -> u32 {
    if a + b > u32::MAX {
        u32::MAX
    } else {
        (a + b) as u32
    }
}

/// `m` after adding each boost of `boosts` in turn, saturating.
pub open spec fn boosted(m: Map<Seq<char>, u32>, boosts: Seq<(String, u32)>) -> Map<Seq<char>, u32>
    decreases boosts.len(),
{
    if boosts.len() == 0 {
        m
    } else {
        let prev = boosted(m, boosts.drop_last());
        let (name, boost) = boosts.last();
        prev.insert(name@, sat_add(get_or_zero(prev, name@), boost))
    }
}

// ───────────── name order ─────────────

/// Whether the bytes `a` come before the bytes `b`: at the first byte where
/// they differ, or as a proper prefix.
pub open spec fn bytes_lt(a: Seq<u8>, b: Seq<u8>) -> bool
    decreases a.len(),
{
    if a.len() == 0 {
        b.len() > 0
    } else if b.len() == 0 {
        false
    } else if a[0] != b[0] {
        a[0] < b[0]
    } else {
        bytes_lt(a.drop_first(), b.drop_first())
    }
}

/// Whether the name `a` comes before the name `b`: names are ordered by
/// their UTF-8 bytes, the order in which the host keeps string keys.
pub open spec fn name_lt(a: Seq<char>, b: Seq<char>) -> bool {
    bytes_lt(encode_utf8(a), encode_utf8(b))
}

/// Attribute entries in strictly increasing name order (so one per name).
pub open spec fn names_sorted(s: Seq<(String, u32)>) -> bool {
    forall|i: int, j: int| 0 <= i < j < s.len() ==> name_lt(#[trigger] s[i].0@, #[trigger] s[j].0@)
}

proof fn lemma_bytes_lt_irrefl(a: Seq<u8>)
    ensures
        !bytes_lt(a, a),
    decreases a.len(),
{
    if a.len() > 0 {
        lemma_bytes_lt_irrefl(a.drop_first());
    }
}

proof fn lemma_bytes_lt_trans(a: Seq<u8>, b: Seq<u8>, c: Seq<u8>)
    requires
        bytes_lt(a, b),
        bytes_lt(b, c),
    ensures
        bytes_lt(a, c),
    decreases a.len(),
{
    if a.len() > 0 && b.len() > 0 && c.len() > 0 && a[0] == b[0] && b[0] == c[0] {
        lemma_bytes_lt_trans(a.drop_first(), b.drop_first(), c.drop_first());
    }
}

proof fn lemma_bytes_lt_total(a: Seq<u8>, b: Seq<u8>)
    requires
        a != b,
    ensures
        bytes_lt(a, b) || bytes_lt(b, a),
    decreases a.len(),
{
    if a.len() > 0 && b.len() > 0 && a[0] == b[0] {
        if a.drop_first() == b.drop_first() {
            assert(a =~= seq![a[0]] + a.drop_first());
            assert(b =~= seq![b[0]] + b.drop_first());
        }
        lemma_bytes_lt_total(a.drop_first(), b.drop_first());
    } else if a.len() == 0 && b.len() == 0 {
        assert(a =~= b);
    }
}

/// Different names have different bytes, so one comes before the other.
proof fn lemma_name_lt_total(a: Seq<char>, b: Seq<char>)
    requires
        a != b,
    ensures
        name_lt(a, b) || name_lt(b, a),
        !(name_lt(a, b) && name_lt(b, a)),
{
    vstd::utf8::encode_utf8_decode_utf8(a);
    vstd::utf8::encode_utf8_decode_utf8(b);
    lemma_bytes_lt_total(encode_utf8(a), encode_utf8(b));
    if name_lt(a, b) && name_lt(b, a) {
        lemma_bytes_lt_trans(encode_utf8(a), encode_utf8(b), encode_utf8(a));
        lemma_bytes_lt_irrefl(encode_utf8(a));
    }
}

proof fn lemma_name_lt_irrefl(a: Seq<char>)
    ensures
        !name_lt(a, a),
{
    lemma_bytes_lt_irrefl(encode_utf8(a));
}

proof fn lemma_name_lt_trans(a: Seq<char>, b: Seq<char>, c: Seq<char>)
    requires
        name_lt(a, b),
        name_lt(b, c),
    ensures
        name_lt(a, c),
{
    lemma_bytes_lt_trans(encode_utf8(a), encode_utf8(b), encode_utf8(c));
}

/// Equal leading bytes can be skipped.
proof fn lemma_bytes_lt_skip(a: Seq<u8>, b: Seq<u8>, i: int)
    requires
        0 <= i <= a.len(),
        i <= b.len(),
        forall|j: int| 0 <= j < i ==> a[j] == b[j],
    ensures
        bytes_lt(a, b) == bytes_lt(a.skip(i), b.skip(i)),
    decreases i,
{
    if i > 0 {
        assert forall|j: int| 0 <= j < i - 1 implies a.drop_first()[j] == b.drop_first()[j] by {
            assert(a[j + 1] == b[j + 1]);
        }
        lemma_bytes_lt_skip(a.drop_first(), b.drop_first(), i - 1);
        assert(a.drop_first().skip(i - 1) =~= a.skip(i));
        assert(b.drop_first().skip(i - 1) =~= b.skip(i));
    } else {
        assert(a.skip(0) =~= a);
        assert(b.skip(0) =~= b);
    }
}

/// Whether the name `a` comes before the name `b`.
fn name_lt_exec(a: &String, b: &String) -> (r: bool)
    ensures
        r == name_lt(a@, b@),
{
    let x = a.as_str().as_bytes();
    let y = b.as_str().as_bytes();
    let ghost ea = encode_utf8(a@);
    let ghost eb = encode_utf8(b@);
    assert(x@ == ea && y@ == eb);
    let mut i: usize = 0;
    while i < x.len() && i < y.len() && x[i] == y[i]
        invariant
            i <= x@.len(),
            i <= y@.len(),
            x@ == ea,
            y@ == eb,
            forall|j: int| 0 <= j < i ==> x@[j] == y@[j],
        decreases x@.len() - i,
    {
        i = i + 1;
    }
    proof {
        lemma_bytes_lt_skip(x@, y@, i as int);
    }
    if i == x.len() {
        i < y.len()
    } else if i == y.len() {
        false
    } else {
        assert(x@.skip(i as int)[0] == x@[i as int] && y@.skip(i as int)[0] == y@[i as int]);
        x[i] < y[i]
    }
}

/// In sorted entries each name has one entry, which the map holds.
proof fn lemma_sorted_map(s: Seq<(String, u32)>)
    requires
        names_sorted(s),
    ensures
        forall|n: Seq<char>| #[trigger] attr_map(s).contains_key(n) <==> exists|i: int| 0 <= i < s.len() && s[i].0@ == n,
        forall|i: int| 0 <= i < s.len() ==> #[trigger] attr_map(s)[s[i].0@] == s[i].1,
    decreases s.len(),
{
    if s.len() > 0 {
        let t = s.drop_last();
        assert(names_sorted(t)) by {
            assert forall|i: int, j: int| 0 <= i < j < t.len() implies name_lt(#[trigger] t[i].0@, #[trigger] t[j].0@) by {
                assert(t[i] == s[i] && t[j] == s[j]);
            }
        }
        lemma_sorted_map(t);
        assert forall|n: Seq<char>| #[trigger] attr_map(s).contains_key(n) <==> exists|i: int|
            0 <= i < s.len() && s[i].0@ == n by {
            if attr_map(t).contains_key(n) {
                let i = choose|i: int| 0 <= i < t.len() && t[i].0@ == n;
                assert(s[i] == t[i]);
            }
            if exists|i: int| 0 <= i < s.len() && s[i].0@ == n {
                let i = choose|i: int| 0 <= i < s.len() && s[i].0@ == n;
                if i < t.len() {
                    assert(t[i] == s[i]);
                }
            }
        }
        assert forall|i: int| 0 <= i < s.len() implies #[trigger] attr_map(s)[s[i].0@] == s[i].1 by {
            if i < t.len() {
                assert(t[i] == s[i]);
                assert(name_lt(s[i].0@, s[s.len() - 1].0@));
                if s[i].0@ == s[s.len() - 1].0@ {
                    lemma_name_lt_irrefl(s[i].0@);
                }
                assert(attr_map(t)[t[i].0@] == t[i].1);
            }
        }
    }
}

/// A copy of a list of attribute entries.
fn copy_attrs(s: &Vec<(String, u32)>) -> (r: Vec<(String, u32)>)
    ensures
        r@ == s@,
{
    let mut r: Vec<(String, u32)> = Vec::new();
    let mut i: usize = 0;
    while i < s.len()
        invariant
            i <= s.len(),
            r@ == s@.take(i as int),
        decreases s.len() - i,
    {
        let e = (s[i].0.clone(), s[i].1);
        r.push(e);
        i = i + 1;
        assert(r@ =~= s@.take(i as int));
    }
    assert(s@.take(s.len() as int) =~= s@);
    r
}

/// The value of `k` in the entries `s`, 0 where absent.
fn attr_value(s: &Vec<(String, u32)>, k: &String) -> (r: u32)
    ensures
        r == get_or_zero(attr_map(s@), k@),
{
    let mut i: usize = s.len();
    assert(s@.take(s.len() as int) =~= s@);
    while i > 0
        invariant
            i <= s.len(),
            get_or_zero(attr_map(s@), k@) == get_or_zero(attr_map(s@.take(i as int)), k@),
        decreases i,
    {
        assert(s@.take(i as int).drop_last() =~= s@.take(i as int - 1));
        assert(s@.take(i as int).last() == s@[i as int - 1]);
        if s[i - 1].0 == *k {
            return s[i - 1].1;
        }
        i = i - 1;
    }
    0
}

/// Removing the entry of `k` from sorted entries keeps them sorted and
/// removes `k` from the map.
proof fn lemma_remove_sorted(s0: Seq<(String, u32)>, j: int, k: Seq<char>)
    requires
        names_sorted(s0),
        0 <= j < s0.len(),
        s0[j].0@ == k,
    ensures
        names_sorted(s0.remove(j)),
        forall|x: int| 0 <= x < s0.remove(j).len() ==> (#[trigger] s0.remove(j)[x]).0@ != k,
        attr_map(s0.remove(j)) == attr_map(s0).remove(k),
{
    let m = s0.remove(j);
    assert forall|a: int, c: int| 0 <= a < c < m.len() implies name_lt(#[trigger] m[a].0@, #[trigger] m[c].0@) by {
        let a0 = if a < j { a } else { a + 1 };
        let c0 = if c < j { c } else { c + 1 };
        assert(m[a] == s0[a0] && m[c] == s0[c0]);
    }
    assert forall|x: int| 0 <= x < m.len() implies (#[trigger] m[x]).0@ != k by {
        let x0 = if x < j { x } else { x + 1 };
        assert(m[x] == s0[x0]);
        if m[x].0@ == k {
            if x0 < j {
                assert(name_lt(s0[x0].0@, s0[j].0@));
            } else {
                assert(name_lt(s0[j].0@, s0[x0].0@));
            }
            lemma_name_lt_irrefl(k);
        }
    }
    lemma_sorted_map(s0);
    lemma_sorted_map(m);
    assert forall|n: Seq<char>| #[trigger] attr_map(m).contains_key(n) == attr_map(s0).remove(k).contains_key(n) by {
        if attr_map(m).contains_key(n) {
            let x = choose|x: int| 0 <= x < m.len() && m[x].0@ == n;
            let x0 = if x < j { x } else { x + 1 };
            assert(m[x] == s0[x0]);
        }
        if attr_map(s0).remove(k).contains_key(n) {
            let x0 = choose|x: int| 0 <= x < s0.len() && s0[x].0@ == n;
            let x = if x0 > j { x0 - 1 } else { x0 };
            assert(m[x] == s0[x0]);
        }
    }
    assert forall|n: Seq<char>| #[trigger] attr_map(m).contains_key(n) implies attr_map(m)[n] == attr_map(s0)[n] by {
        let x = choose|x: int| 0 <= x < m.len() && m[x].0@ == n;
        let x0 = if x < j { x } else { x + 1 };
        assert(m[x] == s0[x0]);
    }
    assert(attr_map(m) =~= attr_map(s0).remove(k));
}

/// Inserting an entry for a new name where the name belongs keeps sorted
/// entries sorted and adds the entry to the map.
proof fn lemma_insert_sorted(mid: Seq<(String, u32)>, p: int, e: (String, u32))
    requires
        names_sorted(mid),
        forall|x: int| 0 <= x < mid.len() ==> (#[trigger] mid[x]).0@ != e.0@,
        0 <= p <= mid.len(),
        forall|j: int| 0 <= j < p ==> !name_lt(e.0@, #[trigger] mid[j].0@),
        p < mid.len() ==> name_lt(e.0@, mid[p].0@),
    ensures
        names_sorted(mid.insert(p, e)),
        attr_map(mid.insert(p, e)) == attr_map(mid).insert(e.0@, e.1),
{
    let kk = e.0@;
    let f = mid.insert(p, e);
    assert forall|j: int| 0 <= j < p implies name_lt(#[trigger] mid[j].0@, kk) by {
        lemma_name_lt_total(mid[j].0@, kk);
    }
    assert forall|a: int, c: int| 0 <= a < c < f.len() implies name_lt(#[trigger] f[a].0@, #[trigger] f[c].0@) by {
        if c < p {
            assert(f[a] == mid[a] && f[c] == mid[c]);
        } else if c == p {
            assert(f[a] == mid[a]);
        } else if a == p {
            assert(f[c] == mid[c - 1]);
            if c - 1 > p {
                lemma_name_lt_trans(kk, mid[p].0@, mid[c - 1].0@);
            }
        } else if a < p {
            assert(f[a] == mid[a] && f[c] == mid[c - 1]);
        } else {
            assert(f[a] == mid[a - 1] && f[c] == mid[c - 1]);
        }
    }
    lemma_sorted_map(mid);
    lemma_sorted_map(f);
    assert forall|n: Seq<char>| #[trigger] attr_map(f).contains_key(n) == attr_map(mid).insert(kk, e.1).contains_key(n) by {
        if attr_map(f).contains_key(n) {
            let x = choose|x: int| 0 <= x < f.len() && f[x].0@ == n;
            if x < p {
                assert(f[x] == mid[x]);
            } else if x > p {
                assert(f[x] == mid[x - 1]);
            }
        }
        if n == kk {
            assert(f[p].0@ == kk);
        } else if attr_map(mid).contains_key(n) {
            let x = choose|x: int| 0 <= x < mid.len() && mid[x].0@ == n;
            if x < p {
                assert(f[x] == mid[x]);
            } else {
                assert(f[x + 1] == mid[x]);
            }
        }
    }
    assert forall|n: Seq<char>| #[trigger] attr_map(f).contains_key(n) implies attr_map(f)[n] == attr_map(mid).insert(
        kk,
        e.1,
    )[n] by {
        let x = choose|x: int| 0 <= x < f.len() && f[x].0@ == n;
        if x < p {
            assert(f[x] == mid[x]);
        } else if x > p {
            assert(f[x] == mid[x - 1]);
        }
    }
    assert(attr_map(f) =~= attr_map(mid).insert(kk, e.1));
}

/// Sets the value of `k` in the sorted entries `s` to `v`: an entry for
/// `k` is replaced, or a new one goes where its name belongs.
fn set_attr(s: &mut Vec<(String, u32)>, k: String, v: u32)
    requires
        names_sorted(old(s)@),
    ensures
        names_sorted(final(s)@),
        attr_map(final(s)@) == attr_map(old(s)@).insert(k@, v),
{
    let ghost s0 = s@;
    let mut i: usize = 0;
    let mut found: Option<usize> = None;
    while i < s.len() && found.is_none()
        invariant
            i <= s@.len(),
            s@ == s0,
            found is None ==> forall|j: int| 0 <= j < i ==> (#[trigger] s@[j]).0@ != k@,
            found matches Some(j) ==> j < s0.len() && s0[j as int].0@ == k@,
        decreases s@.len() - i + if found is None { 1int } else { 0int },
    {
        if s[i].0 == k {
            found = Some(i);
        } else {
            i = i + 1;
        }
    }
    match found {
        Some(j) => {
            proof {
                lemma_remove_sorted(s0, j as int, k@);
            }
            s.remove(j);
        },
        None => {
            proof {
                lemma_sorted_map(s0);
                assert(!attr_map(s0).contains_key(k@));
                assert(attr_map(s0) =~= attr_map(s0).remove(k@));
            }
        },
    }
    let ghost mid = s@;
    let mut p: usize = 0;
    while p < s.len() && !name_lt_exec(&k, &s[p].0)
        invariant
            p <= s@.len(),
            s@ == mid,
            forall|j: int| 0 <= j < p ==> !name_lt(k@, #[trigger] mid[j].0@),
        decreases s@.len() - p,
    {
        p = p + 1;
    }
    let ghost e = (k, v);
    proof {
        lemma_insert_sorted(mid, p as int, e);
        assert(attr_map(s0).remove(k@).insert(k@, v) =~= attr_map(s0).insert(k@, v));
    }
    s.insert(p, (k, v));
    assert(s@ == mid.insert(p as int, e));
}

/// Applies `boosts` in turn to the entries `s`.
fn apply_boosts(s: &mut Vec<(String, u32)>, boosts: &Vec<(String, u32)>)
    requires
        names_sorted(old(s)@),
    ensures
        names_sorted(final(s)@),
        attr_map(final(s)@) == boosted(attr_map(old(s)@), boosts@),
{
    let ghost start = attr_map(s@);
    let mut i: usize = 0;
    while i < boosts.len()
        invariant
            i <= boosts.len(),
            start == attr_map(old(s)@),
            names_sorted(s@),
            attr_map(s@) == boosted(start, boosts@.take(i as int)),
        decreases boosts.len() - i,
    {
        assert(boosts@.take(i as int + 1).drop_last() =~= boosts@.take(i as int));
        assert(boosts@.take(i as int + 1).last() == boosts@[i as int]);
        let current = attr_value(s, &boosts[i].0);
        let b = boosts[i].1;
        let next = current.saturating_add(b);
        set_attr(s, boosts[i].0.clone(), next);
        i = i + 1;
    }
    assert(boosts@.take(boosts.len() as int) =~= boosts@);
}

impl UpgradeConfig {
    pub open spec fn same(&self, other: &UpgradeConfig) -> bool {
        &&& self.tier == other.tier
        &&& self.cost == other.cost
        &&& self.success_rate_bps == other.success_rate_bps
        &&& self.attribute_boosts@ == other.attribute_boosts@
    }

    pub fn copy(&self) -> (r: UpgradeConfig)
        ensures
            r.same(self),
    {
        UpgradeConfig {
            tier: self.tier,
            cost: self.cost,
            success_rate_bps: self.success_rate_bps,
            attribute_boosts: copy_attrs(&self.attribute_boosts),
        }
    }
}

impl UpgradeAttempt {
    pub open spec fn same(&self, other: &UpgradeAttempt) -> bool {
        &&& self.nft_id == other.nft_id
        &&& self.player == other.player
        &&& self.tokens_spent == other.tokens_spent
        &&& self.success == other.success
        &&& self.new_attributes@ == other.new_attributes@
        &&& self.attempted_at == other.attempted_at
    }

    pub fn copy(&self) -> (r: UpgradeAttempt)
        ensures
            r.same(self),
    {
        UpgradeAttempt {
            nft_id: self.nft_id,
            player: self.player,
            tokens_spent: self.tokens_spent,
            success: self.success,
            new_attributes: copy_attrs(&self.new_attributes),
            attempted_at: self.attempted_at,
        }
    }
}

/// Rust's `/` on integers: rounds toward zero.
pub open spec fn div_toward_zero(a: int, b: int) -> int {
    if a >= 0 {
        a / b
    } else {
        -((-a) / b)
    }
}

impl NftUpgradeContract {
    /// Every stored attribute list, and every one recorded in the history,
    /// is in name order.
    pub open spec fn wf(&self) -> bool {
        &&& forall|n: u32| #[trigger] self.attributes@.contains_key(n) ==> names_sorted(self.attributes@[n]@)
        &&& forall|n: u32, i: int| #[trigger] self.history@.contains_key(n) && 0 <= i < self.history@[n]@.len()
            ==> names_sorted(#[trigger] self.history@[n]@[i].new_attributes@)
    }

    /// The attribute map of `nft_id` (empty where none was stored).
    pub open spec fn attrs_of(&self, nft_id: u32) -> Map<Seq<char>, u32> {
        if self.attributes@.contains_key(nft_id) {
            attr_map(self.attributes@[nft_id]@)
        } else {
            Map::empty()
        }
    }

    /// The attempts recorded for `nft_id`, in order.
    pub open spec fn history_of(&self, nft_id: u32) -> Seq<UpgradeAttempt> {
        vec_at(self.history@, nft_id)
    }

    /// A contract with empty storage, deployed at `contract`.
    pub fn new(contract: AccountId) -> (r: Self)
        ensures
            r.contract == contract,
            r.config is None,
            r.upgrade_configs@ == Map::<u32, UpgradeConfig>::empty(),
            r.history@ == Map::<u32, Vec<UpgradeAttempt>>::empty(),
            r.attributes@ == Map::<u32, Vec<(String, u32)>>::empty(),
            r.wf(),
    {
        NftUpgradeContract {
            contract,
            config: None,
            upgrade_configs: HashMap::new(),
            history: HashMap::new(),
            attributes: HashMap::new(),
        }
    }

    /// Stores the admin, the payment token and the NFT contract.
    pub fn initialize(&mut self, admin: AccountId, token: AccountId, nft_contract: AccountId) -> (r: Result<
        (),
        UpgradeError,
    >)
        requires
            old(self).wf(),
        ensures
            final(self).wf(),
            old(self).config is Some ==> r == Err::<(), UpgradeError>(UpgradeError::AlreadyInitialized)
                && *final(self) == *old(self),
            old(self).config is None ==> r is Ok && *final(self) == (NftUpgradeContract {
                config: Some(ContractConfig { admin, token, nft_contract }),
                ..*old(self)
            }),
    {
        if self.config.is_some() {
            return Err(UpgradeError::AlreadyInitialized);
        }
        self.config = Some(ContractConfig { admin, token, nft_contract });
        Ok(())
    }

    /// The error of `register_upgrade_config`, checked in the order of the contract.
    pub open spec fn register_error(&self, admin: AccountId, tier: u32) -> Option<UpgradeError> {
        if self.config is None {
            Some(UpgradeError::NotInitialized)
        } else if self.config.unwrap().admin != admin {
            Some(UpgradeError::AdminOnly)
        } else if tier == 0 || tier > MAX_TIER {
            Some(UpgradeError::MaxTierReached)
        } else {
            None
        }
    }

    /// Registers (or replaces) the configuration of `tier`; a success rate
    /// above 10000 basis points is stored as 10000.
    pub fn register_upgrade_config(
        &mut self,
        admin: AccountId,
        tier: u32,
        cost: i128,
        success_rate_bps: u32,
        attribute_boosts: Vec<(String, u32)>,
    ) -> (r: Result<(), UpgradeError>)
        requires
            old(self).wf(),
        ensures
            final(self).wf(),
            match old(self).register_error(admin, tier) {
                Some(e) => r == Err::<(), UpgradeError>(e) && *final(self) == *old(self),
                None => {
                    &&& r is Ok
                    &&& final(self).upgrade_configs@ == old(self).upgrade_configs@.insert(
                        tier,
                        UpgradeConfig {
                            tier,
                            cost,
                            success_rate_bps: if success_rate_bps > 10000 {
                                10000u32
                            } else {
                                success_rate_bps
                            },
                            attribute_boosts,
                        },
                    )
                    &&& final(self).contract == old(self).contract
                    &&& final(self).config == old(self).config
                    &&& final(self).history@ == old(self).history@
                    &&& final(self).attributes@ == old(self).attributes@
                },
            },
    {
        let cfg = match self.config {
            Some(c) => c,
            None => return Err(UpgradeError::NotInitialized),
        };
        if cfg.admin != admin {
            return Err(UpgradeError::AdminOnly);
        }
        if tier == 0 || tier > MAX_TIER {
            return Err(UpgradeError::MaxTierReached);
        }
        let clamped = if success_rate_bps > 10000 {
            10000u32
        } else {
            success_rate_bps
        };
        self.upgrade_configs.insert(
            tier,
            UpgradeConfig { tier, cost, success_rate_bps: clamped, attribute_boosts },
        );
        Ok(())
    }

    /// The error of an upgrade attempt, checked in the order of the contract;
    /// `owner` is what the NFT contract answered for the owner of `nft_id`
    /// (`None` where the query failed).
    pub open spec fn upgrade_error(&self, player: AccountId, target_tier: u32, owner: Option<AccountId>) -> Option<
        UpgradeError,
    > {
        if self.config is None {
            Some(UpgradeError::NotInitialized)
        } else if target_tier == 0 || target_tier > MAX_TIER {
            Some(UpgradeError::MaxTierReached)
        } else if !self.upgrade_configs@.contains_key(target_tier) {
            Some(UpgradeError::TierNotFound)
        } else if owner is Some && owner.unwrap() != player {
            Some(UpgradeError::NotNftOwner)
        } else {
            None
        }
    }

    /// What an upgrade attempt with the random draw `roll` does: `pre` is
    /// the storage before the call, `post` after, `r` the result.
    pub open spec fn upgrade_done(
        pre: &Self,
        post: &Self,
        player: AccountId,
        nft_id: u32,
        target_tier: u32,
        owner: Option<AccountId>,
        roll: u64,
        now: u64,
        r: Result<(bool, Vec<Transfer>), UpgradeError>,
    ) -> bool {
        match pre.upgrade_error(player, target_tier, owner) {
            Some(e) => r == Err::<(bool, Vec<Transfer>), UpgradeError>(e) && *post == *pre,
            None => {
                let uc = pre.upgrade_configs@[target_tier];
                let cfg = pre.config.unwrap();
                let success = roll < uc.success_rate_bps;
                let pay = Transfer { token: cfg.token, from: player, to: pre.contract, amount: uc.cost };
                let refund = Transfer {
                    token: cfg.token,
                    from: pre.contract,
                    to: player,
                    amount: div_toward_zero(uc.cost as int, REFUND_DIVISOR as int) as i128,
                };
                let after = if success {
                    boosted(pre.attrs_of(nft_id), uc.attribute_boosts@)
                } else {
                    pre.attrs_of(nft_id)
                };
                let h = post.history_of(nft_id);
                &&& r is Ok
                &&& r.unwrap().0 == success
                &&& r.unwrap().1@ == if success { seq![pay] } else { seq![pay, refund] }
                &&& post.attrs_of(nft_id) == after
                &&& forall|n: u32| n != nft_id ==> #[trigger] post.attrs_of(n) == pre.attrs_of(n)
                &&& success ==> post.attributes@.contains_key(nft_id)
                &&& forall|n: u32| n != nft_id ==> #[trigger] post.attributes@.contains_key(n)
                    == pre.attributes@.contains_key(n)
                &&& h.len() == pre.history_of(nft_id).len() + 1
                &&& h.take(h.len() - 1) == pre.history_of(nft_id)
                &&& h.last().nft_id == nft_id
                &&& h.last().player == player
                &&& h.last().tokens_spent == uc.cost
                &&& h.last().success == success
                &&& attr_map(h.last().new_attributes@) == after
                &&& h.last().attempted_at == now
                &&& forall|n: u32| n != nft_id ==> #[trigger] post.history_of(n) == pre.history_of(n)
                &&& post.contract == pre.contract
                &&& post.config == pre.config
                &&& post.upgrade_configs@ == pre.upgrade_configs@
            },
        }
    }

    /// An upgrade attempt of `nft_id` to `target_tier` decided by the draw
    /// `roll` (below 10000), which the caller takes from the host's
    /// generator as a number in `0..10000`: the player pays the tier's cost; the attempt
    /// succeeds when `roll` is below the tier's success rate and then adds
    /// the tier's boosts to the NFT's attributes, and otherwise refunds half
    /// the cost; either way the attempt is recorded. Returns whether it
    /// succeeded and the token movements.
    pub fn attempt_upgrade(
        &mut self,
        player: AccountId,
        nft_id: u32,
        target_tier: u32,
        owner: Option<AccountId>,
        roll: u64,
        now: u64,
    ) -> (r: Result<(bool, Vec<Transfer>), UpgradeError>)
        requires
            roll < BPS_DENOMINATOR,
            old(self).wf(),
        ensures
            final(self).wf(),
            Self::upgrade_done(old(self), final(self), player, nft_id, target_tier, owner, roll, now, r),
    {
        let cfg = match self.config {
            Some(c) => c,
            None => return Err(UpgradeError::NotInitialized),
        };
        if target_tier == 0 || target_tier > MAX_TIER {
            return Err(UpgradeError::MaxTierReached);
        }
        let (cost, rate) = match self.upgrade_configs.get(&target_tier) {
            Some(uc) => (uc.cost, uc.success_rate_bps),
            None => return Err(UpgradeError::TierNotFound),
        };
        match owner {
            Some(o) => {
                if o != player {
                    return Err(UpgradeError::NotNftOwner);
                }
            },
            None => {},
        }
        let me = self.contract;
        let mut transfers: Vec<Transfer> = Vec::new();
        transfers.push(Transfer { token: cfg.token, from: player, to: me, amount: cost });
        let success = roll < rate as u64;
        let ghost old_self = *self;
        let mut attrs: Vec<(String, u32)> = match self.attributes.get(&nft_id) {
            Some(a) => copy_attrs(a),
            None => Vec::new(),
        };
        assert(attr_map(attrs@) == old_self.attrs_of(nft_id)) by {
            if !old_self.attributes@.contains_key(nft_id) {
                assert(attr_map(Seq::<(String, u32)>::empty()) =~= Map::<Seq<char>, u32>::empty());
            }
        }
        if success {
            apply_boosts(&mut attrs, &self.upgrade_configs.get(&target_tier).unwrap().attribute_boosts);
            let stored = copy_attrs(&attrs);
            self.attributes.insert(nft_id, stored);
        } else {
            let refund = cost / REFUND_DIVISOR;
            transfers.push(Transfer { token: cfg.token, from: me, to: player, amount: refund });
        }
        let attempt = UpgradeAttempt {
            nft_id,
            player,
            tokens_spent: cost,
            success,
            new_attributes: attrs,
            attempted_at: now,
        };
        let ghost mid = *self;
        let mut list: Vec<UpgradeAttempt> = match self.history.remove(&nft_id) {
            Some(l) => l,
            None => Vec::new(),
        };
        let ghost before = list@;
        assert(before == mid.history_of(nft_id));
        list.push(attempt);
        self.history.insert(nft_id, list);
        assert(self.history_of(nft_id).take(self.history_of(nft_id).len() - 1) =~= before);
        assert forall|n: u32| n != nft_id implies #[trigger] self.history_of(n) == old_self.history_of(n) by {
            assert(mid.history_of(n) == old_self.history_of(n));
        }
        assert forall|n: u32| n != nft_id implies #[trigger] self.attrs_of(n) == old_self.attrs_of(n) by {
            assert(mid.attrs_of(n) == old_self.attrs_of(n));
        }
        proof {
            let uc = old_self.upgrade_configs@[target_tier];
            let cfg0 = old_self.config.unwrap();
            let pay = Transfer { token: cfg0.token, from: player, to: old_self.contract, amount: uc.cost };
            if success {
                assert(transfers@ =~= seq![pay]);
            } else {
                let refund = Transfer {
                    token: cfg0.token,
                    from: old_self.contract,
                    to: player,
                    amount: div_toward_zero(uc.cost as int, REFUND_DIVISOR as int) as i128,
                };
                assert(transfers@ =~= seq![pay, refund]);
            }
        }
        Ok((success, transfers))
    }

    /// Copies of the attempts recorded for `nft_id`, in order.
    pub fn get_upgrade_history(&self, nft_id: u32) -> (r: Vec<UpgradeAttempt>)
        ensures
            r@.len() == self.history_of(nft_id).len(),
            forall|i: int| 0 <= i < r@.len() ==> #[trigger] r@[i].same(&self.history_of(nft_id)[i]),
    {
        match self.history.get(&nft_id) {
            Some(list) => {
                let mut r: Vec<UpgradeAttempt> = Vec::new();
                let mut i: usize = 0;
                while i < list.len()
                    invariant
                        i <= list.len(),
                        list@ == self.history_of(nft_id),
                        r@.len() == i,
                        forall|j: int| 0 <= j < i ==> #[trigger] r@[j].same(&list@[j]),
                    decreases list.len() - i,
                {
                    r.push(list[i].copy());
                    i = i + 1;
                }
                r
            },
            None => Vec::new(),
        }
    }

    /// A copy of the configuration of `tier`.
    pub fn get_config(&self, tier: u32) -> (r: Result<UpgradeConfig, UpgradeError>)
        ensures
            self.upgrade_configs@.contains_key(tier) ==> r is Ok && r.unwrap().same(&self.upgrade_configs@[tier]),
            !self.upgrade_configs@.contains_key(tier) ==> r matches Err(UpgradeError::TierNotFound),
    {
        match self.upgrade_configs.get(&tier) {
            Some(c) => Ok(c.copy()),
            None => Err(UpgradeError::TierNotFound),
        }
    }

    /// The attribute entries of `nft_id` in name order (none where none were
    /// stored).
    pub fn get_nft_attributes(&self, nft_id: u32) -> (r: Vec<(String, u32)>)
        requires
            self.wf(),
        ensures
            names_sorted(r@),
            attr_map(r@) == self.attrs_of(nft_id),
            self.attributes@.contains_key(nft_id) ==> r@ == self.attributes@[nft_id]@,
            !self.attributes@.contains_key(nft_id) ==> r@.len() == 0,
    {
        match self.attributes.get(&nft_id) {
            Some(a) => copy_attrs(a),
            None => {
                let r: Vec<(String, u32)> = Vec::new();
                assert(attr_map(r@) =~= Map::<Seq<char>, u32>::empty());
                r
            },
        }
    }

    /// The stored contract configuration.
    pub fn get_contract_config_pub(&self) -> (r: Result<ContractConfig, UpgradeError>)
        ensures
            match self.config {
                Some(c) => r == Ok::<ContractConfig, UpgradeError>(c),
                None => r == Err::<ContractConfig, UpgradeError>(UpgradeError::NotInitialized),
            },
    {
        match self.config {
            Some(c) => Ok(c),
            None => Err(UpgradeError::NotInitialized),
        }
    }
}

} // verus!
