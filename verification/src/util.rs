//! Shared types and verified helpers on vectors of ids.
use vstd::prelude::*;
use std::collections::HashMap;
use std::hash::Hash;

verus! {

broadcast use vstd::std_specs::hash::group_hash_axioms;

/// A numeric id that stands for an on-chain account or contract address.
pub type AccountId = u64;

/// A token movement that an entry point orders: `amount` units of `token`
/// from `from` to `to`.
#[derive(Clone, Copy, Debug, PartialEq, Eq, Structural)]
pub struct Transfer {
    pub token: AccountId,
    pub from: AccountId,
    pub to: AccountId,
    pub amount: i128,
}

/// A move of the NFT `nft_id` of the contract `nft_contract` that an entry
/// point orders.
#[derive(Clone, Copy, Debug, PartialEq, Eq, Structural)]
pub struct NftTransfer {
    pub nft_contract: AccountId,
    pub from: AccountId,
    pub to: AccountId,
    pub nft_id: u32,
}

/// The `n` low bytes of `x`, most significant first.
pub open spec fn be_bytes(x: nat, n: nat) -> Seq<u8>
    decreases n,
{
    if n == 0 {
        Seq::empty()
    } else {
        be_bytes(x / 256, (n - 1) as nat).push((x % 256) as u8)
    }
}

/// Integer division as Rust computes it: the quotient rounded toward zero.
pub open spec fn trunc_div(a: int, b: int) -> int {
    if a >= 0 {
        a / b
    } else {
        -((-a) / b)
    }
}

/// Whether `x` occurs in `v`.
pub fn contains_u64(v: &Vec<u64>, x: u64) -> (r: bool)
    ensures
        r == v@.contains(x),
{
    let mut i: usize = 0;
    while i < v.len()
        invariant
            i <= v.len(),
            forall|j: int| 0 <= j < i ==> v@[j] != x,
        decreases v.len() - i,
    {
        if v[i] == x {
            assert(v@[i as int] == x);
            return true;
        }
        i = i + 1;
    }
    false
}

/// Whether `x` occurs in `v`.
pub fn contains_u32(v: &Vec<u32>, x: u32) -> (r: bool)
    ensures
        r == v@.contains(x),
{
    let mut i: usize = 0;
    while i < v.len()
        invariant
            i <= v.len(),
            forall|j: int| 0 <= j < i ==> v@[j] != x,
        decreases v.len() - i,
    {
        if v[i] == x {
            assert(v@[i as int] == x);
            return true;
        }
        i = i + 1;
    }
    false
}

} // verus!

verus! {

/// A copy of `v`, element by element.
pub fn copy_vec<T: Copy>(v: &Vec<T>) -> (r: Vec<T>)
    ensures
        r@ == v@,
{
    let mut r: Vec<T> = Vec::new();
    let mut i: usize = 0;
    while i < v.len()
        invariant
            i <= v.len(),
            r@ == v@.take(i as int),
        decreases v.len() - i,
    {
        r.push(v[i]);
        i = i + 1;
        assert(r@ =~= v@.take(i as int));
    }
    assert(v@.take(v.len() as int) =~= v@);
    r
}

/// The key under which a pair of ids is stored: `a` in the high 64 bits and
/// `b` in the low 64 bits.
pub open spec fn pair_key_spec(a: u64, b: u64) -> u128 {
    (a * 18446744073709551616int + b) as u128
}

/// The storage key of the pair `(a, b)`.
pub fn pair_key(a: u64, b: u64) -> (r: u128)
    ensures
        r == pair_key_spec(a, b),
{
    (a as u128) * 18446744073709551616u128 + (b as u128)
}

/// Distinct pairs have distinct keys.
pub proof fn lemma_pair_key_injective(a1: u64, b1: u64, a2: u64, b2: u64)
    ensures
        pair_key_spec(a1, b1) == pair_key_spec(a2, b2) ==> a1 == a2 && b1 == b2,
{
}

/// Whether a string with the characters `s` occurs in `v`.
pub open spec fn seq_has_str(v: Seq<String>, s: Seq<char>) -> bool {
    exists|i: int| 0 <= i < v.len() && #[trigger] v[i]@ == s
}

/// Whether a string equal to `s` occurs in `v`.
pub fn contains_string(v: &Vec<String>, s: &String) -> (r: bool)
    ensures
        r == seq_has_str(v@, s@),
{
    let mut i: usize = 0;
    while i < v.len()
        invariant
            i <= v.len(),
            forall|j: int| 0 <= j < i ==> v@[j]@ != s@,
        decreases v.len() - i,
    {
        if v[i] == *s {
            return true;
        }
        i = i + 1;
    }
    false
}

/// The elements of `s` other than `x`, in order.
pub open spec fn seq_without<T>(s: Seq<T>, x: T) -> Seq<T>
    decreases s.len(),
{
    if s.len() == 0 {
        Seq::empty()
    } else {
        let rest = seq_without(s.drop_last(), x);
        if s.last() == x {
            rest
        } else {
            rest.push(s.last())
        }
    }
}

/// `v` with every occurrence of `x` removed.
pub fn without_u64(v: &Vec<u64>, x: u64) -> (r: Vec<u64>)
    ensures
        r@ == seq_without(v@, x),
{
    let mut r: Vec<u64> = Vec::new();
    let mut i: usize = 0;
    while i < v.len()
        invariant
            i <= v.len(),
            r@ == seq_without(v@.take(i as int), x),
        decreases v.len() - i,
    {
        assert(v@.take(i as int + 1).drop_last() =~= v@.take(i as int));
        if v[i] != x {
            r.push(v[i]);
        }
        i = i + 1;
    }
    assert(v@.take(v.len() as int) =~= v@);
    r
}

/// The position of the first occurrence of `x` in `s`, if any.
pub open spec fn first_index_of<T>(s: Seq<T>, x: T) -> Option<int> {
    if s.contains(x) {
        Some(choose|i: int| 0 <= i < s.len() && s[i] == x && forall|j: int| 0 <= j < i ==> s[j] != x)
    } else {
        None
    }
}

/// The position of the first occurrence of `x` in `v`, if any.
pub fn index_of_u32(v: &Vec<u32>, x: u32) -> (r: Option<usize>)
    ensures
        match r {
            Some(i) => i < v.len() && v@[i as int] == x && forall|j: int| 0 <= j < i ==> v@[j] != x,
            None => !v@.contains(x),
        },
{
    let mut i: usize = 0;
    while i < v.len()
        invariant
            i <= v.len(),
            forall|j: int| 0 <= j < i ==> v@[j] != x,
        decreases v.len() - i,
    {
        if v[i] == x {
            return Some(i);
        }
        i = i + 1;
    }
    None
}

/// `v` without its first occurrence of `x` (unchanged where `x` does not occur).
pub open spec fn seq_remove_first<T>(s: Seq<T>, x: T) -> Seq<T> {
    if s.contains(x) {
        let i = choose|i: int| 0 <= i < s.len() && s[i] == x && forall|j: int| 0 <= j < i ==> s[j] != x;
        s.remove(i)
    } else {
        s
    }
}

/// Removes the first occurrence of `x` from `v`, if any.
pub fn remove_first_u32(v: &mut Vec<u32>, x: u32)
    ensures
        final(v)@ == seq_remove_first(old(v)@, x),
{
    match index_of_u32(v, x) {
        Some(i) => {
            let ghost s = v@;
            let ghost k = choose|k: int| 0 <= k < s.len() && s[k] == x && forall|j: int| 0 <= j < k ==> s[j] != x;
            assert(s.contains(x));
            assert(k == i) by {
                if k < i { assert(s[k] != x); }
                if i < k { assert(s[i as int] != x); }
            }
            v.remove(i);
        },
        None => {},
    }
}

} // verus!

verus! {

/// The vector stored under `k`, or an empty one.
pub open spec fn vec_at<K, T>(m: Map<K, Vec<T>>, k: K) -> Seq<T> {
    if m.contains_key(k) {
        m[k]@
    } else {
        Seq::empty()
    }
}

/// A copy of the vector stored under `k`, or an empty vector.
pub fn vec_or_empty<K: Hash + Eq, T: Copy>(m: &HashMap<K, Vec<T>>, k: &K) -> (r: Vec<T>)
    requires
        vstd::std_specs::hash::obeys_key_model::<K>(),
    ensures
        r@ == vec_at(m@, *k),
{
    match m.get(k) {
        Some(v) => copy_vec(v),
        None => Vec::new(),
    }
}

/// The value stored under `k`, or `d`.
pub open spec fn value_at<K, V>(m: Map<K, V>, k: K, d: V) -> V {
    if m.contains_key(k) {
        m[k]
    } else {
        d
    }
}

/// The value stored under `k`, or `d`.
pub fn value_or<K: Hash + Eq, V: Copy>(m: &HashMap<K, V>, k: &K, d: V) -> (r: V)
    requires
        vstd::std_specs::hash::obeys_key_model::<K>(),
    ensures
        r == value_at(m@, *k, d),
{
    match m.get(k) {
        Some(v) => *v,
        None => d,
    }
}

} // verus!

verus! {

/// Appends `x` to the vector stored under `k` (an absent vector counts as empty).
pub fn push_value<K: Hash + Eq, T: Copy>(m: &mut HashMap<K, Vec<T>>, k: K, x: T)
    requires
        vstd::std_specs::hash::obeys_key_model::<K>(),
    ensures
        final(m)@ == old(m)@.insert(k, final(m)@[k]),
        final(m)@[k]@ == vec_at(old(m)@, k).push(x),
        forall|q: K| #[trigger] vec_at(final(m)@, q) == if q == k {
            vec_at(old(m)@, q).push(x)
        } else {
            vec_at(old(m)@, q)
        },
{
    let mut list = vec_or_empty(m, &k);
    list.push(x);
    m.insert(k, list);
}

/// The position of the first occurrence of `x` in `v`, if any.
pub fn index_of_u64(v: &Vec<u64>, x: u64) -> (r: Option<usize>)
    ensures
        match r {
            Some(i) => i < v.len() && v@[i as int] == x && forall|j: int| 0 <= j < i ==> v@[j] != x,
            None => !v@.contains(x),
        },
{
    let mut i: usize = 0;
    while i < v.len()
        invariant
            i <= v.len(),
            forall|j: int| 0 <= j < i ==> v@[j] != x,
        decreases v.len() - i,
    {
        if v[i] == x {
            return Some(i);
        }
        i = i + 1;
    }
    None
}

/// Removes the first occurrence of `x` from `v`, if any.
pub fn remove_first_u64(v: &mut Vec<u64>, x: u64)
    ensures
        final(v)@ == seq_remove_first(old(v)@, x),
{
    match index_of_u64(v, x) {
        Some(i) => {
            let ghost s = v@;
            let ghost k = choose|k: int| 0 <= k < s.len() && s[k] == x && forall|j: int| 0 <= j < k ==> s[j] != x;
            assert(s.contains(x));
            assert(k == i) by {
                if k < i { assert(s[k] != x); }
                if i < k { assert(s[i as int] != x); }
            }
            v.remove(i);
        },
        None => {},
    }
}

/// The number of occurrences of `x` in `s`.
pub open spec fn count_of<T>(s: Seq<T>, x: T) -> nat
    decreases s.len(),
{
    if s.len() == 0 {
        0
    } else {
        count_of(s.drop_last(), x) + if s.last() == x { 1nat } else { 0nat }
    }
}

} // verus!
