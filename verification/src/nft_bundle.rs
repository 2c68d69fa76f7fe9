//! NFT bundles sold as packs: the creator deposits a pool of NFTs split into
//! packs of equal size; a fixed pack hands out the first NFTs of the pool, a
//! blind pack draws them by a hash of the ledger's sequence and time.
use vstd::prelude::*;
use std::collections::HashMap;
use soroban_sdk::Env;
use crate::util::{AccountId, NftTransfer, Transfer, be_bytes};
use crate::host::{sha256, sha256_digest};

verus! {

broadcast use vstd::std_specs::hash::group_hash_axioms;

#[derive(Clone, Copy, Debug, PartialEq, Eq, Structural)]
pub enum PackType {
    Fixed,
    Blind,
}

#[derive(Clone, Copy, Debug, PartialEq, Eq, Structural)]
pub enum BundleStatus {
    Active,
    Closed,
    Cancelled,
}

#[derive(Clone, Copy, Debug, PartialEq, Eq, Structural)]
pub struct TokenRef {
    pub nft_contract: AccountId,
    pub token_id: u32,
}

pub struct NftBundle {
    pub id: u64,
    pub creator: AccountId,
    pub pack_type: PackType,
    pub nft_pool: Vec<TokenRef>,
    pub nfts_per_pack: u32,
    pub price: i128,
    pub payment_token: AccountId,
    pub packs_remaining: u32,
    pub status: BundleStatus,
}

#[derive(Clone, Copy, Debug, PartialEq, Eq, Structural)]
pub enum BundleError {
    EmptyPool,
    ZeroNftsPerPack,
    PoolNotDivisible,
    InvalidPrice,
    BundleNotFound,
    BundleNotActive,
    NoPacksRemaining,
    NotCreator,
    BundleStillActive,
    NothingToWithdraw,
    NoProceeds,
    Overflow,
}

/// The storage of the contract; `contract` is its own account.
pub struct NftBundleContract {
    pub contract: AccountId,
    pub bundle_count: u64,
    pub bundles: HashMap<u64, NftBundle>,
}

// ───────────── bytes and words ─────────────

/// The number that the bytes `s` write, most significant first.
pub open spec fn be_value(s: Seq<u8>) -> nat
    decreases s.len(),
{
    if s.len() == 0 {
        0
    } else {
        be_value(s.drop_last()) * 256 + s.last() as nat
    }
}

/// `256` to the power `n`.
pub open spec fn pow256(n: nat) -> nat
    decreases n,
{
    if n == 0 {
        1
    } else {
        256 * pow256((n - 1) as nat)
    }
}

/// The four 64-bit words of a 32-byte hash, each read big-endian.
pub open spec fn words_of(h: Seq<u8>) -> Seq<u64> {
    seq![
        be_value(h.subrange(0, 8)) as u64,
        be_value(h.subrange(8, 16)) as u64,
        be_value(h.subrange(16, 24)) as u64,
        be_value(h.subrange(24, 32)) as u64,
    ]
}

/// The big-endian bytes of four words.
pub open spec fn words_bytes(w: Seq<u64>) -> Seq<u8> {
    be_bytes(w[0] as nat, 8) + be_bytes(w[1] as nat, 8) + be_bytes(w[2] as nat, 8) + be_bytes(w[3] as nat, 8)
}

/// The seed of a blind draw: the ledger sequence, big-endian, followed by
/// the bytes of the buyer's address.
pub open spec fn seed_bytes(ledger_seq: u32, buyer_bytes: Seq<u8>) -> Seq<u8> {
    be_bytes(ledger_seq as nat, 4) + buyer_bytes
}

/// The words to draw from and their position: once the four words are used
/// up they are replaced by the words of the hash of their bytes.
pub open spec fn refill(words: Seq<u64>, idx: nat) -> (Seq<u64>, nat) {
    if idx >= 4 {
        (words_of(sha256_digest(words_bytes(words))), 0)
    } else {
        (words, idx)
    }
}

/// Up to `n` NFTs drawn from `pool`, each at the position that the next word
/// gives modulo the pool's size, and the pool that remains.
pub open spec fn blind_draws(pool: Seq<TokenRef>, n: nat, words: Seq<u64>, idx: nat) -> (Seq<TokenRef>, Seq<TokenRef>)
    decreases n,
{
    if n == 0 || pool.len() == 0 {
        (Seq::empty(), pool)
    } else {
        let (w, i) = refill(words, idx);
        let k = (w[i as int] as nat % pool.len()) as int;
        let rest = blind_draws(pool.remove(k), (n - 1) as nat, w, i + 1);
        (seq![pool[k]] + rest.0, rest.1)
    }
}

/// The draw of a blind pack of `n` NFTs at ledger `ledger_seq` for the buyer
/// whose address bytes are `buyer_bytes`.
pub open spec fn blind_pack(pool: Seq<TokenRef>, n: nat, ledger_seq: u32, buyer_bytes: Seq<u8>) -> (Seq<TokenRef>, Seq<TokenRef>) {
    blind_draws(pool, n, words_of(sha256_digest(seed_bytes(ledger_seq, buyer_bytes))), 0)
}

/// The `n` low bytes of `x`, most significant first.
fn be_vec(x: u64, n: usize) -> (r: Vec<u8>)
    ensures
        r@ == be_bytes(x as nat, n as nat),
    decreases n,
{
    if n == 0 {
        Vec::new()
    } else {
        let mut v = be_vec(x / 256, n - 1);
        v.push((x % 256) as u8);
        v
    }
}

/// `v` followed by `w`.
fn append_bytes(v: &mut Vec<u8>, w: &Vec<u8>)
    ensures
        final(v)@ == old(v)@ + w@,
{
    let mut i: usize = 0;
    while i < w.len()
        invariant
            i <= w.len(),
            v@ == old(v)@ + w@.take(i as int),
        decreases w.len() - i,
    {
        v.push(w[i]);
        i = i + 1;
        assert(v@ =~= old(v)@ + w@.take(i as int));
    }
    assert(w@.take(w.len() as int) =~= w@);
}

/// The word that the 8 bytes of `h` at `off` write, big-endian.
fn read_word(h: &[u8; 32], off: usize) -> (r: u64)
    requires
        off + 8 <= 32,
    ensures
        r == be_value(h@.subrange(off as int, off + 8)),
{
    let mut acc: u64 = 0;
    let mut i: usize = 0;
    while i < 8
        invariant
            i <= 8,
            off + 8 <= 32,
            h@.len() == 32,
            acc == be_value(h@.subrange(off as int, off + i)),
            acc < pow256(i as nat),
        decreases 8 - i,
    {
        let b = h[off + i];
        assert(h@.subrange(off as int, off + i + 1).drop_last() =~= h@.subrange(off as int, off + i));
        assert(pow256(i as nat + 1) == 256 * pow256(i as nat));
        assert(pow256(8) == 18446744073709551616) by {
            reveal_with_fuel(pow256, 9);
        }
        assert(pow256(i as nat) <= pow256(7)) by {
            let mut k: nat = i as nat;
            assert(i <= 7);
            reveal_with_fuel(pow256, 8);
        }
        assert(acc * 256 + b < pow256(i as nat + 1)) by (nonlinear_arith)
            requires
                acc < pow256(i as nat),
                b < 256,
                pow256(i as nat + 1) == 256 * pow256(i as nat),
        ;
        acc = acc * 256 + b as u64;
        i = i + 1;
    }
    acc
}

/// The words of a hash.
fn hash_words(h: &[u8; 32]) -> (r: Vec<u64>)
    ensures
        r@ == words_of(h@),
{
    let mut r: Vec<u64> = Vec::new();
    r.push(read_word(h, 0));
    r.push(read_word(h, 8));
    r.push(read_word(h, 16));
    r.push(read_word(h, 24));
    assert(r@ =~= words_of(h@));
    r
}

/// Draws up to `n` NFTs from `pool` for a blind pack.
fn blind_draw(env: &Env, pool: &mut Vec<TokenRef>, n: usize, ledger_seq: u32, buyer_xdr: &Vec<u8>) -> (r: Vec<TokenRef>)
    ensures
        (r@, final(pool)@) == blind_pack(old(pool)@, n as nat, ledger_seq, buyer_xdr@),
{
    let mut seed = be_vec(ledger_seq as u64, 4);
    append_bytes(&mut seed, buyer_xdr);
    let hash = sha256(env, &seed);
    let mut words = hash_words(&hash);
    let mut idx: usize = 0;
    let mut out: Vec<TokenRef> = Vec::new();
    let mut k: usize = 0;
    let ghost target = blind_pack(old(pool)@, n as nat, ledger_seq, buyer_xdr@);
    while k < n
        invariant
            k <= n,
            idx <= 4,
            words@.len() == 4,
            target == blind_pack(old(pool)@, n as nat, ledger_seq, buyer_xdr@),
            target == (out@ + blind_draws(pool@, (n - k) as nat, words@, idx as nat).0, blind_draws(
                pool@,
                (n - k) as nat,
                words@,
                idx as nat,
            ).1),
        ensures
            k == n || pool@.len() == 0,
            target == (out@ + blind_draws(pool@, (n - k) as nat, words@, idx as nat).0, blind_draws(
                pool@,
                (n - k) as nat,
                words@,
                idx as nat,
            ).1),
        decreases n - k,
    {
        if pool.len() == 0 {
            break;
        }
        let ghost before_pool = pool@;
        let ghost before_words = words@;
        let ghost before_idx = idx as nat;
        if idx >= 4 {
            let mut input = be_vec(words[0], 8);
            append_bytes(&mut input, &be_vec(words[1], 8));
            append_bytes(&mut input, &be_vec(words[2], 8));
            append_bytes(&mut input, &be_vec(words[3], 8));
            assert(input@ =~= words_bytes(before_words));
            let h = sha256(env, &input);
            words = hash_words(&h);
            idx = 0;
        }
        assert((words@, idx as nat) == refill(before_words, before_idx));
        let len = pool.len() as u64;
        let pick = (words[idx] % len) as usize;
        let t = pool[pick];
        pool.remove(pick);
        out.push(t);
        idx = idx + 1;
        k = k + 1;
        proof {
            let rest = blind_draws(pool@, (n - k) as nat, words@, idx as nat);
            assert(blind_draws(before_pool, (n - k + 1) as nat, before_words, before_idx) == (
                seq![t] + rest.0,
                rest.1,
            ));
            assert(out@ =~= out@.drop_last() + seq![t]);
            assert(out@ + rest.0 =~= out@.drop_last() + (seq![t] + rest.0));
        }
    }
    proof {
        let rest = blind_draws(pool@, (n - k) as nat, words@, idx as nat);
        assert(rest.0 =~= Seq::<TokenRef>::empty());
        assert(out@ + rest.0 =~= out@);
    }
    out
}

/// The NFT moves of `refs` from `from` to `to`, in order.
pub open spec fn moves(refs: Seq<TokenRef>, from: AccountId, to: AccountId) -> Seq<NftTransfer> {
    refs.map_values(|t: TokenRef| NftTransfer { nft_contract: t.nft_contract, from, to, nft_id: t.token_id })
}

fn moves_exec(refs: &Vec<TokenRef>, from: AccountId, to: AccountId) -> (r: Vec<NftTransfer>)
    ensures
        r@ == moves(refs@, from, to),
{
    let mut r: Vec<NftTransfer> = Vec::new();
    let mut i: usize = 0;
    while i < refs.len()
        invariant
            i <= refs.len(),
            r@ == moves(refs@.take(i as int), from, to),
        decreases refs.len() - i,
    {
        r.push(NftTransfer { nft_contract: refs[i].nft_contract, from, to, nft_id: refs[i].token_id });
        i = i + 1;
        assert(r@ =~= moves(refs@.take(i as int), from, to));
    }
    assert(refs@.take(refs.len() as int) =~= refs@);
    r
}

impl NftBundle {
    pub open spec fn same(&self, other: &NftBundle) -> bool {
        &&& self.id == other.id
        &&& self.creator == other.creator
        &&& self.pack_type == other.pack_type
        &&& self.nft_pool@ == other.nft_pool@
        &&& self.nfts_per_pack == other.nfts_per_pack
        &&& self.price == other.price
        &&& self.payment_token == other.payment_token
        &&& self.packs_remaining == other.packs_remaining
        &&& self.status == other.status
    }

    pub fn copy(&self) -> (r: NftBundle)
        ensures
            r.same(self),
    {
        NftBundle {
            id: self.id,
            creator: self.creator,
            pack_type: self.pack_type,
            nft_pool: crate::util::copy_vec(&self.nft_pool),
            nfts_per_pack: self.nfts_per_pack,
            price: self.price,
            payment_token: self.payment_token,
            packs_remaining: self.packs_remaining,
            status: self.status,
        }
    }

    /// An active bundle holds exactly its remaining packs.
    pub open spec fn wf(&self) -> bool {
        &&& self.nfts_per_pack > 0
        &&& self.status == BundleStatus::Active ==> self.nft_pool@.len() == self.packs_remaining
            * self.nfts_per_pack && self.packs_remaining > 0
    }
}

impl NftBundleContract {
    pub open spec fn wf(&self) -> bool {
        forall|id: u64| #[trigger] self.bundles@.contains_key(id) ==> self.bundles@[id].wf()
    }

    /// A contract with empty storage, deployed at `contract`.
    pub fn new(contract: AccountId) -> (r: Self)
        ensures
            r.contract == contract,
            r.bundle_count == 0,
            r.bundles@ == Map::<u64, NftBundle>::empty(),
            r.wf(),
    {
        NftBundleContract { contract, bundle_count: 0, bundles: HashMap::new() }
    }

    /// The error of `create_bundle`, checked in the order of the contract.
    pub open spec fn create_error(&self, pool_len: nat, nfts_per_pack: u32, price: i128) -> Option<BundleError> {
        if pool_len == 0 {
            Some(BundleError::EmptyPool)
        } else if nfts_per_pack == 0 {
            Some(BundleError::ZeroNftsPerPack)
        } else if pool_len % (nfts_per_pack as nat) != 0 {
            Some(BundleError::PoolNotDivisible)
        } else if price <= 0 {
            Some(BundleError::InvalidPrice)
        } else if pool_len > u32::MAX || self.bundle_count == u64::MAX {
            Some(BundleError::Overflow)
        } else {
            None
        }
    }

    /// Takes the creator's NFTs into a new bundle of `len / nfts_per_pack`
    /// packs; returns the bundle id and the NFT moves into the contract.
    pub fn create_bundle(
        &mut self,
        creator: AccountId,
        pack_type: PackType,
        nft_pool: Vec<TokenRef>,
        nfts_per_pack: u32,
        price: i128,
        payment_token: AccountId,
    ) -> (r: Result<(u64, Vec<NftTransfer>), BundleError>)
        requires
            old(self).wf(),
        ensures
            final(self).wf(),
            match old(self).create_error(nft_pool@.len(), nfts_per_pack, price) {
                Some(e) => r == Err::<(u64, Vec<NftTransfer>), BundleError>(e) && *final(self) == *old(self),
                None => {
                    let id = (old(self).bundle_count + 1) as u64;
                    &&& r is Ok
                    &&& r.unwrap().0 == id
                    &&& r.unwrap().1@ == moves(nft_pool@, creator, old(self).contract)
                    &&& final(self).bundle_count == id
                    &&& final(self).bundles@ == old(self).bundles@.insert(
                        id,
                        NftBundle {
                            id,
                            creator,
                            pack_type,
                            nft_pool,
                            nfts_per_pack,
                            price,
                            payment_token,
                            packs_remaining: (nft_pool@.len() / nfts_per_pack as nat) as u32,
                            status: BundleStatus::Active,
                        },
                    )
                    &&& final(self).contract == old(self).contract
                },
            },
    {
        let pool_len = nft_pool.len();
        if pool_len == 0 {
            return Err(BundleError::EmptyPool);
        }
        if nfts_per_pack == 0 {
            return Err(BundleError::ZeroNftsPerPack);
        }
        if pool_len % (nfts_per_pack as usize) != 0 {
            return Err(BundleError::PoolNotDivisible);
        }
        if price <= 0 {
            return Err(BundleError::InvalidPrice);
        }
        if pool_len > u32::MAX as usize || self.bundle_count == u64::MAX {
            return Err(BundleError::Overflow);
        }
        let total_packs = (pool_len as u32) / nfts_per_pack;
        let transfers = moves_exec(&nft_pool, creator, self.contract);
        let id = self.bundle_count + 1;
        self.bundle_count = id;
        assert(pool_len == total_packs * nfts_per_pack && total_packs > 0) by (nonlinear_arith)
            requires
                pool_len % (nfts_per_pack as usize) == 0,
                total_packs == (pool_len as u32) / nfts_per_pack,
                nfts_per_pack > 0,
                pool_len > 0,
                pool_len <= u32::MAX,
        ;
        let ghost old_bundles = self.bundles@;
        self.bundles.insert(
            id,
            NftBundle {
                id,
                creator,
                pack_type,
                nft_pool,
                nfts_per_pack,
                price,
                payment_token,
                packs_remaining: total_packs,
                status: BundleStatus::Active,
            },
        );
        assert forall|k: u64| #[trigger] self.bundles@.contains_key(k) implies self.bundles@[k].wf() by {
            if k != id {
                assert(old_bundles.contains_key(k));
            }
        }
        Ok((id, transfers))
    }

    /// The error of `purchase_pack`, checked in the order of the contract.
    pub open spec fn purchase_error(&self, bundle_id: u64) -> Option<BundleError> {
        if !self.bundles@.contains_key(bundle_id) {
            Some(BundleError::BundleNotFound)
        } else if self.bundles@[bundle_id].status != BundleStatus::Active {
            Some(BundleError::BundleNotActive)
        } else if self.bundles@[bundle_id].packs_remaining == 0 {
            Some(BundleError::NoPacksRemaining)
        } else {
            None
        }
    }

    /// The NFTs a pack of `b` hands out and the pool that remains.
    pub open spec fn pack_of(b: NftBundle, ledger_seq: u32, buyer_bytes: Seq<u8>) -> (Seq<TokenRef>, Seq<TokenRef>) {
        match b.pack_type {
            PackType::Fixed => (b.nft_pool@.take(b.nfts_per_pack as int), b.nft_pool@.skip(b.nfts_per_pack as int)),
            PackType::Blind => blind_pack(b.nft_pool@, b.nfts_per_pack as nat, ledger_seq, buyer_bytes),
        }
    }

    /// Sells one pack to `buyer`, whose address has the XDR bytes
    /// `buyer_xdr`, for the bundle's price at ledger `ledger_seq`; a blind
    /// pack is drawn from the hash of the sequence and those bytes. The
    /// bundle closes with its last pack. Returns the NFTs received, the
    /// payment and the NFT moves.
    pub fn purchase_pack(
        &mut self,
        env: &Env,
        buyer: AccountId,
        buyer_xdr: &Vec<u8>,
        bundle_id: u64,
        ledger_seq: u32,
    ) -> (r:
        Result<(Vec<TokenRef>, Transfer, Vec<NftTransfer>), BundleError>)
        requires
            old(self).wf(),
        ensures
            final(self).wf(),
            match old(self).purchase_error(bundle_id) {
                Some(e) => r == Err::<(Vec<TokenRef>, Transfer, Vec<NftTransfer>), BundleError>(e) && *final(self)
                    == *old(self),
                None => {
                    let b = old(self).bundles@[bundle_id];
                    let (received, rest) = Self::pack_of(b, ledger_seq, buyer_xdr@);
                    let nb = final(self).bundles@[bundle_id];
                    &&& r is Ok
                    &&& r.unwrap().0@ == received
                    &&& r.unwrap().1 == Transfer { token: b.payment_token, from: buyer, to: old(self).contract, amount: b.price }
                    &&& r.unwrap().2@ == moves(received, old(self).contract, buyer)
                    &&& final(self).bundles@.dom() == old(self).bundles@.dom()
                    &&& nb.nft_pool@ == rest
                    &&& nb.packs_remaining == b.packs_remaining - 1
                    &&& nb.status == if b.packs_remaining == 1 { BundleStatus::Closed } else { BundleStatus::Active }
                    &&& nb.id == b.id && nb.creator == b.creator && nb.pack_type == b.pack_type
                    &&& nb.nfts_per_pack == b.nfts_per_pack && nb.price == b.price
                    &&& nb.payment_token == b.payment_token
                    &&& forall|k: u64| k != bundle_id && #[trigger] old(self).bundles@.contains_key(k)
                        ==> final(self).bundles@[k] == old(self).bundles@[k]
                    &&& final(self).bundle_count == old(self).bundle_count
                    &&& final(self).contract == old(self).contract
                },
            },
    {
        match self.bundles.get(&bundle_id) {
            Some(b) => {
                if b.status != BundleStatus::Active {
                    return Err(BundleError::BundleNotActive);
                }
                if b.packs_remaining == 0 {
                    return Err(BundleError::NoPacksRemaining);
                }
            },
            None => return Err(BundleError::BundleNotFound),
        }
        let ghost old_bundles = self.bundles@;
        assert(self.bundles@.contains_key(bundle_id));
        let mut b = self.bundles.remove(&bundle_id).unwrap();
        assert(b.wf());
        let payment = Transfer { token: b.payment_token, from: buyer, to: self.contract, amount: b.price };
        let n = b.nfts_per_pack as usize;
        let received = match b.pack_type {
            PackType::Fixed => {
                assert(b.nft_pool@.len() >= n) by (nonlinear_arith)
                    requires
                        b.nft_pool@.len() == b.packs_remaining * b.nfts_per_pack,
                        b.packs_remaining > 0,
                        n == b.nfts_per_pack,
                ;
                let mut out: Vec<TokenRef> = Vec::new();
                let mut rest: Vec<TokenRef> = Vec::new();
                let mut i: usize = 0;
                while i < b.nft_pool.len()
                    invariant
                        i <= b.nft_pool.len(),
                        n <= b.nft_pool.len(),
                        out@ == b.nft_pool@.take(if i < n { i as int } else { n as int }),
                        rest@ == if i < n { Seq::<TokenRef>::empty() } else { b.nft_pool@.subrange(n as int, i as int) },
                    decreases b.nft_pool.len() - i,
                {
                    if i < n {
                        out.push(b.nft_pool[i]);
                    } else {
                        rest.push(b.nft_pool[i]);
                    }
                    i = i + 1;
                    assert(out@ =~= b.nft_pool@.take(if i < n { i as int } else { n as int }));
                    assert(rest@ =~= if i < n { Seq::<TokenRef>::empty() } else { b.nft_pool@.subrange(n as int, i as int) });
                }
                assert(rest@ =~= b.nft_pool@.skip(n as int));
                b.nft_pool = rest;
                out
            },
            PackType::Blind => blind_draw(env, &mut b.nft_pool, n, ledger_seq, buyer_xdr),
        };
        let transfers = moves_exec(&received, self.contract, buyer);
        let ghost old_len = old_bundles[bundle_id].nft_pool@.len();
        b.packs_remaining = b.packs_remaining - 1;
        if b.packs_remaining == 0 {
            b.status = BundleStatus::Closed;
        }
        proof {
            let ob = old_bundles[bundle_id];
            if b.status == BundleStatus::Active {
                assert(b.packs_remaining > 0);
                lemma_pack_sizes(ob, ledger_seq, buyer_xdr@);
                assert(b.nft_pool@.len() == b.packs_remaining * b.nfts_per_pack) by (nonlinear_arith)
                    requires
                        b.nft_pool@.len() == ob.nft_pool@.len() - ob.nfts_per_pack,
                        ob.nft_pool@.len() == ob.packs_remaining * ob.nfts_per_pack,
                        b.packs_remaining == ob.packs_remaining - 1,
                        b.nfts_per_pack == ob.nfts_per_pack,
                ;
            }
        }
        self.bundles.insert(bundle_id, b);
        assert(self.bundles@.dom() =~= old_bundles.dom());
        assert forall|k: u64| #[trigger] self.bundles@.contains_key(k) implies self.bundles@[k].wf() by {
            if k != bundle_id {
                assert(old_bundles.contains_key(k));
            }
        }
        Ok((received, payment, transfers))
    }

    /// The error of the creator's calls on `bundle_id`.
    pub open spec fn creator_error(&self, creator: AccountId, bundle_id: u64) -> Option<BundleError> {
        if !self.bundles@.contains_key(bundle_id) {
            Some(BundleError::BundleNotFound)
        } else if self.bundles@[bundle_id].creator != creator {
            Some(BundleError::NotCreator)
        } else {
            None
        }
    }

    /// Cancels an active bundle; the creator only.
    pub fn cancel_bundle(&mut self, creator: AccountId, bundle_id: u64) -> (r: Result<(), BundleError>)
        requires
            old(self).wf(),
        ensures
            final(self).wf(),
            match (if old(self).creator_error(creator, bundle_id) is Some {
                old(self).creator_error(creator, bundle_id)
            } else if old(self).bundles@[bundle_id].status != BundleStatus::Active {
                Some(BundleError::BundleNotActive)
            } else {
                None
            }) {
                Some(e) => r == Err::<(), BundleError>(e) && *final(self) == *old(self),
                None => {
                    let b = old(self).bundles@[bundle_id];
                    &&& r is Ok
                    &&& final(self).bundles@.dom() == old(self).bundles@.dom()
                    &&& final(self).bundles@[bundle_id].same(&NftBundle { status: BundleStatus::Cancelled, ..b })
                    &&& forall|k: u64| k != bundle_id && #[trigger] old(self).bundles@.contains_key(k)
                        ==> final(self).bundles@[k] == old(self).bundles@[k]
                    &&& final(self).bundle_count == old(self).bundle_count
                    &&& final(self).contract == old(self).contract
                },
            },
    {
        match self.bundles.get(&bundle_id) {
            Some(b) => {
                if b.creator != creator {
                    return Err(BundleError::NotCreator);
                }
                if b.status != BundleStatus::Active {
                    return Err(BundleError::BundleNotActive);
                }
            },
            None => return Err(BundleError::BundleNotFound),
        }
        let ghost old_bundles = self.bundles@;
        let mut b = self.bundles.remove(&bundle_id).unwrap();
        b.status = BundleStatus::Cancelled;
        self.bundles.insert(bundle_id, b);
        assert(self.bundles@.dom() =~= old_bundles.dom());
        assert forall|k: u64| #[trigger] self.bundles@.contains_key(k) implies self.bundles@[k].wf() by {
            assert(old_bundles.contains_key(k));
        }
        Ok(())
    }

    /// Hands the NFTs left in a closed or cancelled bundle back to its
    /// creator; returns the NFT moves.
    pub fn withdraw_unsold(&mut self, creator: AccountId, bundle_id: u64) -> (r: Result<Vec<NftTransfer>, BundleError>)
        requires
            old(self).wf(),
        ensures
            final(self).wf(),
            match (if old(self).creator_error(creator, bundle_id) is Some {
                old(self).creator_error(creator, bundle_id)
            } else if old(self).bundles@[bundle_id].status == BundleStatus::Active {
                Some(BundleError::BundleStillActive)
            } else if old(self).bundles@[bundle_id].nft_pool@.len() == 0 {
                Some(BundleError::NothingToWithdraw)
            } else {
                None
            }) {
                Some(e) => r == Err::<Vec<NftTransfer>, BundleError>(e) && *final(self) == *old(self),
                None => {
                    let b = old(self).bundles@[bundle_id];
                    &&& r is Ok
                    &&& r.unwrap()@ == moves(b.nft_pool@, old(self).contract, creator)
                    &&& final(self).bundles@.dom() == old(self).bundles@.dom()
                    &&& final(self).bundles@[bundle_id].same(
                        &NftBundle { nft_pool: final(self).bundles@[bundle_id].nft_pool, ..b },
                    )
                    &&& final(self).bundles@[bundle_id].nft_pool@.len() == 0
                    &&& forall|k: u64| k != bundle_id && #[trigger] old(self).bundles@.contains_key(k)
                        ==> final(self).bundles@[k] == old(self).bundles@[k]
                    &&& final(self).bundle_count == old(self).bundle_count
                    &&& final(self).contract == old(self).contract
                },
            },
    {
        match self.bundles.get(&bundle_id) {
            Some(b) => {
                if b.creator != creator {
                    return Err(BundleError::NotCreator);
                }
                if b.status == BundleStatus::Active {
                    return Err(BundleError::BundleStillActive);
                }
                if b.nft_pool.len() == 0 {
                    return Err(BundleError::NothingToWithdraw);
                }
            },
            None => return Err(BundleError::BundleNotFound),
        }
        let ghost old_bundles = self.bundles@;
        let mut b = self.bundles.remove(&bundle_id).unwrap();
        let transfers = moves_exec(&b.nft_pool, self.contract, creator);
        b.nft_pool = Vec::new();
        self.bundles.insert(bundle_id, b);
        assert(self.bundles@.dom() =~= old_bundles.dom());
        assert forall|k: u64| #[trigger] self.bundles@.contains_key(k) implies self.bundles@[k].wf() by {
            assert(old_bundles.contains_key(k));
        }
        Ok(transfers)
    }

    /// Pays the creator the contract's whole `balance` of the bundle's
    /// payment token, as the token contract reported it.
    pub fn withdraw_proceeds(&self, creator: AccountId, bundle_id: u64, balance: i128) -> (r: Result<
        Transfer,
        BundleError,
    >)
        ensures
            match (if self.creator_error(creator, bundle_id) is Some {
                self.creator_error(creator, bundle_id)
            } else if balance <= 0 {
                Some(BundleError::NoProceeds)
            } else {
                None
            }) {
                Some(e) => r == Err::<Transfer, BundleError>(e),
                None => r == Ok::<Transfer, BundleError>(
                    Transfer {
                        token: self.bundles@[bundle_id].payment_token,
                        from: self.contract,
                        to: creator,
                        amount: balance,
                    },
                ),
            },
    {
        match self.bundles.get(&bundle_id) {
            Some(b) => {
                if b.creator != creator {
                    return Err(BundleError::NotCreator);
                }
                if balance <= 0 {
                    return Err(BundleError::NoProceeds);
                }
                Ok(Transfer { token: b.payment_token, from: self.contract, to: creator, amount: balance })
            },
            None => Err(BundleError::BundleNotFound),
        }
    }

    /// A copy of the bundle `bundle_id`, if any.
    pub fn get_bundle(&self, bundle_id: u64) -> (r: Option<NftBundle>)
        ensures
            r is Some == self.bundles@.contains_key(bundle_id),
            r is Some ==> r.unwrap().same(&self.bundles@[bundle_id]),
    {
        match self.bundles.get(&bundle_id) {
            Some(b) => Some(b.copy()),
            None => None,
        }
    }
}

/// A blind draw of `n` from a pool of at least `n` takes exactly `n` NFTs.
pub proof fn lemma_blind_draws_len(pool: Seq<TokenRef>, n: nat, words: Seq<u64>, idx: nat)
    requires
        pool.len() >= n,
        words.len() == 4,
        idx <= 4,
    ensures
        blind_draws(pool, n, words, idx).0.len() == n,
        blind_draws(pool, n, words, idx).1.len() == pool.len() - n,
    decreases n,
{
    if n > 0 {
        let (w, i) = refill(words, idx);
        let k = (w[i as int] as nat % pool.len()) as int;
        lemma_blind_draws_len(pool.remove(k), (n - 1) as nat, w, i + 1);
    }
}

/// A pack of a well-formed active bundle takes exactly `nfts_per_pack` NFTs.
pub proof fn lemma_pack_sizes(b: NftBundle, ledger_seq: u32, buyer_bytes: Seq<u8>)
    requires
        b.wf(),
        b.status == BundleStatus::Active,
    ensures
        NftBundleContract::pack_of(b, ledger_seq, buyer_bytes).0.len() == b.nfts_per_pack,
        NftBundleContract::pack_of(b, ledger_seq, buyer_bytes).1.len() == b.nft_pool@.len() - b.nfts_per_pack,
{
    assert(b.nft_pool@.len() >= b.nfts_per_pack) by (nonlinear_arith)
        requires
            b.nft_pool@.len() == b.packs_remaining * b.nfts_per_pack,
            b.packs_remaining > 0,
    ;
    if b.pack_type == PackType::Blind {
        lemma_blind_draws_len(
            b.nft_pool@,
            b.nfts_per_pack as nat,
            words_of(sha256_digest(seed_bytes(ledger_seq, buyer_bytes))),
            0,
        );
    }
}


/// A blind draw only hands out NFTs of the pool: what is drawn and what
/// remains make up the pool exactly.
pub proof fn lemma_blind_draws_partition(pool: Seq<TokenRef>, n: nat, words: Seq<u64>, idx: nat)
    ensures
        (blind_draws(pool, n, words, idx).0 + blind_draws(pool, n, words, idx).1).to_multiset() == pool.to_multiset(),
    decreases n,
{
    if n == 0 || pool.len() == 0 {
        assert(Seq::<TokenRef>::empty() + pool =~= pool);
    } else {
        let (w, i) = refill(words, idx);
        let k = (w[i as int] as nat % pool.len()) as int;
        let rest = blind_draws(pool.remove(k), (n - 1) as nat, w, i + 1);
        lemma_blind_draws_partition(pool.remove(k), (n - 1) as nat, w, i + 1);
        let both = rest.0 + rest.1;
        assert(seq![pool[k]] + rest.0 + rest.1 =~= both.insert(0, pool[k]));
        vstd::seq_lib::to_multiset_insert(both, 0, pool[k]);
        vstd::seq_lib::to_multiset_remove(pool, k);
        broadcast use vstd::multiset::group_multiset_axioms;
        assert(pool.to_multiset().count(pool[k]) > 0) by {
            pool.to_multiset_ensures();
            assert(pool.contains(pool[k]));
        }
        assert(pool.to_multiset().remove(pool[k]).insert(pool[k]) =~= pool.to_multiset());
    }
}

/// A pack takes NFTs of the bundle's pool and leaves the others: what the
/// pack holds and what remains make up the pool exactly, so no NFT is handed
/// out twice or lost, and a pool without repeats gives packs without
/// repeats.
pub proof fn lemma_pack_from_pool(b: NftBundle, ledger_seq: u32, buyer_bytes: Seq<u8>)
    requires
        b.wf(),
        b.status == BundleStatus::Active,
    ensures
        (NftBundleContract::pack_of(b, ledger_seq, buyer_bytes).0 + NftBundleContract::pack_of(b, ledger_seq, buyer_bytes).1).to_multiset()
            == b.nft_pool@.to_multiset(),
        b.nft_pool@.no_duplicates() ==> NftBundleContract::pack_of(b, ledger_seq, buyer_bytes).0.no_duplicates(),
{
    let (d, r) = NftBundleContract::pack_of(b, ledger_seq, buyer_bytes);
    match b.pack_type {
        PackType::Fixed => {
            lemma_pack_sizes(b, ledger_seq, buyer_bytes);
            assert(d + r =~= b.nft_pool@);
        },
        PackType::Blind => {
            lemma_blind_draws_partition(
                b.nft_pool@,
                b.nfts_per_pack as nat,
                words_of(sha256_digest(seed_bytes(ledger_seq, buyer_bytes))),
                0,
            );
        },
    }
    if b.nft_pool@.no_duplicates() {
        broadcast use vstd::multiset::group_multiset_axioms;
        b.nft_pool@.lemma_multiset_has_no_duplicates();
        vstd::seq_lib::lemma_multiset_commutative(d, r);
        assert forall|x: TokenRef| d.to_multiset().contains(x) implies d.to_multiset().count(x) == 1 by {
            assert(b.nft_pool@.to_multiset().count(x) == d.to_multiset().count(x) + r.to_multiset().count(x));
        }
        d.lemma_multiset_has_no_duplicates_conv();
    }
}

proof fn lemma_be_bytes_len(x: nat, n: nat)
    ensures
        be_bytes(x, n).len() == n,
    decreases n,
{
    if n > 0 {
        lemma_be_bytes_len(x / 256, (n - 1) as nat);
    }
}

/// A blind draw is seeded by the ledger sequence and the buyer: at one
/// ledger, buyers with different address bytes draw from different seeds,
/// and the pack drawn is a function of the pool, the pack size, the
/// sequence and the buyer's address bytes alone.
pub proof fn lemma_seed_depends_on_buyer(ledger_seq: u32, buyer1: Seq<u8>, buyer2: Seq<u8>)
    ensures
        buyer1 != buyer2 ==> seed_bytes(ledger_seq, buyer1) != seed_bytes(ledger_seq, buyer2),
        forall|pool: Seq<TokenRef>, n: nat|
            #[trigger] blind_pack(pool, n, ledger_seq, buyer1) == blind_draws(
                pool,
                n,
                words_of(sha256_digest(seed_bytes(ledger_seq, buyer1))),
                0,
            ),
{
    lemma_be_bytes_len(ledger_seq as nat, 4);
    if seed_bytes(ledger_seq, buyer1) == seed_bytes(ledger_seq, buyer2) {
        assert(seed_bytes(ledger_seq, buyer1).skip(4) =~= buyer1);
        assert(seed_bytes(ledger_seq, buyer2).skip(4) =~= buyer2);
    }
}

} // verus!
