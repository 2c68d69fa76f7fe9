//! Leaderboards by period: an oracle submits scores, each player holds at
//! most one entry, entries stay sorted by score (highest first) and capped
//! at one hundred, and a finalized period never changes again.
use vstd::prelude::*;
use std::collections::HashMap;
use crate::util::AccountId;

verus! {

broadcast use vstd::std_specs::hash::group_hash_axioms;

/// The most entries a leaderboard keeps.
pub const MAX_ENTRIES: u32 = 100;

#[derive(Clone, Copy, Debug, PartialEq, Eq, Structural)]
pub struct Config {
    pub admin: AccountId,
    pub oracle: AccountId,
}

#[derive(Clone, Copy, Debug, PartialEq, Eq, Structural)]
pub struct LeaderboardEntry {
    pub player: AccountId,
    pub score: u64,
    /// The 1-based position in the board.
    pub rank: u32,
    pub submitted_at: u64,
}

pub struct LeaderboardPeriod {
    pub period_id: u32,
    pub context: String,
    pub entries: Vec<LeaderboardEntry>,
    pub finalized: bool,
    pub finalized_at: Option<u64>,
}

#[derive(Clone, Copy, Debug, PartialEq, Eq, Structural)]
pub enum LeaderboardError {
    AlreadyInitialized,
    NotInitialized,
    AdminOnly,
    PeriodExists,
    PeriodNotFound,
    PeriodFinalized,
    AlreadyFinalized,
    /// The submitted score falls below a full board of other players, so the
    /// player would hold no entry.
    NotRanked,
}

/// An entry of the index of periods by context.
pub struct ContextPeriod {
    pub context: String,
    pub period_id: u32,
}

/// The storage of the contract.
pub struct ImmutableLeaderboard {
    pub config: Option<Config>,
    pub periods: HashMap<u32, LeaderboardPeriod>,
    pub periods_by_context: Vec<ContextPeriod>,
}

// ───────────── the board model ─────────────

/// Scores never increase along the board.
pub open spec fn sorted_desc(s: Seq<LeaderboardEntry>) -> bool {
    forall|i: int, j: int| 0 <= i < j < s.len() ==> #[trigger] s[i].score >= #[trigger] s[j].score
}

/// No player holds two entries.
pub open spec fn players_unique(s: Seq<LeaderboardEntry>) -> bool {
    forall|i: int, j: int| 0 <= i < j < s.len() ==> #[trigger] s[i].player != #[trigger] s[j].player
}

/// Each entry's rank is its 1-based position.
pub open spec fn ranks_match(s: Seq<LeaderboardEntry>) -> bool {
    forall|i: int| 0 <= i < s.len() ==> #[trigger] s[i].rank == i + 1
}

/// A well-formed board: capped, sorted, one entry per player, ranked.
pub open spec fn board_wf(s: Seq<LeaderboardEntry>) -> bool {
    &&& s.len() <= MAX_ENTRIES
    &&& sorted_desc(s)
    &&& players_unique(s)
    &&& ranks_match(s)
}

/// The entries of `s` other than those of `player`, in order.
pub open spec fn drop_player(s: Seq<LeaderboardEntry>, player: AccountId) -> Seq<LeaderboardEntry>
    decreases s.len(),
{
    if s.len() == 0 {
        Seq::empty()
    } else if s.last().player == player {
        drop_player(s.drop_last(), player)
    } else {
        drop_player(s.drop_last(), player).push(s.last())
    }
}

/// `p` is where a score goes: after every entry with at least that score,
/// before the first entry with a lower one.
pub open spec fn is_insert_pos(s: Seq<LeaderboardEntry>, score: u64, p: int) -> bool {
    &&& 0 <= p <= s.len()
    &&& forall|j: int| 0 <= j < p ==> #[trigger] s[j].score >= score
    &&& p < s.len() ==> score > s[p].score
}

/// The position where a score goes in `s`.
pub open spec fn insert_pos(s: Seq<LeaderboardEntry>, score: u64) -> int {
    choose|p: int| is_insert_pos(s, score, p)
}

/// `s` with each rank set to the entry's 1-based position.
pub open spec fn with_ranks(s: Seq<LeaderboardEntry>) -> Seq<LeaderboardEntry> {
    Seq::new(
        s.len(),
        |i: int|
            LeaderboardEntry {
                player: s[i].player,
                score: s[i].score,
                rank: (i + 1) as u32,
                submitted_at: s[i].submitted_at,
            },
    )
}

/// The board after `player` submits `score` at time `now`: the player's
/// old entry leaves, the new one goes where its score belongs, the board is
/// cut to one hundred entries and ranked again.
pub open spec fn after_submit(s: Seq<LeaderboardEntry>, player: AccountId, score: u64, now: u64) -> Seq<
    LeaderboardEntry,
> {
    let r = drop_player(s, player);
    let e = LeaderboardEntry { player, score, rank: 0, submitted_at: now };
    let ins = r.insert(insert_pos(r, score), e);
    with_ranks(if ins.len() > MAX_ENTRIES { ins.take(MAX_ENTRIES as int) } else { ins })
}

/// The insert position exists and is unique.
pub proof fn lemma_insert_pos(s: Seq<LeaderboardEntry>, score: u64)
    ensures
        is_insert_pos(s, score, insert_pos(s, score)),
        forall|p: int| is_insert_pos(s, score, p) ==> p == insert_pos(s, score),
    decreases s.len(),
{
    if s.len() == 0 {
        assert(is_insert_pos(s, score, 0));
    } else {
        lemma_insert_pos(s.drop_last(), score);
        let t = s.drop_last();
        let q = insert_pos(t, score);
        assert forall|j: int| 0 <= j < q implies #[trigger] s[j].score >= score by {
            assert(s[j] == t[j]);
        }
        if q < s.len() - 1 {
            assert(s[q] == t[q]);
            assert(is_insert_pos(s, score, q));
        } else if score > s.last().score {
            assert(is_insert_pos(s, score, q));
        } else {
            assert(is_insert_pos(s, score, s.len() as int));
        }
    }
    let c = insert_pos(s, score);
    assert forall|p: int| is_insert_pos(s, score, p) implies p == c by {
        if p < c {
            assert(s[p].score >= score);
        }
        if c < p {
            assert(s[c].score >= score);
        }
    }
}

/// What dropping a player's entries keeps.
pub proof fn lemma_drop_player(s: Seq<LeaderboardEntry>, player: AccountId)
    ensures
        forall|i: int| 0 <= i < drop_player(s, player).len() ==> exists|k: int|
            0 <= k < s.len() && #[trigger] drop_player(s, player)[i] == s[k],
        forall|i: int| 0 <= i < drop_player(s, player).len() ==> (#[trigger] drop_player(s, player)[i]).player
            != player,
        drop_player(s, player).len() <= s.len(),
        sorted_desc(s) ==> sorted_desc(drop_player(s, player)),
        players_unique(s) ==> players_unique(drop_player(s, player)),
        (forall|i: int| 0 <= i < s.len() ==> (#[trigger] s[i]).player != player) ==> drop_player(s, player) == s,
    decreases s.len(),
{
    if s.len() > 0 {
        let t = s.drop_last();
        lemma_drop_player(t, player);
        let d = drop_player(t, player);
        assert forall|i: int| 0 <= i < d.len() implies exists|k: int| 0 <= k < s.len() && #[trigger] d[i] == s[k] by {
            let k = choose|k: int| 0 <= k < t.len() && d[i] == t[k];
            assert(d[i] == s[k]);
        }
        if s.last().player != player {
            let e = d.push(s.last());
            assert forall|i: int| 0 <= i < e.len() implies exists|k: int| 0 <= k < s.len() && #[trigger] e[i] == s[k] by {
                if i < d.len() {
                    assert(e[i] == d[i]);
                } else {
                    assert(e[i] == s[s.len() - 1]);
                }
            }
            if sorted_desc(s) {
                assert(sorted_desc(t));
                assert forall|i: int, j: int| 0 <= i < j < e.len() implies #[trigger] e[i].score >= #[trigger] e[j].score by {
                    if j == d.len() {
                        let k = choose|k: int| 0 <= k < t.len() && d[i] == t[k];
                        assert(s[k].score >= s[s.len() - 1].score);
                    } else {
                        assert(e[i] == d[i] && e[j] == d[j]);
                    }
                }
            }
            if players_unique(s) {
                assert(players_unique(t));
                assert forall|i: int, j: int| 0 <= i < j < e.len() implies #[trigger] e[i].player != #[trigger] e[j].player by {
                    if j == d.len() {
                        let k = choose|k: int| 0 <= k < t.len() && d[i] == t[k];
                        assert(s[k].player != s[s.len() - 1].player);
                    } else {
                        assert(e[i] == d[i] && e[j] == d[j]);
                    }
                }
            }
            if forall|i: int| 0 <= i < s.len() ==> (#[trigger] s[i]).player != player {
                assert forall|i: int| 0 <= i < t.len() implies (#[trigger] t[i]).player != player by {
                    assert(t[i] == s[i]);
                }
                assert(e =~= s);
            }
        } else {
            if sorted_desc(s) {
                assert(sorted_desc(t));
            }
            if players_unique(s) {
                assert(players_unique(t));
            }
            if forall|i: int| 0 <= i < s.len() ==> (#[trigger] s[i]).player != player {
                assert(s[s.len() - 1].player != player);
            }
        }
    }
}

/// Dropping a player's entries never lengthens the board.
proof fn lemma_drop_player_len(s: Seq<LeaderboardEntry>, player: AccountId)
    ensures
        drop_player(s, player).len() <= s.len(),
    decreases s.len(),
{
    if s.len() > 0 {
        lemma_drop_player_len(s.drop_last(), player);
    }
}

/// Dropping the entries of a player that holds one shortens the board.
proof fn lemma_drop_player_shorter(s: Seq<LeaderboardEntry>, player: AccountId, i: int)
    requires
        0 <= i < s.len(),
        s[i].player == player,
    ensures
        drop_player(s, player).len() < s.len(),
    decreases s.len(),
{
    lemma_drop_player_len(s.drop_last(), player);
    if i < s.len() - 1 {
        assert(s.drop_last()[i] == s[i]);
        lemma_drop_player_shorter(s.drop_last(), player, i);
    }
}

proof fn lemma_full_board_same(s: Seq<LeaderboardEntry>, player: AccountId, score: u64, now: u64)
    requires
        s.len() <= MAX_ENTRIES,
        ranks_match(s),
        insert_pos(drop_player(s, player), score) >= MAX_ENTRIES,
    ensures
        after_submit(s, player, score, now) == s,
        forall|i: int| 0 <= i < s.len() ==> (#[trigger] s[i]).player != player,
{
    let r = drop_player(s, player);
    lemma_insert_pos(r, score);
    let p = insert_pos(r, score);
    assert forall|i: int| 0 <= i < s.len() implies (#[trigger] s[i]).player != player by {
        if s[i].player == player {
            lemma_drop_player_shorter(s, player, i);
        }
    }
    lemma_drop_player_same(s, player);
    assert(p == MAX_ENTRIES);
    let e = LeaderboardEntry { player, score, rank: 0, submitted_at: now };
    let ins = r.insert(p, e);
    assert(ins.take(MAX_ENTRIES as int) =~= s);
    assert forall|i: int| 0 <= i < s.len() implies #[trigger] with_ranks(s)[i] == s[i] by {
        assert(s[i].rank == i + 1);
    }
    assert(with_ranks(s) =~= s);
}

/// Dropping a player that holds no entry changes nothing.
proof fn lemma_drop_player_same(s: Seq<LeaderboardEntry>, player: AccountId)
    requires
        forall|i: int| 0 <= i < s.len() ==> (#[trigger] s[i]).player != player,
    ensures
        drop_player(s, player) == s,
    decreases s.len(),
{
    if s.len() > 0 {
        let t = s.drop_last();
        assert forall|i: int| 0 <= i < t.len() implies (#[trigger] t[i]).player != player by {
            assert(t[i] == s[i]);
        }
        lemma_drop_player_same(t, player);
        assert(s.last().player != player);
        assert(t.push(s.last()) =~= s);
    }
}

/// A score that would fall below a full board of other players leaves the
/// board exactly as it was; the player then holds no entry.
pub proof fn lemma_unranked_keeps_board(s: Seq<LeaderboardEntry>, player: AccountId, score: u64, now: u64)
    requires
        board_wf(s),
        insert_pos(drop_player(s, player), score) >= MAX_ENTRIES,
    ensures
        after_submit(s, player, score, now) == s,
        forall|i: int| 0 <= i < s.len() ==> (#[trigger] s[i]).player != player,
{
    lemma_full_board_same(s, player, score, now);
}

/// A submission keeps a board well formed and places the player's new
/// entry, with its score, at the position its score belongs to.
pub proof fn lemma_submit_keeps_board(s: Seq<LeaderboardEntry>, player: AccountId, score: u64, now: u64)
    requires
        board_wf(s),
        insert_pos(drop_player(s, player), score) < MAX_ENTRIES,
    ensures
        board_wf(after_submit(s, player, score, now)),
        ({
            let b = after_submit(s, player, score, now);
            let p = insert_pos(drop_player(s, player), score);
            &&& 0 <= p < b.len()
            &&& b[p].player == player
            &&& b[p].score == score
            &&& b[p].submitted_at == now
        }),
{
    let r = drop_player(s, player);
    lemma_drop_player(s, player);
    lemma_insert_pos(r, score);
    let p = insert_pos(r, score);
    let e = LeaderboardEntry { player, score, rank: 0, submitted_at: now };
    let ins = r.insert(p, e);
    assert(sorted_desc(ins)) by {
        assert forall|i: int, j: int| 0 <= i < j < ins.len() implies #[trigger] ins[i].score >= #[trigger] ins[j].score by {
            if j < p {
                assert(ins[i] == r[i] && ins[j] == r[j]);
            } else if j == p {
                assert(ins[i] == r[i]);
            } else if i == p {
                assert(ins[j] == r[j - 1]);
                if j - 1 > p {
                    assert(r[p].score >= r[j - 1].score);
                }
            } else if i < p {
                assert(ins[i] == r[i] && ins[j] == r[j - 1]);
            } else {
                assert(ins[i] == r[i - 1] && ins[j] == r[j - 1]);
            }
        }
    }
    assert(players_unique(ins)) by {
        assert forall|i: int, j: int| 0 <= i < j < ins.len() implies #[trigger] ins[i].player != #[trigger] ins[j].player by {
            if j < p {
                assert(ins[i] == r[i] && ins[j] == r[j]);
            } else if j == p {
                assert(ins[i] == r[i]);
            } else if i == p {
                assert(ins[j] == r[j - 1]);
            } else if i < p {
                assert(ins[i] == r[i] && ins[j] == r[j - 1]);
            } else {
                assert(ins[i] == r[i - 1] && ins[j] == r[j - 1]);
            }
        }
    }
    let cut = if ins.len() > MAX_ENTRIES { ins.take(MAX_ENTRIES as int) } else { ins };
    assert(sorted_desc(cut) && players_unique(cut) && cut.len() <= MAX_ENTRIES);
    assert(cut[p] == e);
    let b = with_ranks(cut);
    assert(b[p].player == player);
}

/// Two entries that agree on all but their rank.
pub open spec fn same_entry(a: LeaderboardEntry, b: LeaderboardEntry) -> bool {
    a.player == b.player && a.score == b.score && a.submitted_at == b.submitted_at
}

/// What a submission does to a well-formed board: the board stays well
/// formed; the player's old entry leaves and its new one, with the new score
/// (lower or not), stands where that score belongs, unless a full board of
/// other players all score at least as much, in which case the board is
/// unchanged; the other players' entries keep their relative order, the
/// last one falling off when the board was full.
pub proof fn lemma_submit_replaces_entry(s: Seq<LeaderboardEntry>, player: AccountId, score: u64, now: u64)
    requires
        board_wf(s),
    ensures
        board_wf(after_submit(s, player, score, now)),
        ({
            let b = after_submit(s, player, score, now);
            let r = drop_player(s, player);
            let p = insert_pos(r, score);
            &&& p < MAX_ENTRIES ==> {
                &&& b.len() == if r.len() + 1 > MAX_ENTRIES { MAX_ENTRIES as int } else { r.len() + 1int }
                &&& b[p].player == player && b[p].score == score && b[p].submitted_at == now
                &&& forall|i: int| 0 <= i < b.len() && i != p ==> same_entry(
                    #[trigger] b[i],
                    if i < p { r[i] } else { r[i - 1] },
                )
                &&& forall|i: int| 0 <= i < b.len() && i != p ==> (#[trigger] b[i]).player != player
            }
            &&& p >= MAX_ENTRIES ==> b == s
        }),
{
    let r = drop_player(s, player);
    lemma_insert_pos(r, score);
    let p = insert_pos(r, score);
    if p >= MAX_ENTRIES {
        lemma_unranked_keeps_board(s, player, score, now);
    } else {
        lemma_submit_keeps_board(s, player, score, now);
        lemma_drop_player(s, player);
        let e = LeaderboardEntry { player, score, rank: 0, submitted_at: now };
        let ins = r.insert(p, e);
        let cut = if ins.len() > MAX_ENTRIES { ins.take(MAX_ENTRIES as int) } else { ins };
        let b = with_ranks(cut);
        assert(b == after_submit(s, player, score, now));
        assert forall|i: int| 0 <= i < b.len() && i != p implies same_entry(
            #[trigger] b[i],
            if i < p { r[i] } else { r[i - 1] },
        ) && b[i].player != player by {
            assert(cut[i] == ins[i]);
            if i < p {
                assert(ins[i] == r[i]);
            } else {
                assert(ins[i] == r[i - 1]);
            }
        }
    }
}

/// Dropping a player's entries keeps the order of the others: two entries
/// of the result come from entries of `s` in the same order.
pub proof fn lemma_drop_player_order(s: Seq<LeaderboardEntry>, player: AccountId)
    ensures
        forall|a: int, c: int| 0 <= a < c < drop_player(s, player).len() ==> exists|k1: int, k2: int|
            0 <= k1 < k2 < s.len() && #[trigger] drop_player(s, player)[a] == s[k1] && #[trigger] drop_player(
                s,
                player,
            )[c] == s[k2],
        forall|a: int| 0 <= a < drop_player(s, player).len() ==> exists|k: int|
            0 <= k < s.len() && #[trigger] drop_player(s, player)[a] == s[k],
    decreases s.len(),
{
    if s.len() > 0 {
        let t = s.drop_last();
        lemma_drop_player_order(t, player);
        let d = drop_player(t, player);
        assert forall|a: int| 0 <= a < d.len() implies exists|k: int| 0 <= k < s.len() && #[trigger] d[a] == s[k] by {
            let k = choose|k: int| 0 <= k < t.len() && d[a] == t[k];
            assert(d[a] == s[k]);
        }
        assert forall|a: int, c: int| 0 <= a < c < d.len() implies exists|k1: int, k2: int|
            0 <= k1 < k2 < s.len() && #[trigger] d[a] == s[k1] && #[trigger] d[c] == s[k2] by {
            let (k1, k2) = choose|k1: int, k2: int| 0 <= k1 < k2 < t.len() && d[a] == t[k1] && d[c] == t[k2];
            assert(d[a] == s[k1] && d[c] == s[k2]);
        }
        if s.last().player != player {
            let e = d.push(s.last());
            assert(e == drop_player(s, player));
            assert forall|a: int| 0 <= a < e.len() implies exists|k: int| 0 <= k < s.len() && #[trigger] e[a] == s[k] by {
                if a < d.len() {
                    assert(e[a] == d[a]);
                } else {
                    assert(e[a] == s[s.len() - 1]);
                }
            }
            assert forall|a: int, c: int| 0 <= a < c < e.len() implies exists|k1: int, k2: int|
                0 <= k1 < k2 < s.len() && #[trigger] e[a] == s[k1] && #[trigger] e[c] == s[k2] by {
                if c < d.len() {
                    let (k1, k2) = choose|k1: int, k2: int| 0 <= k1 < k2 < s.len() && d[a] == s[k1] && d[c] == s[k2];
                    assert(e[a] == s[k1] && e[c] == s[k2]);
                } else {
                    let k1 = choose|k: int| 0 <= k < s.len() && d[a] == s[k];
                    let k = choose|k: int| 0 <= k < t.len() && d[a] == t[k];
                    assert(e[a] == s[k] && e[c] == s[s.len() - 1]);
                }
            }
        }
    }
}

/// The submission law in terms of the board before: entries of two other
/// players that both stay on the board keep the order they had.
pub proof fn lemma_submit_keeps_others_in_order(s: Seq<LeaderboardEntry>, player: AccountId, score: u64, now: u64)
    requires
        board_wf(s),
    ensures
        ({
            let b = after_submit(s, player, score, now);
            forall|i: int, j: int|
                0 <= i < j < b.len() && b[i].player != player && b[j].player != player ==> exists|k1: int, k2: int|
                    0 <= k1 < k2 < s.len() && same_entry(#[trigger] b[i], s[k1]) && same_entry(#[trigger] b[j], s[k2])
        }),
{
    lemma_submit_replaces_entry(s, player, score, now);
    lemma_drop_player_order(s, player);
    let b = after_submit(s, player, score, now);
    let r = drop_player(s, player);
    lemma_insert_pos(r, score);
    let p = insert_pos(r, score);
    assert forall|i: int, j: int|
        0 <= i < j < b.len() && b[i].player != player && b[j].player != player implies exists|k1: int, k2: int|
            0 <= k1 < k2 < s.len() && same_entry(#[trigger] b[i], s[k1]) && same_entry(#[trigger] b[j], s[k2]) by {
        if p >= MAX_ENTRIES {
            assert(same_entry(b[i], s[i]) && same_entry(b[j], s[j]));
        } else {
            assert(i != p && j != p);
            let a = if i < p { i } else { i - 1 };
            let c = if j < p { j } else { j - 1 };
            assert(b.len() <= r.len() + 1);
            assert(0 <= a < c < r.len());
            assert(same_entry(b[i], r[a]) && same_entry(b[j], r[c]));
            assert(drop_player(s, player)[a] == r[a] && drop_player(s, player)[c] == r[c]);
            assert(exists|k1: int, k2: int| 0 <= k1 < k2 < s.len() && #[trigger] drop_player(s, player)[a] == s[k1]
                && #[trigger] drop_player(s, player)[c] == s[k2]);
            let (k1, k2) = choose|k1: int, k2: int| 0 <= k1 < k2 < s.len() && r[a] == s[k1] && r[c] == s[k2];
            assert(same_entry(b[i], s[k1]) && same_entry(b[j], s[k2]));
        }
    }
}

impl LeaderboardPeriod {
    pub open spec fn same(&self, other: &LeaderboardPeriod) -> bool {
        &&& self.period_id == other.period_id
        &&& self.context@ == other.context@
        &&& self.entries@ == other.entries@
        &&& self.finalized == other.finalized
        &&& self.finalized_at == other.finalized_at
    }

    pub fn copy(&self) -> (r: LeaderboardPeriod)
        ensures
            r.same(self),
    {
        LeaderboardPeriod {
            period_id: self.period_id,
            context: self.context.clone(),
            entries: crate::util::copy_vec(&self.entries),
            finalized: self.finalized,
            finalized_at: self.finalized_at,
        }
    }
}

/// The period ids recorded under `context`, in the order they were created.
pub open spec fn periods_of(s: Seq<ContextPeriod>, context: Seq<char>) -> Seq<u32>
    decreases s.len(),
{
    if s.len() == 0 {
        Seq::empty()
    } else if s.last().context@ == context {
        periods_of(s.drop_last(), context).push(s.last().period_id)
    } else {
        periods_of(s.drop_last(), context)
    }
}

/// The entries of `s` other than those of `player`.
fn drop_player_exec(s: &Vec<LeaderboardEntry>, player: AccountId) -> (r: Vec<LeaderboardEntry>)
    ensures
        r@ == drop_player(s@, player),
{
    let mut r: Vec<LeaderboardEntry> = Vec::new();
    let mut i: usize = 0;
    while i < s.len()
        invariant
            i <= s.len(),
            r@ == drop_player(s@.take(i as int), player),
        decreases s.len() - i,
    {
        assert(s@.take(i as int + 1).drop_last() =~= s@.take(i as int));
        assert(s@.take(i as int + 1).last() == s@[i as int]);
        if s[i].player != player {
            r.push(s[i]);
        }
        i = i + 1;
    }
    assert(s@.take(s.len() as int) =~= s@);
    r
}

/// The board after a submission, or `None` where the new entry would fall
/// off a full board.
fn submit_entries(s: &Vec<LeaderboardEntry>, player: AccountId, score: u64, now: u64) -> (r: Option<
    Vec<LeaderboardEntry>,
>)
    ensures
        match r {
            Some(v) => insert_pos(drop_player(s@, player), score) < MAX_ENTRIES && v@ == after_submit(
                s@,
                player,
                score,
                now,
            ),
            None => insert_pos(drop_player(s@, player), score) >= MAX_ENTRIES,
        },
{
    let mut rest = drop_player_exec(s, player);
    let mut pos: usize = 0;
    while pos < rest.len() && !(score > rest[pos].score)
        invariant
            pos <= rest.len(),
            forall|j: int| 0 <= j < pos ==> #[trigger] rest@[j].score >= score,
        decreases rest.len() - pos,
    {
        pos = pos + 1;
    }
    proof {
        assert(is_insert_pos(rest@, score, pos as int));
        lemma_insert_pos(rest@, score);
    }
    if pos >= 100 {
        return None;
    }
    let ghost r0 = rest@;
    let ghost ins = r0.insert(pos as int, LeaderboardEntry { player, score, rank: 0, submitted_at: now });
    rest.insert(pos, LeaderboardEntry { player, score, rank: 0, submitted_at: now });
    assert(rest@ =~= ins.take(rest@.len() as int));
    while rest.len() > 100
        invariant
            rest@.len() <= ins.len(),
            rest@ == ins.take(rest@.len() as int),
            ins.len() <= MAX_ENTRIES ==> rest@.len() == ins.len(),
            ins.len() > MAX_ENTRIES ==> rest@.len() >= MAX_ENTRIES,
        decreases rest.len(),
    {
        let ghost before = rest@;
        rest.pop();
        assert(rest@ =~= ins.take(rest@.len() as int));
    }
    let ghost cut = if ins.len() > MAX_ENTRIES { ins.take(MAX_ENTRIES as int) } else { ins };
    assert(rest@ =~= cut);
    let mut out: Vec<LeaderboardEntry> = Vec::new();
    let mut i: usize = 0;
    while i < rest.len()
        invariant
            i <= rest.len(),
            rest.len() <= 100,
            out@ == with_ranks(rest@).take(i as int),
        decreases rest.len() - i,
    {
        let e = rest[i];
        out.push(LeaderboardEntry { player: e.player, score: e.score, rank: (i + 1) as u32, submitted_at: e.submitted_at });
        i = i + 1;
        assert(out@ =~= with_ranks(rest@).take(i as int));
    }
    assert(with_ranks(rest@).take(rest.len() as int) =~= with_ranks(rest@));
    Some(out)
}

impl ImmutableLeaderboard {
    /// Every board is well formed.
    pub open spec fn wf(&self) -> bool {
        forall|id: u32| #[trigger] self.periods@.contains_key(id) ==> board_wf(self.periods@[id].entries@)
    }

    /// An empty contract.
    pub fn new() -> (r: Self)
        ensures
            r.config is None,
            r.periods@ == Map::<u32, LeaderboardPeriod>::empty(),
            r.periods_by_context@ == Seq::<ContextPeriod>::empty(),
            r.wf(),
    {
        ImmutableLeaderboard { config: None, periods: HashMap::new(), periods_by_context: Vec::new() }
    }

    /// Stores the admin and the oracle.
    pub fn initialize(&mut self, admin: AccountId, oracle: AccountId) -> (r: Result<(), LeaderboardError>)
        requires
            old(self).wf(),
        ensures
            final(self).wf(),
            old(self).config is Some ==> r == Err::<(), LeaderboardError>(LeaderboardError::AlreadyInitialized)
                && *final(self) == *old(self),
            old(self).config is None ==> r is Ok && final(self).config == Some(Config { admin, oracle })
                && final(self).periods@ == old(self).periods@ && final(self).periods_by_context@ == old(self).periods_by_context@,
    {
        if self.config.is_some() {
            return Err(LeaderboardError::AlreadyInitialized);
        }
        self.config = Some(Config { admin, oracle });
        Ok(())
    }

    /// The error of `submit_score`, checked in the order of the contract.
    pub open spec fn submit_error(&self, period_id: u32, player: AccountId, score: u64) -> Option<LeaderboardError> {
        if self.config is None {
            Some(LeaderboardError::NotInitialized)
        } else if !self.periods@.contains_key(period_id) {
            Some(LeaderboardError::PeriodNotFound)
        } else if self.periods@[period_id].finalized {
            Some(LeaderboardError::PeriodFinalized)
        } else if insert_pos(drop_player(self.periods@[period_id].entries@, player), score) >= MAX_ENTRIES {
            Some(LeaderboardError::NotRanked)
        } else {
            None
        }
    }

    /// Records `score` for `player` in an open period (the oracle's call):
    /// the player's previous entry is replaced and the board re-sorted, cut
    /// and ranked. A score below a full board of others is refused, since the
    /// player would hold no entry.
    pub fn submit_score(&mut self, period_id: u32, player: AccountId, score: u64, now: u64) -> (r: Result<
        (),
        LeaderboardError,
    >)
        requires
            old(self).wf(),
        ensures
            final(self).wf(),
            match old(self).submit_error(period_id, player, score) {
                Some(e) => r == Err::<(), LeaderboardError>(e) && *final(self) == *old(self),
                None => {
                    let p = old(self).periods@[period_id];
                    &&& r is Ok
                    &&& final(self).periods@.dom() == old(self).periods@.dom()
                    &&& final(self).periods@[period_id].entries@ == after_submit(p.entries@, player, score, now)
                    &&& final(self).periods@[period_id].period_id == p.period_id
                    &&& final(self).periods@[period_id].context == p.context
                    &&& !final(self).periods@[period_id].finalized
                    &&& final(self).periods@[period_id].finalized_at == p.finalized_at
                    &&& forall|id: u32| id != period_id && #[trigger] old(self).periods@.contains_key(id)
                        ==> final(self).periods@[id] == old(self).periods@[id]
                    &&& final(self).config == old(self).config
                    &&& final(self).periods_by_context@ == old(self).periods_by_context@
                },
            },
    {
        if self.config.is_none() {
            return Err(LeaderboardError::NotInitialized);
        }
        let entries = match self.periods.get(&period_id) {
            Some(p) => {
                if p.finalized {
                    return Err(LeaderboardError::PeriodFinalized);
                }
                submit_entries(&p.entries, player, score, now)
            },
            None => return Err(LeaderboardError::PeriodNotFound),
        };
        let ghost old_periods = self.periods@;
        let entries = match entries {
            Some(v) => v,
            None => return Err(LeaderboardError::NotRanked),
        };
        proof {
            lemma_submit_keeps_board(old_periods[period_id].entries@, player, score, now);
        }
        let mut period = self.periods.remove(&period_id).unwrap();
        period.entries = entries;
        self.periods.insert(period_id, period);
        assert(self.periods@.dom() =~= old_periods.dom());
        assert forall|id: u32| #[trigger] self.periods@.contains_key(id) implies board_wf(self.periods@[id].entries@) by {
            if id != period_id {
                assert(old_periods.contains_key(id));
            }
        }
        Ok(())
    }

    /// The error of the admin's calls.
    pub open spec fn admin_error(&self, admin: AccountId) -> Option<LeaderboardError> {
        if self.config is None {
            Some(LeaderboardError::NotInitialized)
        } else if self.config.unwrap().admin != admin {
            Some(LeaderboardError::AdminOnly)
        } else {
            None
        }
    }

    /// Closes a period for good at time `now`; the admin only.
    pub fn finalize_period(&mut self, admin: AccountId, period_id: u32, now: u64) -> (r: Result<(), LeaderboardError>)
        requires
            old(self).wf(),
        ensures
            r is Ok ==> forall|p: AccountId, s: u64| #[trigger] final(self).submit_error(period_id, p, s) is Some,
            final(self).wf(),
            match (if old(self).admin_error(admin) is Some {
                old(self).admin_error(admin)
            } else if !old(self).periods@.contains_key(period_id) {
                Some(LeaderboardError::PeriodNotFound)
            } else if old(self).periods@[period_id].finalized {
                Some(LeaderboardError::AlreadyFinalized)
            } else {
                None
            }) {
                Some(e) => r == Err::<(), LeaderboardError>(e) && *final(self) == *old(self),
                None => {
                    let p = old(self).periods@[period_id];
                    &&& r is Ok
                    &&& final(self).periods@ == old(self).periods@.insert(
                        period_id,
                        LeaderboardPeriod {
                            period_id: p.period_id,
                            context: p.context,
                            entries: p.entries,
                            finalized: true,
                            finalized_at: Some(now),
                        },
                    )
                    &&& final(self).config == old(self).config
                    &&& final(self).periods_by_context@ == old(self).periods_by_context@
                },
            },
    {
        let cfg = match self.config {
            Some(c) => c,
            None => return Err(LeaderboardError::NotInitialized),
        };
        if cfg.admin != admin {
            return Err(LeaderboardError::AdminOnly);
        }
        match self.periods.get(&period_id) {
            Some(p) => {
                if p.finalized {
                    return Err(LeaderboardError::AlreadyFinalized);
                }
            },
            None => return Err(LeaderboardError::PeriodNotFound),
        }
        let ghost old_periods = self.periods@;
        let mut period = self.periods.remove(&period_id).unwrap();
        period.finalized = true;
        period.finalized_at = Some(now);
        self.periods.insert(period_id, period);
        assert forall|id: u32| #[trigger] self.periods@.contains_key(id) implies board_wf(self.periods@[id].entries@) by {
            assert(old_periods.contains_key(id));
        }
        Ok(())
    }

    /// Opens an empty period under `context`; the admin only.
    pub fn create_period(&mut self, admin: AccountId, period_id: u32, context: String) -> (r: Result<
        (),
        LeaderboardError,
    >)
        requires
            old(self).wf(),
        ensures
            final(self).wf(),
            match (if old(self).admin_error(admin) is Some {
                old(self).admin_error(admin)
            } else if old(self).periods@.contains_key(period_id) {
                Some(LeaderboardError::PeriodExists)
            } else {
                None
            }) {
                Some(e) => r == Err::<(), LeaderboardError>(e) && *final(self) == *old(self),
                None => {
                    &&& r is Ok
                    &&& final(self).periods@.dom() == old(self).periods@.dom().insert(period_id)
                    &&& final(self).periods@[period_id].period_id == period_id
                    &&& final(self).periods@[period_id].context@ == context@
                    &&& final(self).periods@[period_id].entries@.len() == 0
                    &&& !final(self).periods@[period_id].finalized
                    &&& final(self).periods@[period_id].finalized_at is None
                    &&& forall|id: u32| id != period_id && #[trigger] old(self).periods@.contains_key(id)
                        ==> final(self).periods@[id] == old(self).periods@[id]
                    &&& forall|c: Seq<char>| #[trigger] periods_of(final(self).periods_by_context@, c) == if c
                        == context@ {
                        periods_of(old(self).periods_by_context@, c).push(period_id)
                    } else {
                        periods_of(old(self).periods_by_context@, c)
                    }
                    &&& final(self).config == old(self).config
                },
            },
    {
        let cfg = match self.config {
            Some(c) => c,
            None => return Err(LeaderboardError::NotInitialized),
        };
        if cfg.admin != admin {
            return Err(LeaderboardError::AdminOnly);
        }
        if self.periods.contains_key(&period_id) {
            return Err(LeaderboardError::PeriodExists);
        }
        let ghost old_periods = self.periods@;
        let ghost old_index = self.periods_by_context@;
        let period = LeaderboardPeriod {
            period_id,
            context: context.clone(),
            entries: Vec::new(),
            finalized: false,
            finalized_at: None,
        };
        self.periods.insert(period_id, period);
        self.periods_by_context.push(ContextPeriod { context, period_id });
        assert(self.periods_by_context@.drop_last() =~= old_index);
        assert(self.periods@.dom() =~= old_periods.dom().insert(period_id));
        assert forall|id: u32| #[trigger] self.periods@.contains_key(id) implies board_wf(self.periods@[id].entries@) by {
            if id != period_id {
                assert(old_periods.contains_key(id));
            }
        }
        Ok(())
    }

    /// A copy of the period `period_id`.
    pub fn get_leaderboard(&self, period_id: u32) -> (r: Result<LeaderboardPeriod, LeaderboardError>)
        ensures
            self.periods@.contains_key(period_id) ==> r is Ok && r.unwrap().same(&self.periods@[period_id]),
            !self.periods@.contains_key(period_id) ==> r matches Err(LeaderboardError::PeriodNotFound),
    {
        match self.periods.get(&period_id) {
            Some(p) => Ok(p.copy()),
            None => Err(LeaderboardError::PeriodNotFound),
        }
    }

    /// The 1-based position and score of `player` in the period, if ranked.
    pub fn get_player_rank(&self, period_id: u32, player: AccountId) -> (r: Result<
        Option<(u32, u64)>,
        LeaderboardError,
    >)
        requires
            self.wf(),
        ensures
            !self.periods@.contains_key(period_id) ==> r matches Err(LeaderboardError::PeriodNotFound),
            self.periods@.contains_key(period_id) ==> {
                let s = self.periods@[period_id].entries@;
                &&& r is Ok
                &&& match r.unwrap() {
                    Some((rank, score)) => {
                        let i = rank - 1;
                        &&& 0 <= i < s.len()
                        &&& s[i].player == player
                        &&& s[i].score == score
                        &&& forall|j: int| 0 <= j < i ==> #[trigger] s[j].player != player
                    },
                    None => forall|j: int| 0 <= j < s.len() ==> #[trigger] s[j].player != player,
                }
            },
    {
        let p = match self.periods.get(&period_id) {
            Some(p) => p,
            None => return Err(LeaderboardError::PeriodNotFound),
        };
        assert(self.periods@.contains_key(period_id));
        assert(board_wf(self.periods@[period_id].entries@));
        let mut i: usize = 0;
        while i < p.entries.len()
            invariant
                i <= p.entries.len(),
                self.periods@.contains_key(period_id),
                p.entries@ == self.periods@[period_id].entries@,
                p.entries@.len() <= MAX_ENTRIES,
                forall|j: int| 0 <= j < i ==> #[trigger] p.entries@[j].player != player,
            decreases p.entries.len() - i,
        {
            if p.entries[i].player == player {
                return Ok(Some(((i + 1) as u32, p.entries[i].score)));
            }
            i = i + 1;
        }
        Ok(None)
    }

    /// The periods created under `context`, in order.
    pub fn get_all_periods(&self, context: String) -> (r: Vec<u32>)
        ensures
            r@ == periods_of(self.periods_by_context@, context@),
    {
        let s = &self.periods_by_context;
        let mut r: Vec<u32> = Vec::new();
        let mut i: usize = 0;
        while i < s.len()
            invariant
                i <= s.len(),
                r@ == periods_of(s@.take(i as int), context@),
            decreases s.len() - i,
        {
            assert(s@.take(i as int + 1).drop_last() =~= s@.take(i as int));
            if s[i].context == context {
                r.push(s[i].period_id);
            }
            i = i + 1;
        }
        assert(s@.take(s.len() as int) =~= s@);
        r
    }
}

} // verus!
