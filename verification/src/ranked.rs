//! Ranked champion statistics: the built-in sample, lane filtering and the
//! ranking order.
//!
//! Rates are percentages in tenths (`51.6%` is `516`); the overall score is
//! in tenths too.

use vstd::prelude::*;

use crate::order::{
    lemma_lex_asymmetric, lemma_lex_irreflexive, lemma_lex_total, lemma_lex_transitive, lex_lt,
    str_lt,
};
use crate::text::str_eq;

verus! {

#[derive(Debug, Clone, Copy, PartialEq, Eq, Structural)]
pub enum RankedChampionLane {
    Top,
    Jungle,
    Middle,
    Bottom,
    Support,
}

impl RankedChampionLane {
    pub open spec fn spec_as_str(self) -> Seq<char> {
        match self {
            RankedChampionLane::Top => "top"@,
            RankedChampionLane::Jungle => "jungle"@,
            RankedChampionLane::Middle => "middle"@,
            RankedChampionLane::Bottom => "bottom"@,
            RankedChampionLane::Support => "support"@,
        }
    }

    pub open spec fn spec_parse(value: Seq<char>) -> Option<RankedChampionLane> {
        if value == "top"@ {
            Some(RankedChampionLane::Top)
        } else if value == "jungle"@ {
            Some(RankedChampionLane::Jungle)
        } else if value == "middle"@ {
            Some(RankedChampionLane::Middle)
        } else if value == "bottom"@ {
            Some(RankedChampionLane::Bottom)
        } else if value == "support"@ {
            Some(RankedChampionLane::Support)
        } else {
            None
        }
    }

    pub fn as_str(self) -> (r: &'static str)
        ensures
            r@ == self.spec_as_str(),
    {
        match self {
            RankedChampionLane::Top => "top",
            RankedChampionLane::Jungle => "jungle",
            RankedChampionLane::Middle => "middle",
            RankedChampionLane::Bottom => "bottom",
            RankedChampionLane::Support => "support",
        }
    }

    pub fn parse(value: &str) -> (r: Option<RankedChampionLane>)
        ensures
            r == RankedChampionLane::spec_parse(value@),
    {
        if str_eq(value, "top") {
            Some(RankedChampionLane::Top)
        } else if str_eq(value, "jungle") {
            Some(RankedChampionLane::Jungle)
        } else if str_eq(value, "middle") {
            Some(RankedChampionLane::Middle)
        } else if str_eq(value, "bottom") {
            Some(RankedChampionLane::Bottom)
        } else if str_eq(value, "support") {
            Some(RankedChampionLane::Support)
        } else {
            None
        }
    }
}

#[derive(Debug, Clone, Copy, PartialEq, Eq, Structural)]
pub enum RankedChampionSort {
    Overall,
    WinRate,
    BanRate,
    PickRate,
}

#[derive(Debug, Clone, Copy, PartialEq, Eq, Structural)]
pub enum RankedChampionDataStatus {
    Sample,
    Cached,
    Fresh,
    StaleCache,
}

#[derive(Debug, Clone, PartialEq, Eq)]
pub struct RankedChampionStat {
    pub champion_id: i64,
    pub champion_name: String,
    pub champion_alias: Option<String>,
    pub lane: RankedChampionLane,
    /// Percent, in tenths.
    pub win_rate: i64,
    /// Percent, in tenths.
    pub pick_rate: i64,
    /// Percent, in tenths.
    pub ban_rate: i64,
    /// In tenths.
    pub overall_score: i64,
    pub games: i64,
    pub wins: i64,
    pub picks: i64,
    pub bans: i64,
}

#[derive(Debug, Clone, PartialEq, Eq)]
pub struct RankedChampionDataSnapshot {
    pub source: String,
    pub patch: Option<String>,
    pub region: Option<String>,
    pub queue: Option<String>,
    pub tier: Option<String>,
    pub generated_at: Option<String>,
    pub imported_at: String,
    pub records: Vec<RankedChampionStat>,
}

#[derive(Debug, Clone, PartialEq, Eq)]
pub struct RankedChampionStatsResponse {
    pub lane: Option<RankedChampionLane>,
    pub sort_by: RankedChampionSort,
    pub records: Vec<RankedChampionStat>,
    pub source: String,
    pub updated_at: String,
    pub generated_at: Option<String>,
    pub imported_at: Option<String>,
    pub patch: Option<String>,
    pub region: Option<String>,
    pub queue: Option<String>,
    pub tier: Option<String>,
    pub is_cached: bool,
    pub data_status: RankedChampionDataStatus,
    pub status_message: Option<String>,
}

#[derive(Debug, Clone, PartialEq, Eq)]
pub struct RankedChampionStatsInput {
    pub lane: Option<RankedChampionLane>,
    pub sort_by: Option<RankedChampionSort>,
}

#[derive(Debug, Clone, PartialEq, Eq)]
pub struct RankedChampionRefreshInput {
    pub url: Option<String>,
}

pub fn clone_opt_string(o: &Option<String>) -> (r: Option<String>)
    ensures
        r == *o,
{
    match o {
        Some(s) => Some(s.clone()),
        None => None,
    }
}

pub fn clone_stat(s: &RankedChampionStat) -> (r: RankedChampionStat)
    ensures
        r == *s,
{
    RankedChampionStat {
        champion_id: s.champion_id,
        champion_name: s.champion_name.clone(),
        champion_alias: clone_opt_string(&s.champion_alias),
        lane: s.lane,
        win_rate: s.win_rate,
        pick_rate: s.pick_rate,
        ban_rate: s.ban_rate,
        overall_score: s.overall_score,
        games: s.games,
        wins: s.wins,
        picks: s.picks,
        bans: s.bans,
    }
}

// ---------------------------------------------------------------------------
// Lane filter

pub open spec fn lane_matches(lane: Option<RankedChampionLane>, s: RankedChampionStat) -> bool {
    match lane {
        None => true,
        Some(l) => s.lane == l,
    }
}

/// The records of `records` in `lane` (all of them when no lane is given), in
/// their order.
pub open spec fn lane_filter(records: Seq<RankedChampionStat>, lane: Option<RankedChampionLane>) -> Seq<
    RankedChampionStat,
>
    decreases records.len(),
{
    if records.len() == 0 {
        Seq::empty()
    } else {
        let rest = lane_filter(records.drop_last(), lane);
        if lane_matches(lane, records.last()) {
            rest.push(records.last())
        } else {
            rest
        }
    }
}

pub fn filter_by_lane(records: &Vec<RankedChampionStat>, lane: Option<RankedChampionLane>) -> (r: Vec<
    RankedChampionStat,
>)
    ensures
        r@ == lane_filter(records@, lane),
{
    let mut out: Vec<RankedChampionStat> = Vec::new();
    let mut i: usize = 0;
    while i < records.len()
        invariant
            i <= records.len(),
            out@ == lane_filter(records@.take(i as int), lane),
        decreases records.len() - i,
    {
        proof {
            assert(records@.take(i + 1).drop_last() == records@.take(i as int));
        }
        let keep = match lane {
            None => true,
            Some(l) => records[i].lane == l,
        };
        if keep {
            out.push(clone_stat(&records[i]));
        }
        i = i + 1;
    }
    proof {
        assert(records@.take(records@.len() as int) == records@);
    }
    out
}

// ---------------------------------------------------------------------------
// Ranking order

pub open spec fn sort_value(s: RankedChampionStat, sort_by: RankedChampionSort) -> int {
    match sort_by {
        RankedChampionSort::Overall => s.overall_score as int,
        RankedChampionSort::WinRate => s.win_rate as int,
        RankedChampionSort::BanRate => s.ban_rate as int,
        RankedChampionSort::PickRate => s.pick_rate as int,
    }
}

/// `a` is listed before `b`: a higher value of the chosen metric, then a
/// higher overall score, then the champion name in alphabetical order.
pub open spec fn ranks_before(a: RankedChampionStat, b: RankedChampionStat, sort_by: RankedChampionSort) -> bool {
    ||| sort_value(a, sort_by) > sort_value(b, sort_by)
    ||| (sort_value(a, sort_by) == sort_value(b, sort_by) && a.overall_score > b.overall_score)
    ||| (sort_value(a, sort_by) == sort_value(b, sort_by) && a.overall_score == b.overall_score
        && lex_lt(a.champion_name@, b.champion_name@))
}

/// `a` and `b` tie in the ranking order.
pub open spec fn same_rank(a: RankedChampionStat, b: RankedChampionStat, sort_by: RankedChampionSort) -> bool {
    &&& sort_value(a, sort_by) == sort_value(b, sort_by)
    &&& a.overall_score == b.overall_score
    &&& a.champion_name@ == b.champion_name@
}

pub proof fn lemma_rank_asymmetric(a: RankedChampionStat, b: RankedChampionStat, sort_by: RankedChampionSort)
    requires
        ranks_before(a, b, sort_by),
    ensures
        !ranks_before(b, a, sort_by),
        !same_rank(a, b, sort_by),
{
    if sort_value(a, sort_by) == sort_value(b, sort_by) && a.overall_score == b.overall_score {
        lemma_lex_asymmetric(a.champion_name@, b.champion_name@);
        if a.champion_name@ == b.champion_name@ {
            lemma_lex_irreflexive(a.champion_name@);
        }
    }
}

pub proof fn lemma_rank_transitive(
    a: RankedChampionStat,
    b: RankedChampionStat,
    c: RankedChampionStat,
    sort_by: RankedChampionSort,
)
    requires
        ranks_before(a, b, sort_by),
        ranks_before(b, c, sort_by),
    ensures
        ranks_before(a, c, sort_by),
{
    if sort_value(a, sort_by) == sort_value(b, sort_by) && sort_value(b, sort_by) == sort_value(
        c,
        sort_by,
    ) && a.overall_score == b.overall_score && b.overall_score == c.overall_score {
        lemma_lex_transitive(a.champion_name@, b.champion_name@, c.champion_name@);
    }
}

pub proof fn lemma_rank_total(a: RankedChampionStat, b: RankedChampionStat, sort_by: RankedChampionSort)
    ensures
        ranks_before(a, b, sort_by) || ranks_before(b, a, sort_by) || same_rank(a, b, sort_by),
{
    lemma_lex_total(a.champion_name@, b.champion_name@);
}

proof fn lemma_not_before_transitive(
    a: RankedChampionStat,
    b: RankedChampionStat,
    c: RankedChampionStat,
    sort_by: RankedChampionSort,
)
    requires
        !ranks_before(a, b, sort_by),
        !ranks_before(b, c, sort_by),
    ensures
        !ranks_before(a, c, sort_by),
{
    lemma_rank_total(a, b, sort_by);
    lemma_rank_total(b, c, sort_by);
    if ranks_before(a, c, sort_by) {
        if ranks_before(b, a, sort_by) {
            lemma_rank_transitive(b, a, c, sort_by);
            lemma_rank_asymmetric(b, c, sort_by);
        } else {
            // a and b tie, so b ranks before c as a does
            assert(ranks_before(b, c, sort_by));
        }
    }
}

/// No record of `s` ranks before an earlier one.
pub open spec fn sorted_by_rank(s: Seq<RankedChampionStat>, sort_by: RankedChampionSort) -> bool {
    forall|i: int, j: int| 0 <= i < j < s.len() ==> !ranks_before(#[trigger] s[j], #[trigger] s[i], sort_by)
}

/// `perm` lists each of `0..n` once.
pub open spec fn is_permutation(perm: Seq<int>, n: int) -> bool {
    &&& perm.len() == n
    &&& forall|i: int| 0 <= i < n ==> 0 <= #[trigger] perm[i] < n
    &&& forall|i: int, j: int| 0 <= i < j < n ==> #[trigger] perm[i] != #[trigger] perm[j]
}

/// `out` holds the records of `inp`, each once, sorted by rank, with tied
/// records in their order in `inp`.
pub open spec fn is_stable_rank_sort(
    out: Seq<RankedChampionStat>,
    inp: Seq<RankedChampionStat>,
    sort_by: RankedChampionSort,
) -> bool {
    exists|perm: Seq<int>|
        {
            &&& is_permutation(perm, inp.len() as int)
            &&& out.len() == inp.len()
            &&& forall|i: int| 0 <= i < out.len() ==> #[trigger] out[i] == inp[perm[i]]
            &&& sorted_by_rank(out, sort_by)
            &&& forall|i: int, j: int|
                0 <= i < j < out.len() && same_rank(#[trigger] out[i], #[trigger] out[j], sort_by)
                    ==> perm[i] < perm[j]
        }
}

/// Index `i` of `inp` is listed before index `j` by a stable rank sort: it
/// ranks before, or it ties and comes first.
pub open spec fn index_before(inp: Seq<RankedChampionStat>, i: int, j: int, sort_by: RankedChampionSort) -> bool {
    ||| ranks_before(inp[i], inp[j], sort_by)
    ||| (same_rank(inp[i], inp[j], sort_by) && i < j)
}

proof fn lemma_index_before_asymmetric(
    inp: Seq<RankedChampionStat>,
    i: int,
    j: int,
    sort_by: RankedChampionSort,
)
    requires
        index_before(inp, i, j, sort_by),
    ensures
        !index_before(inp, j, i, sort_by),
{
    if ranks_before(inp[i], inp[j], sort_by) {
        lemma_rank_asymmetric(inp[i], inp[j], sort_by);
    } else {
        lemma_lex_irreflexive(inp[i].champion_name@);
    }
}

/// A permutation of `0..n` holds every index.
proof fn lemma_permutation_onto(perm: Seq<int>, n: int, x: int)
    requires
        is_permutation(perm, n),
        0 <= x < n,
    ensures
        exists|q: int| 0 <= q < n && perm[q] == x,
{
    broadcast use vstd::seq_lib::group_seq_properties;
    broadcast use vstd::set::group_set_axioms;

    assert(perm.no_duplicates()) by {
        assert forall|i: int, j: int| 0 <= i < perm.len() && 0 <= j < perm.len() && i != j implies perm[i]
            != perm[j] by {
            if i < j {
                assert(perm[i] != perm[j]);
            } else {
                assert(perm[j] != perm[i]);
            }
        }
    }
    perm.unique_seq_to_set();
    vstd::set_lib::lemma_int_range(0, n);
    let range = vstd::set_lib::set_int_range(0, n);
    assert(perm.to_set().subset_of(range)) by {
        assert forall|v: int| perm.to_set().contains(v) implies range.contains(v) by {
            assert(perm.contains(v));
            let q = choose|q: int| 0 <= q < perm.len() && perm[q] == v;
            assert(0 <= perm[q] < n);
        }
    }
    vstd::set_lib::lemma_subset_equality(perm.to_set(), range);
    assert(range.contains(x));
    assert(perm.to_set().contains(x));
    assert(perm.contains(x));
}

/// The positions of a stable rank sort follow `index_before`.
proof fn lemma_stable_sort_order(
    out: Seq<RankedChampionStat>,
    inp: Seq<RankedChampionStat>,
    perm: Seq<int>,
    sort_by: RankedChampionSort,
    u: int,
    v: int,
)
    requires
        is_permutation(perm, inp.len() as int),
        out.len() == inp.len(),
        forall|i: int| 0 <= i < out.len() ==> #[trigger] out[i] == inp[perm[i]],
        sorted_by_rank(out, sort_by),
        forall|i: int, j: int|
            0 <= i < j < out.len() && same_rank(#[trigger] out[i], #[trigger] out[j], sort_by)
                ==> perm[i] < perm[j],
        0 <= u < v < out.len(),
    ensures
        index_before(inp, perm[u], perm[v], sort_by),
{
    assert(out[u] == inp[perm[u]]);
    assert(out[v] == inp[perm[v]]);
    assert(!ranks_before(out[v], out[u], sort_by));
    lemma_rank_total(out[u], out[v], sort_by);
}

/// A stable rank sort of a sequence is unique: any two are the same
/// sequence.
pub proof fn lemma_stable_rank_sort_unique(
    out1: Seq<RankedChampionStat>,
    out2: Seq<RankedChampionStat>,
    inp: Seq<RankedChampionStat>,
    sort_by: RankedChampionSort,
)
    requires
        is_stable_rank_sort(out1, inp, sort_by),
        is_stable_rank_sort(out2, inp, sort_by),
    ensures
        out1 == out2,
{
    let p1 = choose|perm: Seq<int>|
        {
            &&& is_permutation(perm, inp.len() as int)
            &&& out1.len() == inp.len()
            &&& forall|i: int| 0 <= i < out1.len() ==> #[trigger] out1[i] == inp[perm[i]]
            &&& sorted_by_rank(out1, sort_by)
            &&& forall|i: int, j: int|
                0 <= i < j < out1.len() && same_rank(#[trigger] out1[i], #[trigger] out1[j], sort_by)
                    ==> perm[i] < perm[j]
        };
    let p2 = choose|perm: Seq<int>|
        {
            &&& is_permutation(perm, inp.len() as int)
            &&& out2.len() == inp.len()
            &&& forall|i: int| 0 <= i < out2.len() ==> #[trigger] out2[i] == inp[perm[i]]
            &&& sorted_by_rank(out2, sort_by)
            &&& forall|i: int, j: int|
                0 <= i < j < out2.len() && same_rank(#[trigger] out2[i], #[trigger] out2[j], sort_by)
                    ==> perm[i] < perm[j]
        };
    lemma_same_perm_prefix(out1, out2, inp, p1, p2, sort_by, inp.len() as int);
    assert forall|i: int| 0 <= i < out1.len() implies out1[i] == out2[i] by {
        assert(out1[i] == inp[p1[i]]);
        assert(out2[i] == inp[p2[i]]);
    }
    assert(out1 =~= out2);
}

proof fn lemma_same_perm_prefix(
    out1: Seq<RankedChampionStat>,
    out2: Seq<RankedChampionStat>,
    inp: Seq<RankedChampionStat>,
    p1: Seq<int>,
    p2: Seq<int>,
    sort_by: RankedChampionSort,
    k: int,
)
    requires
        0 <= k <= inp.len(),
        is_permutation(p1, inp.len() as int),
        out1.len() == inp.len(),
        forall|i: int| 0 <= i < out1.len() ==> #[trigger] out1[i] == inp[p1[i]],
        sorted_by_rank(out1, sort_by),
        forall|i: int, j: int|
            0 <= i < j < out1.len() && same_rank(#[trigger] out1[i], #[trigger] out1[j], sort_by)
                ==> p1[i] < p1[j],
        is_permutation(p2, inp.len() as int),
        out2.len() == inp.len(),
        forall|i: int| 0 <= i < out2.len() ==> #[trigger] out2[i] == inp[p2[i]],
        sorted_by_rank(out2, sort_by),
        forall|i: int, j: int|
            0 <= i < j < out2.len() && same_rank(#[trigger] out2[i], #[trigger] out2[j], sort_by)
                ==> p2[i] < p2[j],
    ensures
        forall|m: int| 0 <= m < k ==> p1[m] == p2[m],
    decreases k,
{
    if k > 0 {
        lemma_same_perm_prefix(out1, out2, inp, p1, p2, sort_by, k - 1);
        let n = inp.len() as int;
        let x = p1[k - 1];
        let y = p2[k - 1];
        if x != y {
            lemma_permutation_onto(p1, n, y);
            let q = choose|q: int| 0 <= q < n && p1[q] == y;
            if q < k - 1 {
                assert(p2[q] == y);
                assert(p2[q] != p2[k - 1]);
            }
            assert(q > k - 1);
            lemma_stable_sort_order(out1, inp, p1, sort_by, k - 1, q);
            lemma_permutation_onto(p2, n, x);
            let q2 = choose|q2: int| 0 <= q2 < n && p2[q2] == x;
            if q2 < k - 1 {
                assert(p1[q2] == x);
                assert(p1[q2] != p1[k - 1]);
            }
            assert(q2 > k - 1);
            lemma_stable_sort_order(out2, inp, p2, sort_by, k - 1, q2);
            lemma_index_before_asymmetric(inp, x, y, sort_by);
        }
    }
}

/// Filtering by lane keeps, in order, exactly the records of that lane (all
/// of them without one).
pub proof fn lemma_lane_filter_keeps_the_lane(records: Seq<RankedChampionStat>, lane: Option<RankedChampionLane>)
    ensures
        lane matches Some(l) ==> forall|i: int|
            0 <= i < lane_filter(records, lane).len() ==> (#[trigger] lane_filter(records, lane)[i]).lane == l,
        lane is None ==> lane_filter(records, lane) == records,
    decreases records.len(),
{
    if records.len() > 0 {
        lemma_lane_filter_keeps_the_lane(records.drop_last(), lane);
        if lane is None {
            assert(records.drop_last().push(records.last()) =~= records);
        } else {
            let rest = lane_filter(records.drop_last(), lane);
            if lane_matches(lane, records.last()) {
                assert forall|i: int| 0 <= i < rest.push(records.last()).len() implies (
                #[trigger] rest.push(records.last())[i]).lane == lane->0 by {
                    if i < rest.len() {
                        assert(rest.push(records.last())[i] == rest[i]);
                    }
                }
            }
        }
    }
}

/// Records sorted by rank are in descending order of the chosen field
/// itself (the overall score, the win rate, the ban rate or the pick rate),
/// and records equal in that field are in descending order of overall score.
pub proof fn lemma_rank_order_follows_field(out: Seq<RankedChampionStat>, sort_by: RankedChampionSort)
    requires
        sorted_by_rank(out, sort_by),
    ensures
        forall|i: int, j: int|
            0 <= i < j < out.len() ==> {
                let (a, b) = (#[trigger] out[i], #[trigger] out[j]);
                &&& sort_by == RankedChampionSort::Overall ==> a.overall_score >= b.overall_score
                &&& sort_by == RankedChampionSort::WinRate ==> (a.win_rate >= b.win_rate && (
                a.win_rate == b.win_rate ==> a.overall_score >= b.overall_score))
                &&& sort_by == RankedChampionSort::BanRate ==> (a.ban_rate >= b.ban_rate && (
                a.ban_rate == b.ban_rate ==> a.overall_score >= b.overall_score))
                &&& sort_by == RankedChampionSort::PickRate ==> (a.pick_rate >= b.pick_rate && (
                a.pick_rate == b.pick_rate ==> a.overall_score >= b.overall_score))
            },
        forall|i: int, j: int|
            0 <= i < j < out.len() ==> {
                let (a, b) = (#[trigger] out[i], #[trigger] out[j]);
                (a.overall_score == b.overall_score && (sort_by == RankedChampionSort::Overall || (
                sort_by == RankedChampionSort::WinRate && a.win_rate == b.win_rate) || (sort_by
                    == RankedChampionSort::BanRate && a.ban_rate == b.ban_rate) || (sort_by
                    == RankedChampionSort::PickRate && a.pick_rate == b.pick_rate))) ==> !lex_lt(
                    b.champion_name@,
                    a.champion_name@,
                )
            },
{
    assert forall|i: int, j: int| 0 <= i < j < out.len() implies {
        let (a, b) = (#[trigger] out[i], #[trigger] out[j]);
        &&& sort_by == RankedChampionSort::Overall ==> a.overall_score >= b.overall_score
        &&& sort_by == RankedChampionSort::WinRate ==> (a.win_rate >= b.win_rate && (a.win_rate
            == b.win_rate ==> a.overall_score >= b.overall_score))
        &&& sort_by == RankedChampionSort::BanRate ==> (a.ban_rate >= b.ban_rate && (a.ban_rate
            == b.ban_rate ==> a.overall_score >= b.overall_score))
        &&& sort_by == RankedChampionSort::PickRate ==> (a.pick_rate >= b.pick_rate && (a.pick_rate
            == b.pick_rate ==> a.overall_score >= b.overall_score))
    } by {
        assert(!ranks_before(out[j], out[i], sort_by));
    }
    assert forall|i: int, j: int| 0 <= i < j < out.len() implies {
        let (a, b) = (#[trigger] out[i], #[trigger] out[j]);
        (a.overall_score == b.overall_score && (sort_by == RankedChampionSort::Overall || (sort_by
            == RankedChampionSort::WinRate && a.win_rate == b.win_rate) || (sort_by
            == RankedChampionSort::BanRate && a.ban_rate == b.ban_rate) || (sort_by
            == RankedChampionSort::PickRate && a.pick_rate == b.pick_rate))) ==> !lex_lt(
            b.champion_name@,
            a.champion_name@,
        )
    } by {
        assert(!ranks_before(out[j], out[i], sort_by));
    }
}

pub fn ranks_before_exec(a: &RankedChampionStat, b: &RankedChampionStat, sort_by: RankedChampionSort) -> (r:
    bool)
    ensures
        r == ranks_before(*a, *b, sort_by),
{
    let (va, vb) = match sort_by {
        RankedChampionSort::Overall => (a.overall_score, b.overall_score),
        RankedChampionSort::WinRate => (a.win_rate, b.win_rate),
        RankedChampionSort::BanRate => (a.ban_rate, b.ban_rate),
        RankedChampionSort::PickRate => (a.pick_rate, b.pick_rate),
    };
    if va != vb {
        va > vb
    } else if a.overall_score != b.overall_score {
        a.overall_score > b.overall_score
    } else {
        str_lt(a.champion_name.as_str(), b.champion_name.as_str())
    }
}

/// Sorts records by rank, keeping tied records in their order (insertion
/// sort).
pub fn sort_ranked_records(records: &Vec<RankedChampionStat>, sort_by: RankedChampionSort) -> (r: Vec<
    RankedChampionStat,
>)
    ensures
        is_stable_rank_sort(r@, records@, sort_by),
{
    let mut out: Vec<RankedChampionStat> = Vec::new();
    let ghost mut perm: Seq<int> = Seq::empty();
    let mut k: usize = 0;
    while k < records.len()
        invariant
            k <= records.len(),
            out.len() == k,
            perm.len() == k,
            forall|i: int| 0 <= i < k ==> 0 <= #[trigger] perm[i] < k,
            forall|i: int, j: int| 0 <= i < j < k ==> #[trigger] perm[i] != #[trigger] perm[j],
            forall|i: int| 0 <= i < k ==> #[trigger] out@[i] == records@[perm[i]],
            sorted_by_rank(out@, sort_by),
            forall|i: int, j: int|
                0 <= i < j < k && same_rank(#[trigger] out@[i], #[trigger] out@[j], sort_by)
                    ==> perm[i] < perm[j],
        decreases records.len() - k,
    {
        let x = clone_stat(&records[k]);
        let mut j: usize = k;
        while j > 0 && ranks_before_exec(&x, &out[j - 1], sort_by)
            invariant
                j <= k,
                out.len() == k,
                x == records@[k as int],
                forall|q: int| j <= q < k ==> ranks_before(x, #[trigger] out@[q], sort_by),
            decreases j,
        {
            j = j - 1;
        }
        let ghost old_out = out@;
        let ghost old_perm = perm;
        proof {
            // every earlier record at or after j ranks after x; every record
            // before j does not rank after x
            assert forall|p: int| 0 <= p < j implies !ranks_before(x, #[trigger] old_out[p], sort_by) by {
                if p < j - 1 {
                    assert(!ranks_before(old_out[j - 1], old_out[p], sort_by));
                    lemma_not_before_transitive(x, old_out[j - 1], old_out[p], sort_by);
                }
            }
            assert forall|q: int| j <= q < k implies !ranks_before(#[trigger] old_out[q], x, sort_by)
                && !same_rank(x, old_out[q], sort_by) by {
                lemma_rank_asymmetric(x, old_out[q], sort_by);
            }
        }
        out.insert(j, x);
        proof {
            perm = old_perm.insert(j as int, k as int);
            assert(out@ == old_out.insert(j as int, x));
            assert forall|i: int| 0 <= i < k + 1 implies #[trigger] out@[i] == records@[perm[i]] by {
                if i < j {
                    assert(out@[i] == old_out[i]);
                } else if i > j {
                    assert(out@[i] == old_out[i - 1]);
                }
            }
            assert forall|i: int| 0 <= i < k + 1 implies 0 <= #[trigger] perm[i] < k + 1 by {
                if i < j {
                } else if i > j {
                    assert(perm[i] == old_perm[i - 1]);
                }
            }
            assert forall|a: int, b: int| 0 <= a < b < k + 1 implies #[trigger] perm[a] != #[trigger] perm[b] by {
                if a < j && b < j {
                } else if a < j && b == j {
                } else if a < j {
                    assert(perm[b] == old_perm[b - 1]);
                } else if a == j {
                    assert(perm[b] == old_perm[b - 1]);
                } else {
                    assert(perm[a] == old_perm[a - 1]);
                    assert(perm[b] == old_perm[b - 1]);
                }
            }
            assert forall|a: int, b: int| 0 <= a < b < k + 1 implies !ranks_before(
                #[trigger] out@[b],
                #[trigger] out@[a],
                sort_by,
            ) by {
                if a < j && b < j {
                    assert(out@[a] == old_out[a] && out@[b] == old_out[b]);
                } else if a < j && b == j {
                    assert(out@[a] == old_out[a]);
                } else if a < j {
                    assert(out@[a] == old_out[a] && out@[b] == old_out[b - 1]);
                } else if a == j {
                    assert(out@[b] == old_out[b - 1]);
                } else {
                    assert(out@[a] == old_out[a - 1] && out@[b] == old_out[b - 1]);
                }
            }
            assert forall|a: int, b: int|
                0 <= a < b < k + 1 && same_rank(#[trigger] out@[a], #[trigger] out@[b], sort_by)
                    implies perm[a] < perm[b] by {
                if a < j && b < j {
                    assert(out@[a] == old_out[a] && out@[b] == old_out[b]);
                } else if a < j && b == j {
                } else if a < j {
                    assert(out@[a] == old_out[a] && out@[b] == old_out[b - 1]);
                    assert(perm[b] == old_perm[b - 1]);
                } else if a == j {
                    assert(out@[b] == old_out[b - 1]);
                } else {
                    assert(out@[a] == old_out[a - 1] && out@[b] == old_out[b - 1]);
                    assert(perm[a] == old_perm[a - 1]);
                    assert(perm[b] == old_perm[b - 1]);
                }
            }
        }
        k = k + 1;
    }
    proof {
        assert(is_permutation(perm, records@.len() as int));
    }
    out
}

// ---------------------------------------------------------------------------
// The built-in sample

/// `n / d` rounded to the nearest whole number, halves away from zero
/// (for `n >= 0`, `d > 0`).
pub open spec fn round_div(n: int, d: int) -> int {
    (2 * n + d) / (2 * d)
}

/// The overall score of a champion: 55% of the win rate, 25% of the pick
/// rate and 20% of the ban rate, rounded to a tenth.
pub open spec fn overall_score_of(win_rate: int, pick_rate: int, ban_rate: int) -> int {
    round_div(55 * win_rate + 25 * pick_rate + 20 * ban_rate, 100)
}

/// The sample: champion id, name, lane, win, pick and ban rate (tenths of a
/// percent) and games.
pub open spec fn seed_table() -> Seq<(int, Seq<char>, RankedChampionLane, int, int, int, int)> {
    seq![
        (266, "Aatrox"@, RankedChampionLane::Top, 508, 89, 124, 184000),
        (122, "Darius"@, RankedChampionLane::Top, 516, 72, 187, 152000),
        (164, "Camille"@, RankedChampionLane::Top, 502, 56, 98, 109000),
        (114, "Fiora"@, RankedChampionLane::Top, 499, 63, 146, 126000),
        (86, "Garen"@, RankedChampionLane::Top, 521, 68, 75, 139000),
        (64, "Lee Sin"@, RankedChampionLane::Jungle, 495, 149, 172, 276000),
        (234, "Viego"@, RankedChampionLane::Jungle, 507, 108, 139, 219000),
        (59, "Jarvan IV"@, RankedChampionLane::Jungle, 514, 81, 62, 168000),
        (5, "Xin Zhao"@, RankedChampionLane::Jungle, 523, 64, 58, 132000),
        (131, "Diana"@, RankedChampionLane::Jungle, 518, 59, 47, 118000),
        (103, "Ahri"@, RankedChampionLane::Middle, 511, 96, 83, 197000),
        (134, "Syndra"@, RankedChampionLane::Middle, 498, 78, 71, 158000),
        (61, "Orianna"@, RankedChampionLane::Middle, 506, 67, 32, 143000),
        (777, "Yone"@, RankedChampionLane::Middle, 494, 112, 245, 231000),
        (517, "Sylas"@, RankedChampionLane::Middle, 501, 84, 162, 176000),
        (222, "Jinx"@, RankedChampionLane::Bottom, 519, 126, 104, 248000),
        (145, "Kai'Sa"@, RankedChampionLane::Bottom, 504, 153, 118, 289000),
        (81, "Ezreal"@, RankedChampionLane::Bottom, 497, 181, 69, 321000),
        (51, "Caitlyn"@, RankedChampionLane::Bottom, 508, 107, 151, 213000),
        (523, "Aphelios"@, RankedChampionLane::Bottom, 489, 74, 43, 147000),
        (412, "Thresh"@, RankedChampionLane::Support, 505, 128, 96, 244000),
        (117, "Lulu"@, RankedChampionLane::Support, 513, 88, 129, 173000),
        (111, "Nautilus"@, RankedChampionLane::Support, 502, 105, 182, 206000),
        (497, "Rakan"@, RankedChampionLane::Support, 520, 79, 59, 151000),
        (89, "Leona"@, RankedChampionLane::Support, 517, 71, 68, 138000),
    ]
}

/// `s` is the record of the sample row `row`.
pub open spec fn stat_of_seed(s: RankedChampionStat, row: (int, Seq<char>, RankedChampionLane, int, int, int, int)) -> bool {
    let (id, name, lane, w, p, b, games) = row;
    &&& s.champion_id == id
    &&& s.champion_name@ == name
    &&& s.champion_alias is None
    &&& s.lane == lane
    &&& s.win_rate == w
    &&& s.pick_rate == p
    &&& s.ban_rate == b
    &&& s.overall_score == overall_score_of(w, p, b)
    &&& s.games == games
    &&& s.wins == round_div(games * w, 1000)
    &&& s.picks == games
    &&& s.bans == round_div(games * b, 1000)
}

pub open spec fn is_seed_records(s: Seq<RankedChampionStat>) -> bool {
    &&& s.len() == seed_table().len()
    &&& forall|i: int| 0 <= i < s.len() ==> stat_of_seed(#[trigger] s[i], seed_table()[i])
}

/// The record of a champion from its rates and its games: the overall score
/// from the rates, the wins and bans as the rounded shares of the games,
/// every game a pick. A rate is a share of the games in tenths of a percent,
/// so from 0 to 1000, and a count of games is never negative.
pub fn ranked_champion_stat(
    champion_id: i64,
    champion_name: &str,
    lane: RankedChampionLane,
    win_rate: i64,
    pick_rate: i64,
    ban_rate: i64,
    games: i64,
) -> (r: RankedChampionStat)
    requires
        0 <= win_rate <= 1000,
        0 <= pick_rate <= 1000,
        0 <= ban_rate <= 1000,
        0 <= games,
    ensures
        stat_of_seed(
            r,
            (
                champion_id as int,
                champion_name@,
                lane,
                win_rate as int,
                pick_rate as int,
                ban_rate as int,
                games as int,
            ),
        ),
{
    let weighted = 55 * win_rate + 25 * pick_rate + 20 * ban_rate;
    let g: i128 = games as i128;
    assert(0 <= g * (win_rate as i128) <= g * 1000) by (nonlinear_arith)
        requires
            0 <= g,
            0 <= win_rate <= 1000,
    ;
    assert(0 <= g * (ban_rate as i128) <= g * 1000) by (nonlinear_arith)
        requires
            0 <= g,
            0 <= ban_rate <= 1000,
    ;
    let wins: i128 = (2 * (g * win_rate as i128) + 1000) / 2000;
    let bans: i128 = (2 * (g * ban_rate as i128) + 1000) / 2000;
    assert(wins <= g);
    assert(bans <= g);
    RankedChampionStat {
        champion_id,
        champion_name: champion_name.to_owned(),
        champion_alias: None,
        lane,
        win_rate,
        pick_rate,
        ban_rate,
        overall_score: (2 * weighted + 100) / 200,
        games,
        wins: wins as i64,
        picks: games,
        bans: bans as i64,
    }
}

/// The records of the built-in sample, in table order.
pub fn ranked_champion_seeds() -> (r: Vec<RankedChampionStat>)
    ensures
        is_seed_records(r@),
{
    let mut out: Vec<RankedChampionStat> = Vec::new();
    out.push(ranked_champion_stat(266, "Aatrox", RankedChampionLane::Top, 508, 89, 124, 184000));
    out.push(ranked_champion_stat(122, "Darius", RankedChampionLane::Top, 516, 72, 187, 152000));
    out.push(ranked_champion_stat(164, "Camille", RankedChampionLane::Top, 502, 56, 98, 109000));
    out.push(ranked_champion_stat(114, "Fiora", RankedChampionLane::Top, 499, 63, 146, 126000));
    out.push(ranked_champion_stat(86, "Garen", RankedChampionLane::Top, 521, 68, 75, 139000));
    out.push(ranked_champion_stat(64, "Lee Sin", RankedChampionLane::Jungle, 495, 149, 172, 276000));
    out.push(ranked_champion_stat(234, "Viego", RankedChampionLane::Jungle, 507, 108, 139, 219000));
    out.push(ranked_champion_stat(59, "Jarvan IV", RankedChampionLane::Jungle, 514, 81, 62, 168000));
    out.push(ranked_champion_stat(5, "Xin Zhao", RankedChampionLane::Jungle, 523, 64, 58, 132000));
    out.push(ranked_champion_stat(131, "Diana", RankedChampionLane::Jungle, 518, 59, 47, 118000));
    out.push(ranked_champion_stat(103, "Ahri", RankedChampionLane::Middle, 511, 96, 83, 197000));
    out.push(ranked_champion_stat(134, "Syndra", RankedChampionLane::Middle, 498, 78, 71, 158000));
    out.push(ranked_champion_stat(61, "Orianna", RankedChampionLane::Middle, 506, 67, 32, 143000));
    out.push(ranked_champion_stat(777, "Yone", RankedChampionLane::Middle, 494, 112, 245, 231000));
    out.push(ranked_champion_stat(517, "Sylas", RankedChampionLane::Middle, 501, 84, 162, 176000));
    out.push(ranked_champion_stat(222, "Jinx", RankedChampionLane::Bottom, 519, 126, 104, 248000));
    out.push(ranked_champion_stat(145, "Kai'Sa", RankedChampionLane::Bottom, 504, 153, 118, 289000));
    out.push(ranked_champion_stat(81, "Ezreal", RankedChampionLane::Bottom, 497, 181, 69, 321000));
    out.push(ranked_champion_stat(51, "Caitlyn", RankedChampionLane::Bottom, 508, 107, 151, 213000));
    out.push(ranked_champion_stat(523, "Aphelios", RankedChampionLane::Bottom, 489, 74, 43, 147000));
    out.push(ranked_champion_stat(412, "Thresh", RankedChampionLane::Support, 505, 128, 96, 244000));
    out.push(ranked_champion_stat(117, "Lulu", RankedChampionLane::Support, 513, 88, 129, 173000));
    out.push(ranked_champion_stat(111, "Nautilus", RankedChampionLane::Support, 502, 105, 182, 206000));
    out.push(ranked_champion_stat(497, "Rakan", RankedChampionLane::Support, 520, 79, 59, 151000));
    out.push(ranked_champion_stat(89, "Leona", RankedChampionLane::Support, 517, 71, 68, 138000));
    proof {
        assert forall|i: int| 0 <= i < out@.len() implies stat_of_seed(#[trigger] out@[i], seed_table()[i]) by {}
    }
    out
}

} // verus!

verus! {

/// The value a record is ranked by.
pub fn ranked_sort_value(record: &RankedChampionStat, sort_by: RankedChampionSort) -> (r: i64)
    ensures
        r == sort_value(*record, sort_by),
{
    match sort_by {
        RankedChampionSort::Overall => record.overall_score,
        RankedChampionSort::WinRate => record.win_rate,
        RankedChampionSort::BanRate => record.ban_rate,
        RankedChampionSort::PickRate => record.pick_rate,
    }
}

/// The overall score from the win, pick and ban rates (all in tenths):
/// 55% of the win rate, 25% of the pick rate and 20% of the ban rate,
/// rounded to a tenth, halves away from zero.
pub fn ranked_overall_score(win_rate: i64, pick_rate: i64, ban_rate: i64) -> (r: i64)
    ensures
        r == crate::matches::round_half_away(
            55 * win_rate + 25 * pick_rate + 20 * ban_rate,
            100,
        ),
        win_rate >= 0 && pick_rate >= 0 && ban_rate >= 0 ==> r == overall_score_of(
            win_rate as int,
            pick_rate as int,
            ban_rate as int,
        ),
{
    let n: i128 = 55 * (win_rate as i128) + 25 * (pick_rate as i128) + 20 * (ban_rate as i128);
    assert(-0x40_0000_0000_0000_0000 <= n <= 0x40_0000_0000_0000_0000);
    let score: i128 = if n >= 0 {
        (2 * n + 100) / 200
    } else {
        let m: i128 = 0 - n;
        0 - (2 * m + 100) / 200
    };
    assert(i64::MIN <= score <= i64::MAX);
    score as i64
}

} // verus!

verus! {

/// Parsing the name of a lane gives the lane back.
pub proof fn lemma_lane_round_trip(lane: RankedChampionLane)
    ensures
        RankedChampionLane::spec_parse(lane.spec_as_str()) == Some(lane),
{
    reveal_strlit("top");
    reveal_strlit("jungle");
    reveal_strlit("middle");
    reveal_strlit("bottom");
    reveal_strlit("support");
    assert("jungle"@.len() != "top"@.len());
    assert("middle"@.len() != "top"@.len());
    assert("middle"@[0] != "jungle"@[0]);
    assert("bottom"@.len() != "top"@.len());
    assert("bottom"@[0] != "jungle"@[0]);
    assert("bottom"@[0] != "middle"@[0]);
    assert("support"@.len() != "top"@.len());
    assert("support"@.len() != "jungle"@.len());
    assert("support"@.len() != "middle"@.len());
    assert("support"@.len() != "bottom"@.len());
}

} // verus!
