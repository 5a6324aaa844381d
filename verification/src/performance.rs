//! Summaries of recent play: the champions played most, and the recent
//! performance block.

use vstd::prelude::*;

use crate::constants::{PERFORMANCE_MATCH_COUNT, TOP_CHAMPION_COUNT};
use crate::domain::{KdaTag, RecentChampionSummary, RecentMatchSummary, RecentPerformanceSummary};
use crate::matches::{kda_tag, round_half_away, spec_kda_tag};
use crate::ranked::is_permutation;

verus! {

/// A champion as the summaries count it: its id and name.
pub open spec fn champion_key(m: RecentMatchSummary) -> (Option<i64>, Seq<char>) {
    (m.champion_id, m.champion_name@)
}

pub open spec fn champion_keys(ms: Seq<RecentMatchSummary>) -> Seq<(Option<i64>, Seq<char>)> {
    ms.map_values(|m: RecentMatchSummary| champion_key(m))
}

/// The distinct keys of `keys`, in the order in which they first appear.
pub open spec fn distinct_keys(keys: Seq<(Option<i64>, Seq<char>)>) -> Seq<(Option<i64>, Seq<char>)>
    decreases keys.len(),
{
    if keys.len() == 0 {
        Seq::empty()
    } else {
        let d = distinct_keys(keys.drop_last());
        if d.contains(keys.last()) {
            d
        } else {
            d.push(keys.last())
        }
    }
}

/// How often `k` occurs in `keys`.
pub open spec fn key_count(keys: Seq<(Option<i64>, Seq<char>)>, k: (Option<i64>, Seq<char>)) -> nat
    decreases keys.len(),
{
    if keys.len() == 0 {
        0
    } else {
        key_count(keys.drop_last(), k) + if keys.last() == k {
            1nat
        } else {
            0nat
        }
    }
}

/// The matches the summaries look at: the first six.
pub open spec fn counted_matches(ms: Seq<RecentMatchSummary>) -> Seq<RecentMatchSummary> {
    if ms.len() <= PERFORMANCE_MATCH_COUNT {
        ms
    } else {
        ms.take(PERFORMANCE_MATCH_COUNT as int)
    }
}

/// Entry `a` of the distinct champions comes before entry `b`: played more
/// often, or as often and first played earlier.
pub open spec fn champion_before(counts: Seq<nat>, a: int, b: int) -> bool {
    counts[a] > counts[b] || (counts[a] == counts[b] && a < b)
}

/// `r` lists the champions played most among the first six matches, most
/// played first (ties in order of first appearance), at most three of them.
pub open spec fn is_top_champions(r: Seq<RecentChampionSummary>, ms: Seq<RecentMatchSummary>) -> bool {
    let keys = champion_keys(counted_matches(ms));
    let d = distinct_keys(keys);
    let counts = Seq::new(d.len(), |j: int| key_count(keys, d[j]));
    &&& r.len() == if d.len() < TOP_CHAMPION_COUNT {
        d.len() as int
    } else {
        TOP_CHAMPION_COUNT as int
    }
    &&& exists|order: Seq<int>|
        {
            &&& is_permutation(order, d.len() as int)
            &&& forall|i: int, j: int|
                0 <= i < j < d.len() ==> champion_before(
                    counts,
                    #[trigger] order[i],
                    #[trigger] order[j],
                )
            &&& forall|i: int|
                0 <= i < r.len() ==> {
                    &&& (#[trigger] r[i]).champion_id == d[order[i]].0
                    &&& r[i].champion_name@ == d[order[i]].1
                    &&& r[i].games == counts[order[i]]
                }
        }
}

proof fn lemma_key_count_le(keys: Seq<(Option<i64>, Seq<char>)>, k: (Option<i64>, Seq<char>))
    ensures
        key_count(keys, k) <= keys.len(),
    decreases keys.len(),
{
    if keys.len() > 0 {
        lemma_key_count_le(keys.drop_last(), k);
    }
}

proof fn lemma_distinct_keys_unique(keys: Seq<(Option<i64>, Seq<char>)>)
    ensures
        forall|i: int, j: int|
            0 <= i < j < distinct_keys(keys).len() ==> distinct_keys(keys)[i] != distinct_keys(
                keys,
            )[j],
        distinct_keys(keys).len() <= keys.len(),
    decreases keys.len(),
{
    if keys.len() > 0 {
        lemma_distinct_keys_unique(keys.drop_last());
    }
}

struct ChampionCount {
    champion_id: Option<i64>,
    champion_name: String,
    games: usize,
}

/// Where the champion of `m` stands in `counts`, or the length when it is not there.
fn find_champion(counts: &Vec<ChampionCount>, m: &RecentMatchSummary) -> (found: usize)
    ensures
        found <= counts@.len(),
        found < counts@.len() ==> (counts@[found as int].champion_id, counts@[found as int].champion_name@)
            == champion_key(*m),
        found == counts@.len() ==> forall|q: int|
            0 <= q < counts@.len() ==> ((#[trigger] counts@[q]).champion_id, counts@[q].champion_name@)
                != champion_key(*m),
{
    let mut j: usize = 0;
    while j < counts.len()
        invariant
            j <= counts@.len(),
            forall|q: int|
                0 <= q < j ==> ((#[trigger] counts@[q]).champion_id, counts@[q].champion_name@)
                    != champion_key(*m),
        decreases counts@.len() - j,
    {
        if counts[j].champion_id == m.champion_id && counts[j].champion_name == m.champion_name {
            return j;
        }
        j = j + 1;
    }
    j
}

pub fn summarize_top_champions(matches: &Vec<RecentMatchSummary>) -> (r: Vec<RecentChampionSummary>)
    ensures
        is_top_champions(r@, matches@),
{
    let n: usize = if matches.len() < PERFORMANCE_MATCH_COUNT {
        matches.len()
    } else {
        PERFORMANCE_MATCH_COUNT
    };
    let ghost ms = counted_matches(matches@);
    let ghost keys = champion_keys(ms);
    proof {
        assert(ms == matches@.take(n as int));
    }
    // Count each champion, in order of first appearance.
    let mut counts: Vec<ChampionCount> = Vec::new();
    let mut i: usize = 0;
    while i < n
        invariant
            n <= matches@.len(),
            n == ms.len(),
            ms == matches@.take(n as int),
            keys == champion_keys(ms),
            i <= n,
            counts@.len() == distinct_keys(keys.take(i as int)).len(),
            forall|j: int|
                0 <= j < counts@.len() ==> {
                    &&& ((#[trigger] counts@[j]).champion_id, counts@[j].champion_name@)
                        == distinct_keys(keys.take(i as int))[j]
                    &&& counts@[j].games == key_count(keys.take(i as int), distinct_keys(keys.take(i as int))[j])
                },
        decreases n - i,
    {
        let m = &matches[i];
        let ghost prefix = keys.take(i as int);
        let ghost key = champion_key(*m);
        proof {
            assert(keys.take(i + 1) == prefix.push(key));
            assert(keys[i as int] == key);
            assert(keys.take(i + 1).drop_last() == prefix);
            lemma_key_count_le(prefix, key);
            lemma_distinct_keys_unique(prefix);
        }
        let found = find_champion(&counts, m);
        let ghost d = distinct_keys(prefix);
        let ghost next = prefix.push(key);
        if found < counts.len() {
            proof {
                assert(d[found as int] == key);
                assert(d.contains(key));
                lemma_key_count_le(prefix, key);
                assert(counts@[found as int].games <= i);
            }
            let old = counts[found].games;
            let updated = ChampionCount {
                champion_id: counts[found].champion_id,
                champion_name: counts[found].champion_name.clone(),
                games: old + 1,
            };
            counts.set(found, updated);
            proof {
                assert(next.drop_last() == prefix);
                assert(distinct_keys(next) == d);
                assert forall|j: int| 0 <= j < counts@.len() implies {
                    &&& ((#[trigger] counts@[j]).champion_id, counts@[j].champion_name@) == distinct_keys(next)[j]
                    &&& counts@[j].games == key_count(next, distinct_keys(next)[j])
                } by {
                    if j != found {
                        assert(d[j] != d[found as int]);
                    }
                }
                assert(keys.take(i + 1) == next);
            }
        } else {
            proof {
                assert forall|q: int| 0 <= q < d.len() implies d[q] != key by {
                    assert((counts@[q].champion_id, counts@[q].champion_name@) == d[q]);
                }
                assert(!d.contains(key));
                assert(key_count(prefix, key) == 0) by {
                    lemma_key_count_absent(prefix, key);
                }
            }
            counts.push(
                ChampionCount {
                    champion_id: m.champion_id,
                    champion_name: m.champion_name.clone(),
                    games: 1,
                },
            );
            proof {
                assert(next.drop_last() == prefix);
                assert(distinct_keys(next) == d.push(key));
                assert forall|j: int| 0 <= j < counts@.len() implies {
                    &&& ((#[trigger] counts@[j]).champion_id, counts@[j].champion_name@) == distinct_keys(next)[j]
                    &&& counts@[j].games == key_count(next, distinct_keys(next)[j])
                } by {
                    if j < d.len() {
                        assert(d[j] != key);
                    }
                }
                assert(keys.take(i + 1) == next);
            }
        }
        i = i + 1;
    }
    proof {
        assert(keys.take(n as int) == keys);
    }
    let ghost d = distinct_keys(keys);
    let ghost count_seq = Seq::new(d.len(), |j: int| key_count(keys, d[j]));
    proof {
        lemma_distinct_keys_unique(keys);
    }
    // Order the champions: most played first, ties by first appearance.
    let mut order: Vec<usize> = Vec::new();
    let mut k: usize = 0;
    while k < counts.len()
        invariant
            k <= counts@.len(),
            counts@.len() == d.len(),
            count_seq.len() == d.len(),
            forall|j: int| 0 <= j < counts@.len() ==> (#[trigger] counts@[j]).games == count_seq[j],
            order@.len() == k,
            forall|a: int| 0 <= a < k ==> (#[trigger] order@[a]) < k,
            forall|a: int, b: int| 0 <= a < b < k ==> #[trigger] order@[a] != #[trigger] order@[b],
            forall|a: int, b: int|
                0 <= a < b < k ==> champion_before(
                    count_seq,
                    #[trigger] order@[a] as int,
                    #[trigger] order@[b] as int,
                ),
        decreases counts@.len() - k,
    {
        let mut pos: usize = k;
        while pos > 0 && counts[order[pos - 1]].games < counts[k].games
            invariant
                pos <= k,
                k < counts@.len(),
                order@.len() == k,
                forall|a: int| 0 <= a < k ==> (#[trigger] order@[a]) < k,
                forall|j: int| 0 <= j < counts@.len() ==> (#[trigger] counts@[j]).games == count_seq[j],
                forall|q: int| pos <= q < k ==> champion_before(count_seq, k as int, #[trigger] order@[q] as int),
            decreases pos,
        {
            pos = pos - 1;
        }
        let ghost old_order = order@;
        proof {
            assert forall|q: int| 0 <= q < pos implies champion_before(
                count_seq,
                #[trigger] old_order[q] as int,
                k as int,
            ) by {
                if q < pos - 1 {
                    assert(champion_before(count_seq, old_order[q] as int, old_order[pos - 1] as int));
                }
            }
        }
        order.insert(pos, k);
        proof {
            assert(order@ == old_order.insert(pos as int, k));
            assert forall|a: int| 0 <= a < k + 1 implies (#[trigger] order@[a]) < k + 1 by {
                if a < pos {
                    assert(order@[a] == old_order[a]);
                } else if a > pos {
                    assert(order@[a] == old_order[a - 1]);
                }
            }
            assert forall|a: int, b: int| 0 <= a < b < k + 1 implies #[trigger] order@[a] != #[trigger] order@[b] by {
                if a < pos && b < pos {
                } else if a < pos && b == pos {
                } else if a < pos {
                    assert(order@[b] == old_order[b - 1]);
                } else if a == pos {
                    assert(order@[b] == old_order[b - 1]);
                } else {
                    assert(order@[a] == old_order[a - 1]);
                    assert(order@[b] == old_order[b - 1]);
                }
            }
            assert forall|a: int, b: int| 0 <= a < b < k + 1 implies champion_before(
                count_seq,
                #[trigger] order@[a] as int,
                #[trigger] order@[b] as int,
            ) by {
                if a < pos && b < pos {
                    assert(order@[a] == old_order[a] && order@[b] == old_order[b]);
                } else if a < pos && b == pos {
                    assert(order@[a] == old_order[a]);
                } else if a < pos {
                    assert(order@[a] == old_order[a] && order@[b] == old_order[b - 1]);
                    assert(champion_before(count_seq, old_order[a] as int, old_order[pos as int] as int)
                        || a >= pos);
                } else if a == pos {
                    assert(order@[b] == old_order[b - 1]);
                } else {
                    assert(order@[a] == old_order[a - 1] && order@[b] == old_order[b - 1]);
                }
            }
        }
        k = k + 1;
    }
    // Keep the first three.
    let take: usize = if counts.len() < TOP_CHAMPION_COUNT {
        counts.len()
    } else {
        TOP_CHAMPION_COUNT
    };
    let mut out: Vec<RecentChampionSummary> = Vec::new();
    let mut t: usize = 0;
    while t < take
        invariant
            t <= take,
            take <= order@.len(),
            order@.len() == counts@.len(),
            forall|a: int| 0 <= a < order@.len() ==> (#[trigger] order@[a]) < counts@.len(),
            out@.len() == t,
            forall|a: int|
                0 <= a < t ==> {
                    &&& (#[trigger] out@[a]).champion_id == counts@[order@[a] as int].champion_id
                    &&& out@[a].champion_name@ == counts@[order@[a] as int].champion_name@
                    &&& out@[a].games == counts@[order@[a] as int].games
                },
        decreases take - t,
    {
        let c = &counts[order[t]];
        out.push(
            RecentChampionSummary {
                champion_id: c.champion_id,
                champion_name: c.champion_name.clone(),
                games: c.games,
            },
        );
        t = t + 1;
    }
    proof {
        let ord = order@.map_values(|v: usize| v as int);
        assert(is_permutation(ord, d.len() as int));
        assert forall|i: int| 0 <= i < out@.len() implies {
            &&& (#[trigger] out@[i]).champion_id == d[ord[i]].0
            &&& out@[i].champion_name@ == d[ord[i]].1
            &&& out@[i].games == count_seq[ord[i]]
        } by {
            assert((counts@[ord[i]].champion_id, counts@[ord[i]].champion_name@) == d[ord[i]]);
        }
        assert forall|i: int, j: int| 0 <= i < j < d.len() implies champion_before(
            count_seq,
            #[trigger] ord[i],
            #[trigger] ord[j],
        ) by {
            assert(champion_before(count_seq, order@[i] as int, order@[j] as int));
        }
    }
    out
}

proof fn lemma_key_count_absent(keys: Seq<(Option<i64>, Seq<char>)>, k: (Option<i64>, Seq<char>))
    requires
        !distinct_keys(keys).contains(k),
    ensures
        key_count(keys, k) == 0,
    decreases keys.len(),
{
    if keys.len() > 0 {
        let d = distinct_keys(keys.drop_last());
        if d.contains(k) {
            let q = choose|q: int| 0 <= q < d.len() && d[q] == k;
            if !d.contains(keys.last()) {
                assert(distinct_keys(keys)[q] == k);
            }
        }
        if keys.last() == k {
            if d.contains(keys.last()) {
            } else {
                assert(distinct_keys(keys)[d.len() as int] == k);
            }
        }
        lemma_key_count_absent(keys.drop_last(), k);
    }
}


/// The KDA ratio of a match in millionths, rounded halves away from zero.
pub open spec fn kda_micro(m: RecentMatchSummary) -> int {
    let contribution = (m.kills + m.assists) * 1_000_000;
    if m.deaths <= 0 {
        contribution
    } else {
        round_half_away(contribution, m.deaths as int)
    }
}

pub open spec fn sum_kda_micro(ms: Seq<RecentMatchSummary>) -> int
    decreases ms.len(),
{
    if ms.len() == 0 {
        0
    } else {
        sum_kda_micro(ms.drop_last()) + kda_micro(ms.last())
    }
}

/// `v` kept within the range of `i64`.
pub open spec fn clamp_i64(v: int) -> i64 {
    if v < i64::MIN {
        i64::MIN
    } else if v > i64::MAX {
        i64::MAX
    } else {
        v as i64
    }
}

/// The average KDA of the first six matches in tenths, rounded halves away
/// from zero; none without a match.
pub open spec fn spec_average_kda(ms: Seq<RecentMatchSummary>) -> Option<i64> {
    let counted = counted_matches(ms);
    if counted.len() == 0 {
        None
    } else {
        Some(clamp_i64(round_half_away(sum_kda_micro(counted), (counted.len() * 100_000) as int)))
    }
}

proof fn lemma_round_bound(c: int, d: int)
    requires
        d >= 1,
    ensures
        -(if c < 0 { -c } else { c }) - 1 <= round_half_away(c, d) <= (if c < 0 { -c } else { c }) + 1,
{
    if c >= 0 {
        assert((2 * c + d) / (2 * d) <= c + 1) by (nonlinear_arith)
            requires
                c >= 0,
                d >= 1,
        ;
        assert((2 * c + d) / (2 * d) >= 0) by (nonlinear_arith)
            requires
                c >= 0,
                d >= 1,
        ;
    } else {
        assert((-2 * c + d) / (2 * d) <= -c + 1) by (nonlinear_arith)
            requires
                c < 0,
                d >= 1,
        ;
        assert((-2 * c + d) / (2 * d) >= 0) by (nonlinear_arith)
            requires
                c < 0,
                d >= 1,
        ;
    }
}

/// `round_half_away(c, d)` is within half of `d` of `c / d`, scaled by `d`.
proof fn lemma_round_half_away_close(c: int, d: int)
    requires
        d >= 1,
    ensures
        -d <= 2 * (round_half_away(c, d) * d - c) <= d,
{
    if c >= 0 {
        let q = (2 * c + d) / (2 * d);
        assert(q * (2 * d) <= 2 * c + d < (q + 1) * (2 * d)) by (nonlinear_arith)
            requires
                q == (2 * c + d) / (2 * d),
                d >= 1,
        ;
        assert(q * (2 * d) == 2 * (q * d)) by (nonlinear_arith);
        assert((q + 1) * (2 * d) == 2 * (q * d) + 2 * d) by (nonlinear_arith);
    } else {
        let q = (-2 * c + d) / (2 * d);
        assert(q * (2 * d) <= -2 * c + d < (q + 1) * (2 * d)) by (nonlinear_arith)
            requires
                q == (-2 * c + d) / (2 * d),
                d >= 1,
        ;
        assert(q * (2 * d) == 2 * (q * d)) by (nonlinear_arith);
        assert((q + 1) * (2 * d) == 2 * (q * d) + 2 * d) by (nonlinear_arith);
        assert((-q) * d == -(q * d)) by (nonlinear_arith);
    }
}

/// The KDA of a match is `(kills + assists) / deaths` (deaths taken as one
/// when there are none), in millionths, rounded to the nearest: it is within
/// half a millionth of that ratio.
pub proof fn lemma_match_kda_is_rounded_ratio(m: RecentMatchSummary)
    ensures
        ({
            let deaths: int = if m.deaths > 0 { m.deaths as int } else { 1 };
            let scaled = (m.kills + m.assists) * 1_000_000;
            -deaths <= 2 * (kda_micro(m) * deaths - scaled) <= deaths
        }),
{
    if m.deaths > 0 {
        lemma_round_half_away_close((m.kills + m.assists) * 1_000_000, m.deaths as int);
    }
}

/// The average KDA of a single match is its ratio `(kills + assists) /
/// deaths` (deaths taken as one when there are none) in tenths, rounded: in
/// tenths it is within just over half a tenth of that ratio.
pub proof fn lemma_single_match_average_kda(ms: Seq<RecentMatchSummary>)
    requires
        ms.len() == 1,
        0 <= ms[0].kills <= 1_000_000_000,
        0 <= ms[0].assists <= 1_000_000_000,
    ensures
        spec_average_kda(ms) is Some,
        ({
            let m = ms[0];
            let deaths: int = if m.deaths > 0 { m.deaths as int } else { 1 };
            let v = spec_average_kda(ms)->0 as int;
            -100_001 * deaths <= 200_000 * (v * deaths - 10 * (m.kills + m.assists)) <= 100_001
                * deaths
        }),
{
    let m = ms[0];
    let deaths: int = if m.deaths > 0 { m.deaths as int } else { 1 };
    let c = (m.kills + m.assists) * 1_000_000;
    assert(counted_matches(ms) == ms);
    assert(ms.drop_last().len() == 0);
    assert(sum_kda_micro(ms) == sum_kda_micro(ms.drop_last()) + kda_micro(ms.last()));
    assert(sum_kda_micro(ms) == kda_micro(m));
    let q = kda_micro(m);
    lemma_match_kda_is_rounded_ratio(m);
    lemma_round_half_away_close(q, 100_000);
    let r = round_half_away(q, 100_000);
    // q is at most c + 1, so r fits in i64
    assert(0 <= c <= 2_000_000_000_000_000);
    assert(q * deaths <= c + deaths);
    assert(q * deaths >= c - deaths);
    assert(-1 <= q <= c + 1) by (nonlinear_arith)
        requires
            q * deaths <= c + deaths,
            q * deaths >= c - deaths,
            deaths >= 1,
            c >= 0,
    ;
    assert(-2 <= r <= 20_000_000_000) by (nonlinear_arith)
        requires
            -100_000 <= 2 * (r * 100_000 - q) <= 100_000,
            -1 <= q <= 2_000_000_000_000_001,
    ;
    assert(clamp_i64(r) == r);
    assert(spec_average_kda(ms) == Some(r as i64));
    let v = r;
    assert(-100_001 * deaths <= 200_000 * (v * deaths - 10 * (m.kills + m.assists)) <= 100_001
        * deaths) by (nonlinear_arith)
        requires
            -100_000 <= 2 * (v * 100_000 - q) <= 100_000,
            -deaths <= 2 * (q * deaths - c) <= deaths,
            c == (m.kills + m.assists) * 1_000_000,
            deaths >= 1,
    ;
}

proof fn lemma_match_kda_bounds(m: RecentMatchSummary)
    requires
        0 <= m.kills <= 1_000_000_000,
        0 <= m.assists <= 1_000_000_000,
    ensures
        0 <= kda_micro(m) <= 2_000_000_000_000_001,
{
    let deaths: int = if m.deaths > 0 { m.deaths as int } else { 1 };
    let c = (m.kills + m.assists) * 1_000_000;
    let q = kda_micro(m);
    lemma_match_kda_is_rounded_ratio(m);
    assert(0 <= q <= c + 1) by (nonlinear_arith)
        requires
            -deaths <= 2 * (q * deaths - c) <= deaths,
            deaths >= 1,
            c >= 0,
    ;
}

proof fn lemma_sum_kda_bounds(ms: Seq<RecentMatchSummary>)
    requires
        forall|i: int|
            0 <= i < ms.len() ==> 0 <= (#[trigger] ms[i]).kills <= 1_000_000_000 && 0 <= ms[i].assists
                <= 1_000_000_000,
    ensures
        0 <= sum_kda_micro(ms) <= ms.len() * 2_000_000_000_000_001,
    decreases ms.len(),
{
    if ms.len() > 0 {
        assert forall|i: int| 0 <= i < ms.drop_last().len() implies 0 <= (
        #[trigger] ms.drop_last()[i]).kills <= 1_000_000_000 && 0 <= ms.drop_last()[i].assists
            <= 1_000_000_000 by {
            assert(ms.drop_last()[i] == ms[i]);
        }
        lemma_sum_kda_bounds(ms.drop_last());
        assert(ms.last() == ms[ms.len() - 1]);
        lemma_match_kda_bounds(ms.last());
    }
}

/// The recent performance block counts the first six matches (all of them
/// when there are fewer), has an average KDA exactly when there is a match,
/// and tags it High from 4.0 and Standard below. The average, in tenths, is
/// the mean of the matches' KDAs (each in millionths, see
/// `lemma_match_kda_is_rounded_ratio`) rounded to the nearest tenth.
pub proof fn lemma_performance_summary_average(r: RecentPerformanceSummary, ms: Seq<RecentMatchSummary>)
    requires
        is_performance_summary(r, ms),
        forall|i: int|
            0 <= i < ms.len() ==> 0 <= (#[trigger] ms[i]).kills <= 1_000_000_000 && 0 <= ms[i].assists
                <= 1_000_000_000,
    ensures
        r.match_count == if ms.len() <= 6 { ms.len() } else { 6 },
        r.average_kda is None <==> ms.len() == 0,
        r.average_kda is None ==> r.kda_tag == KdaTag::Unavailable,
        r.average_kda matches Some(v) ==> (r.kda_tag == KdaTag::High <==> v >= 40) && (r.kda_tag
            == KdaTag::Standard <==> v < 40),
        r.average_kda matches Some(v) ==> ({
            let n = r.match_count as int;
            let total = sum_kda_micro(ms.take(n));
            -n * 100_000 <= 2 * (v * n * 100_000 - total) <= n * 100_000
        }),
{
    let counted = counted_matches(ms);
    let n = counted.len() as int;
    assert(counted == ms.take(n)) by {
        if ms.len() <= 6 {
            assert(ms.take(ms.len() as int) =~= ms);
        }
    }
    if n > 0 {
        assert forall|i: int| 0 <= i < counted.len() implies 0 <= (#[trigger] counted[i]).kills
            <= 1_000_000_000 && 0 <= counted[i].assists <= 1_000_000_000 by {
            assert(counted[i] == ms[i]);
        }
        lemma_sum_kda_bounds(counted);
        let total = sum_kda_micro(counted);
        let d = n * 100_000;
        lemma_round_half_away_close(total, d);
        let v = round_half_away(total, d);
        assert(0 <= total <= 6 * 2_000_000_000_000_001) by (nonlinear_arith)
            requires
                0 <= total <= n * 2_000_000_000_000_001,
                1 <= n <= 6,
        ;
        assert(-1 <= v <= 200_000_000_000) by (nonlinear_arith)
            requires
                -d <= 2 * (v * d - total) <= d,
                d >= 100_000,
                0 <= total <= 12_000_000_000_000_006,
        ;
        assert(clamp_i64(v) == v);
        assert(v * d == v * n * 100_000) by (nonlinear_arith)
            requires
                d == n * 100_000,
        ;
    }
}

fn kda_micro_of(m: &RecentMatchSummary) -> (r: i128)
    ensures
        r == kda_micro(*m),
        -0x400_0000_0000_0000_0000_0000 <= r <= 0x400_0000_0000_0000_0000_0000,
{
    let contribution: i128 = (m.kills as i128 + m.assists as i128) * 1_000_000;
    if m.deaths <= 0 {
        contribution
    } else {
        let d = m.deaths as i128;
        proof {
            lemma_round_bound(contribution as int, d as int);
        }
        if contribution >= 0 {
            (2 * contribution + d) / (2 * d)
        } else {
            -((-2 * contribution + d) / (2 * d))
        }
    }
}

fn average_kda(matches: &Vec<RecentMatchSummary>, n: usize) -> (r: Option<i64>)
    requires
        n == counted_matches(matches@).len(),
    ensures
        r == spec_average_kda(matches@),
{
    if n == 0 {
        return None;
    }
    let ghost counted = counted_matches(matches@);
    let mut total: i128 = 0;
    let mut i: usize = 0;
    while i < n
        invariant
            n == counted.len(),
            counted == counted_matches(matches@),
            n <= matches@.len(),
            n <= 6,
            counted == matches@.take(n as int),
            i <= n,
            total == sum_kda_micro(counted.take(i as int)),
            -0x400_0000_0000_0000_0000_0000 * i <= total <= 0x400_0000_0000_0000_0000_0000 * i,
        decreases n - i,
    {
        proof {
            assert(counted.take(i + 1).drop_last() == counted.take(i as int));
            assert(counted.take(i + 1).last() == matches@[i as int]);
        }
        let micro = kda_micro_of(&matches[i]);
        total = total + micro;
        i = i + 1;
    }
    proof {
        assert(counted.take(n as int) == counted);
    }
    let d: i128 = (n as i128) * 100_000;
    let tenths: i128 = if total >= 0 {
        (2 * total + d) / (2 * d)
    } else {
        -((-2 * total + d) / (2 * d))
    };
    if tenths < i64::MIN as i128 {
        Some(i64::MIN)
    } else if tenths > i64::MAX as i128 {
        Some(i64::MAX)
    } else {
        Some(tenths as i64)
    }
}

/// `r` is the performance block of `ms`.
pub open spec fn is_performance_summary(r: RecentPerformanceSummary, ms: Seq<RecentMatchSummary>) -> bool {
    &&& r.match_count == counted_matches(ms).len()
    &&& r.average_kda == spec_average_kda(ms)
    &&& r.kda_tag == spec_kda_tag(r.average_kda)
    &&& r.recent_champions@.len() == r.match_count
    &&& forall|i: int|
        0 <= i < r.match_count ==> (#[trigger] r.recent_champions@[i])@ == ms[i].champion_name@
    &&& is_top_champions(r.top_champions@, ms)
}

/// The recent performance block over the first six matches: how many there
/// are, their average KDA, its tag, the champions played in order, and the
/// champions played most.
pub fn summarize_recent_performance(matches: &Vec<RecentMatchSummary>) -> (r:
    RecentPerformanceSummary)
    ensures
        is_performance_summary(r, matches@),
{
    let n: usize = if matches.len() < PERFORMANCE_MATCH_COUNT {
        matches.len()
    } else {
        PERFORMANCE_MATCH_COUNT
    };
    let mut recent_champions: Vec<String> = Vec::new();
    let mut i: usize = 0;
    while i < n
        invariant
            n <= matches@.len(),
            i <= n,
            recent_champions@.len() == i,
            forall|j: int| 0 <= j < i ==> (#[trigger] recent_champions@[j])@ == matches@[j].champion_name@,
        decreases n - i,
    {
        recent_champions.push(matches[i].champion_name.clone());
        i = i + 1;
    }
    let average = average_kda(matches, n);
    RecentPerformanceSummary {
        match_count: n,
        average_kda: average,
        kda_tag: kda_tag(average),
        recent_champions,
        top_champions: summarize_top_champions(matches),
    }
}

} // verus!
