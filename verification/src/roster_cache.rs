//! Keeping the champion-select roster fresh: fingerprints that tell rosters
//! apart, when a roster needs its recent statistics, carrying statistics over
//! from the cached roster, and the reconnect backoff of the event service.

use vstd::prelude::*;

use crate::constants::CHAMP_SELECT_HYDRATED_RECENT_LIMIT;
use crate::decimal::{decimal_of, i64_to_decimal};
use crate::domain::{ChampSelectPlayer, ChampSelectSnapshot, ChampSelectTeam, ParticipantRecentStats};
use crate::matches::{clone_recent_stats, same_recent_stats};
use crate::order::{lemma_lex_asymmetric, lemma_lex_irreflexive, lemma_lex_total, lex_lt, str_lt};
use crate::text::{concat_strs, str_eq};

verus! {

// ---------------------------------------------------------------------------
// Fingerprints

/// How `{:?}` writes a side.
pub open spec fn team_debug(team: ChampSelectTeam) -> Seq<char> {
    match team {
        ChampSelectTeam::Ally => "Ally"@,
        ChampSelectTeam::Enemy => "Enemy"@,
    }
}

/// `summoner_id:display_name:champion_id:team:puuid`, with `0` for no
/// champion.
pub open spec fn full_part(p: ChampSelectPlayer) -> Seq<char> {
    let champion = match p.champion_id {
        Some(c) => c,
        None => 0,
    };
    decimal_of(p.summoner_id as int) + ":"@ + p.display_name@ + ":"@ + decimal_of(champion as int)
        + ":"@ + team_debug(p.team) + ":"@ + p.puuid@
}

/// `summoner_id:display_name:team:puuid`.
pub open spec fn roster_part(p: ChampSelectPlayer) -> Seq<char> {
    decimal_of(p.summoner_id as int) + ":"@ + p.display_name@ + ":"@ + team_debug(p.team) + ":"@
        + p.puuid@
}

/// The parts joined with `|`.
pub open spec fn joined(parts: Seq<Seq<char>>) -> Seq<char>
    decreases parts.len(),
{
    if parts.len() == 0 {
        Seq::empty()
    } else if parts.len() == 1 {
        parts[0]
    } else {
        joined(parts.drop_last()) + "|"@ + parts.last()
    }
}

pub open spec fn sorted_ascending(s: Seq<Seq<char>>) -> bool {
    forall|i: int, j: int| 0 <= i < j < s.len() ==> !lex_lt(#[trigger] s[j], #[trigger] s[i])
}

/// `r` is the parts sorted ascending and joined with `|`.
pub open spec fn is_joined_sorted(r: Seq<char>, parts: Seq<Seq<char>>) -> bool {
    exists|sorted: Seq<Seq<char>>|
        {
            &&& sorted.to_multiset() == parts.to_multiset()
            &&& sorted_ascending(sorted)
            &&& r == joined(sorted)
        }
}

pub open spec fn full_parts(players: Seq<ChampSelectPlayer>) -> Seq<Seq<char>> {
    players.map_values(|p: ChampSelectPlayer| full_part(p))
}

pub open spec fn roster_parts(players: Seq<ChampSelectPlayer>) -> Seq<Seq<char>> {
    players.map_values(|p: ChampSelectPlayer| roster_part(p))
}

fn team_debug_exec(team: ChampSelectTeam) -> (r: &'static str)
    ensures
        r@ == team_debug(team),
{
    match team {
        ChampSelectTeam::Ally => "Ally",
        ChampSelectTeam::Enemy => "Enemy",
    }
}

fn full_part_exec(p: &ChampSelectPlayer) -> (r: String)
    ensures
        r@ == full_part(*p),
{
    let champion: i64 = match p.champion_id {
        Some(c) => c,
        None => 0,
    };
    let s = i64_to_decimal(p.summoner_id);
    let s = concat_strs(s.as_str(), ":");
    let s = concat_strs(s.as_str(), p.display_name.as_str());
    let s = concat_strs(s.as_str(), ":");
    let c = i64_to_decimal(champion);
    let s = concat_strs(s.as_str(), c.as_str());
    let s = concat_strs(s.as_str(), ":");
    let s = concat_strs(s.as_str(), team_debug_exec(p.team));
    let s = concat_strs(s.as_str(), ":");
    concat_strs(s.as_str(), p.puuid.as_str())
}

fn roster_part_exec(p: &ChampSelectPlayer) -> (r: String)
    ensures
        r@ == roster_part(*p),
{
    let s = i64_to_decimal(p.summoner_id);
    let s = concat_strs(s.as_str(), ":");
    let s = concat_strs(s.as_str(), p.display_name.as_str());
    let s = concat_strs(s.as_str(), ":");
    let s = concat_strs(s.as_str(), team_debug_exec(p.team));
    let s = concat_strs(s.as_str(), ":");
    concat_strs(s.as_str(), p.puuid.as_str())
}

proof fn lemma_not_lt_transitive(a: Seq<char>, b: Seq<char>, c: Seq<char>)
    requires
        !lex_lt(a, b),
        !lex_lt(b, c),
    ensures
        !lex_lt(a, c),
{
    lemma_lex_total(a, b);
    lemma_lex_total(b, c);
    if lex_lt(a, c) {
        if a == b {
            lemma_lex_asymmetric(a, c);
            if b != c {
                lemma_lex_total(a, c);
            }
        } else if b == c {
            lemma_lex_asymmetric(b, a);
        } else {
            crate::order::lemma_lex_transitive(c, b, a);
            lemma_lex_asymmetric(c, a);
        }
    }
}

/// Sorts `parts` ascending and joins them with `|`.
fn join_sorted(parts: &Vec<String>) -> (r: String)
    ensures
        is_joined_sorted(r@, crate::validation::strings_view(parts@)),
{
    broadcast use vstd::seq_lib::group_to_multiset_ensures;

    let ghost views = crate::validation::strings_view(parts@);
    let mut out: Vec<String> = Vec::new();
    let mut k: usize = 0;
    proof {
        assert(views.take(0) == Seq::<Seq<char>>::empty());
        assert(crate::validation::strings_view(out@) == Seq::<Seq<char>>::empty());
    }
    while k < parts.len()
        invariant
            views == crate::validation::strings_view(parts@),
            k <= parts@.len(),
            out@.len() == k,
            crate::validation::strings_view(out@).to_multiset() == views.take(k as int).to_multiset(),
            sorted_ascending(crate::validation::strings_view(out@)),
        decreases parts@.len() - k,
    {
        let x = parts[k].clone();
        let mut j: usize = k;
        while j > 0 && str_lt(x.as_str(), out[j - 1].as_str())
            invariant
                j <= k,
                out@.len() == k,
                x@ == views[k as int],
                forall|q: int| j <= q < k ==> lex_lt(x@, (#[trigger] out@[q])@),
            decreases j,
        {
            j = j - 1;
        }
        let ghost old_out = crate::validation::strings_view(out@);
        proof {
            assert forall|p: int| 0 <= p < j implies !lex_lt(x@, #[trigger] old_out[p]) by {
                if p < j - 1 {
                    assert(!lex_lt(old_out[j - 1], old_out[p]));
                    lemma_not_lt_transitive(x@, old_out[j - 1], old_out[p]);
                }
            }
            assert forall|q: int| j <= q < k implies !lex_lt(#[trigger] old_out[q], x@) by {
                assert(lex_lt(x@, out@[q]@));
                lemma_lex_asymmetric(x@, old_out[q]);
            }
        }
        out.insert(j, x);
        proof {
            let now = crate::validation::strings_view(out@);
            assert(now == old_out.insert(j as int, x@));
            assert(views.take(k + 1) == views.take(k as int).push(views[k as int]));
            vstd::seq_lib::to_multiset_insert(old_out, j as int, x@);
            vstd::seq_lib::to_multiset_build(views.take(k as int), views[k as int]);
            assert(now.to_multiset() == old_out.to_multiset().insert(x@));
            assert forall|a: int, b: int| 0 <= a < b < k + 1 implies !lex_lt(
                #[trigger] now[b],
                #[trigger] now[a],
            ) by {
                if a < j && b < j {
                    assert(now[a] == old_out[a] && now[b] == old_out[b]);
                } else if a < j && b == j {
                    assert(now[a] == old_out[a]);
                } else if a < j {
                    assert(now[a] == old_out[a] && now[b] == old_out[b - 1]);
                } else if a == j {
                    assert(now[b] == old_out[b - 1]);
                } else {
                    assert(now[a] == old_out[a - 1] && now[b] == old_out[b - 1]);
                }
            }
        }
        k = k + 1;
    }
    let ghost sorted = crate::validation::strings_view(out@);
    let mut r = String::new();
    let mut i: usize = 0;
    proof {
        assert(sorted.take(0) == Seq::<Seq<char>>::empty());
    }
    while i < out.len()
        invariant
            sorted == crate::validation::strings_view(out@),
            i <= out@.len(),
            r@ == joined(sorted.take(i as int)),
        decreases out@.len() - i,
    {
        proof {
            assert(sorted.take(i + 1).drop_last() == sorted.take(i as int));
            assert(sorted.take(i + 1).last() == out@[i as int]@);
        }
        if i == 0 {
            r = out[i].clone();
            proof {
                assert(sorted.take(1).len() == 1);
                assert(sorted.take(1)[0] == out@[0]@);
            }
        } else {
            let with_bar = concat_strs(r.as_str(), "|");
            r = concat_strs(with_bar.as_str(), out[i].as_str());
        }
        i = i + 1;
    }
    proof {
        assert(sorted.take(sorted.len() as int) == sorted);
        assert(views.take(views.len() as int) == views);
    }
    r
}

/// The order the fingerprints sort their parts by.
pub open spec fn part_le(a: Seq<char>, b: Seq<char>) -> bool {
    !lex_lt(b, a)
}

proof fn lemma_part_le_total()
    ensures
        vstd::relations::total_ordering(|a: Seq<char>, b: Seq<char>| part_le(a, b)),
{
    let le = |a: Seq<char>, b: Seq<char>| part_le(a, b);
    assert forall|x: Seq<char>| #[trigger] le(x, x) by {
        lemma_lex_irreflexive(x);
    }
    assert forall|x: Seq<char>, y: Seq<char>| #[trigger] le(x, y) && #[trigger] le(y, x) implies x == y by {
        lemma_lex_total(x, y);
    }
    assert forall|x: Seq<char>, y: Seq<char>, z: Seq<char>| #[trigger] le(x, y) && #[trigger] le(y, z) implies le(x, z) by {
        lemma_not_lt_transitive(z, y, x);
    }
    assert forall|x: Seq<char>, y: Seq<char>| #[trigger] le(x, y) || #[trigger] le(y, x) by {
        lemma_lex_total(x, y);
        if lex_lt(x, y) {
            lemma_lex_asymmetric(x, y);
        }
    }
}

/// A fingerprint is determined by its parts: however the parts were
/// ordered, sorting and joining them gives one string.
pub proof fn lemma_fingerprint_determined(r1: Seq<char>, r2: Seq<char>, parts: Seq<Seq<char>>)
    requires
        is_joined_sorted(r1, parts),
        is_joined_sorted(r2, parts),
    ensures
        r1 == r2,
{
    let s1 = choose|s: Seq<Seq<char>>|
        s.to_multiset() == parts.to_multiset() && sorted_ascending(s) && r1 == joined(s);
    let s2 = choose|s: Seq<Seq<char>>|
        s.to_multiset() == parts.to_multiset() && sorted_ascending(s) && r2 == joined(s);
    let le = |a: Seq<char>, b: Seq<char>| part_le(a, b);
    lemma_part_le_total();
    assert(vstd::relations::sorted_by(s1, le));
    assert(vstd::relations::sorted_by(s2, le));
    vstd::seq_lib::lemma_sorted_unique(s1, s2, le);
}

/// The fingerprint of a snapshot: every player's
/// `summoner_id:display_name:champion_id:team:puuid`, sorted and joined with
/// `|`. Recent statistics play no part.
pub fn champ_select_fingerprint(snapshot: &ChampSelectSnapshot) -> (r: String)
    ensures
        is_joined_sorted(r@, full_parts(snapshot.players@)),
{
    let mut parts: Vec<String> = Vec::new();
    let mut i: usize = 0;
    while i < snapshot.players.len()
        invariant
            i <= snapshot.players@.len(),
            parts@.len() == i,
            forall|k: int| 0 <= k < i ==> (#[trigger] parts@[k])@ == full_part(snapshot.players@[k]),
        decreases snapshot.players@.len() - i,
    {
        parts.push(full_part_exec(&snapshot.players[i]));
        i = i + 1;
    }
    proof {
        assert(crate::validation::strings_view(parts@) == full_parts(snapshot.players@));
    }
    join_sorted(&parts)
}

/// The roster fingerprint of a snapshot: every player's
/// `summoner_id:display_name:team:puuid`, sorted and joined with `|`. The
/// champions and the recent statistics play no part.
pub fn champ_select_roster_fingerprint(snapshot: &ChampSelectSnapshot) -> (r: String)
    ensures
        is_joined_sorted(r@, roster_parts(snapshot.players@)),
{
    let mut parts: Vec<String> = Vec::new();
    let mut i: usize = 0;
    while i < snapshot.players.len()
        invariant
            i <= snapshot.players@.len(),
            parts@.len() == i,
            forall|k: int| 0 <= k < i ==> (#[trigger] parts@[k])@ == roster_part(snapshot.players@[k]),
        decreases snapshot.players@.len() - i,
    {
        parts.push(roster_part_exec(&snapshot.players[i]));
        i = i + 1;
    }
    proof {
        assert(crate::validation::strings_view(parts@) == roster_parts(snapshot.players@));
    }
    join_sorted(&parts)
}

/// Players that agree in summoner id, display name, side and puuid.
pub open spec fn same_roster_players(a: Seq<ChampSelectPlayer>, b: Seq<ChampSelectPlayer>) -> bool {
    &&& a.len() == b.len()
    &&& forall|i: int|
        0 <= i < a.len() ==> {
            &&& (#[trigger] a[i]).summoner_id == b[i].summoner_id
            &&& a[i].display_name@ == b[i].display_name@
            &&& a[i].team == b[i].team
            &&& a[i].puuid@ == b[i].puuid@
        }
}

/// The roster fingerprint ignores the champions and the recent statistics:
/// rosters whose players agree in summoner id, display name, side and puuid
/// have the same roster fingerprint.
pub proof fn lemma_roster_fingerprint_ignores_champions(
    a: Seq<ChampSelectPlayer>,
    b: Seq<ChampSelectPlayer>,
    fa: Seq<char>,
    fb: Seq<char>,
)
    requires
        same_roster_players(a, b),
        is_joined_sorted(fa, roster_parts(a)),
        is_joined_sorted(fb, roster_parts(b)),
    ensures
        fa == fb,
{
    assert(roster_parts(a) =~= roster_parts(b)) by {
        assert forall|i: int| 0 <= i < a.len() implies roster_parts(a)[i] == roster_parts(b)[i] by {
            assert(a[i].summoner_id == b[i].summoner_id);
        }
    }
    lemma_fingerprint_determined(fa, fb, roster_parts(a));
}

/// The fingerprint ignores the recent statistics: rosters whose players
/// agree in summoner id, display name, champion, side and puuid have the
/// same fingerprint.
pub proof fn lemma_fingerprint_ignores_recent_stats(
    a: Seq<ChampSelectPlayer>,
    b: Seq<ChampSelectPlayer>,
    fa: Seq<char>,
    fb: Seq<char>,
)
    requires
        same_roster_players(a, b),
        forall|i: int| 0 <= i < a.len() ==> (#[trigger] a[i]).champion_id == b[i].champion_id,
        is_joined_sorted(fa, full_parts(a)),
        is_joined_sorted(fb, full_parts(b)),
    ensures
        fa == fb,
{
    assert(full_parts(a) =~= full_parts(b)) by {
        assert forall|i: int| 0 <= i < a.len() implies full_parts(a)[i] == full_parts(b)[i] by {
            assert(a[i].summoner_id == b[i].summoner_id);
            assert(a[i].champion_id == b[i].champion_id);
        }
    }
    lemma_fingerprint_determined(fa, fb, full_parts(a));
}

// ---------------------------------------------------------------------------
// Hydration

pub open spec fn spec_needs_hydration(
    cached_roster_fingerprint: Option<Seq<char>>,
    roster_fingerprint: Seq<char>,
    cached_recent_limit: i64,
) -> bool {
    cached_roster_fingerprint != Some(roster_fingerprint) || cached_recent_limit
        < CHAMP_SELECT_HYDRATED_RECENT_LIMIT
}

/// A roster needs its recent statistics when it is not the cached roster, or
/// when the cached roster was read with fewer recent matches than a hydrated
/// one.
pub fn champ_select_cache_needs_hydration(
    cached_roster_fingerprint: Option<&str>,
    roster_fingerprint: &str,
    cached_recent_limit: i64,
) -> (r: bool)
    ensures
        r == spec_needs_hydration(
            match cached_roster_fingerprint {
                Some(s) => Some(s@),
                None => None,
            },
            roster_fingerprint@,
            cached_recent_limit,
        ),
{
    let same = match cached_roster_fingerprint {
        Some(s) => str_eq(s, roster_fingerprint),
        None => false,
    };
    !same || cached_recent_limit < CHAMP_SELECT_HYDRATED_RECENT_LIMIT
}

// ---------------------------------------------------------------------------
// Carrying statistics over

/// The statistics the cached roster holds for `puuid`: those of the last
/// cached player with that puuid that has statistics.
pub open spec fn cached_stats_for(players: Seq<ChampSelectPlayer>, puuid: Seq<char>) -> Option<
    ParticipantRecentStats,
>
    decreases players.len(),
{
    if players.len() == 0 {
        None
    } else if players.last().puuid@ == puuid && players.last().recent_stats is Some {
        players.last().recent_stats
    } else {
        cached_stats_for(players.drop_last(), puuid)
    }
}

fn find_cached_stats(players: &Vec<ChampSelectPlayer>, puuid: &str) -> (r: Option<ParticipantRecentStats>)
    ensures
        match cached_stats_for(players@, puuid@) {
            Some(s) => r is Some && same_recent_stats(r->0, s),
            None => r is None,
        },
{
    let mut j: usize = players.len();
    proof {
        assert(players@.take(j as int) == players@);
    }
    while j > 0
        invariant
            j <= players@.len(),
            cached_stats_for(players@, puuid@) == cached_stats_for(players@.take(j as int), puuid@),
        decreases j,
    {
        proof {
            assert(players@.take(j as int).drop_last() == players@.take(j - 1));
        }
        let p = &players[j - 1];
        if str_eq(p.puuid.as_str(), puuid) {
            match &p.recent_stats {
                Some(s) => {
                    return Some(clone_recent_stats(s));
                },
                None => {},
            }
        }
        j = j - 1;
    }
    None
}

/// Players without recent statistics take those the cached roster holds for
/// their puuid; everything else stays as it is.
pub fn merge_recent_stats_from_cache(snapshot: &mut ChampSelectSnapshot, cached_snapshot: &ChampSelectSnapshot)
    ensures
        final(snapshot).cached_at == old(snapshot).cached_at,
        final(snapshot).players@.len() == old(snapshot).players@.len(),
        forall|i: int|
            0 <= i < final(snapshot).players@.len() ==> {
                let before = old(snapshot).players@[i];
                let after = #[trigger] final(snapshot).players@[i];
                &&& after.summoner_id == before.summoner_id
                &&& after.puuid == before.puuid
                &&& after.display_name == before.display_name
                &&& after.champion_id == before.champion_id
                &&& after.champion_name == before.champion_name
                &&& after.team == before.team
                &&& after.ranked_queues == before.ranked_queues
                &&& match before.recent_stats {
                    Some(s) => after.recent_stats == Some(s),
                    None => match cached_stats_for(cached_snapshot.players@, before.puuid@) {
                        Some(s) => after.recent_stats is Some && same_recent_stats(
                            after.recent_stats->0,
                            s,
                        ),
                        None => after.recent_stats is None,
                    },
                }
            },
{
    let ghost orig = snapshot.players@;
    let mut i: usize = 0;
    while i < snapshot.players.len()
        invariant
            snapshot.players@.len() == orig.len(),
            snapshot.cached_at == old(snapshot).cached_at,
            orig == old(snapshot).players@,
            i <= orig.len(),
            forall|k: int| i <= k < orig.len() ==> #[trigger] snapshot.players@[k] == orig[k],
            forall|k: int|
                0 <= k < i ==> {
                    let before = orig[k];
                    let after = #[trigger] snapshot.players@[k];
                    &&& after.summoner_id == before.summoner_id
                    &&& after.puuid == before.puuid
                    &&& after.display_name == before.display_name
                    &&& after.champion_id == before.champion_id
                    &&& after.champion_name == before.champion_name
                    &&& after.team == before.team
                    &&& after.ranked_queues == before.ranked_queues
                    &&& match before.recent_stats {
                        Some(s) => after.recent_stats == Some(s),
                        None => match cached_stats_for(cached_snapshot.players@, before.puuid@) {
                            Some(s) => after.recent_stats is Some && same_recent_stats(
                                after.recent_stats->0,
                                s,
                            ),
                            None => after.recent_stats is None,
                        },
                    }
                },
        decreases orig.len() - i,
    {
        if snapshot.players[i].recent_stats.is_none() {
            let found = find_cached_stats(&cached_snapshot.players, snapshot.players[i].puuid.as_str());
            snapshot.players[i].recent_stats = found;
        }
        i = i + 1;
    }
}

// ---------------------------------------------------------------------------
// Reconnect backoff

/// The wait before reconnect attempt `step`, in seconds: 1, 3, 10, then 30.
pub open spec fn backoff_delay(step: int) -> u64 {
    if step <= 0 {
        1
    } else if step == 1 {
        3
    } else if step == 2 {
        10
    } else {
        30
    }
}

/// The waits between reconnects of the event service.
#[derive(Debug, Clone)]
pub struct LeagueReconnectBackoff {
    index: usize,
}

impl LeagueReconnectBackoff {
    /// How far the backoff has advanced, from 0 to 3.
    pub closed spec fn step(&self) -> int {
        self.index as int
    }

    pub fn new() -> (r: LeagueReconnectBackoff)
        ensures
            r.step() == 0,
    {
        LeagueReconnectBackoff { index: 0 }
    }

    /// The next wait in seconds; the waits grow to 30 seconds and stay there.
    pub fn next_delay(&mut self) -> (d: u64)
        ensures
            d == backoff_delay(old(self).step()),
            final(self).step() == if old(self).step() < 3 {
                old(self).step() + 1
            } else {
                old(self).step()
            },
    {
        let d: u64 = if self.index == 0 {
            1
        } else if self.index == 1 {
            3
        } else if self.index == 2 {
            10
        } else {
            30
        };
        if self.index < 3 {
            self.index = self.index + 1;
        }
        d
    }

    /// Back to the first wait.
    pub fn reset(&mut self)
        ensures
            final(self).step() == 0,
    {
        self.index = 0;
    }
}

} // verus!

verus! {

// ---------------------------------------------------------------------------
// The cached roster

/// The roster as cached, with when it was read and how many recent matches
/// its players were read with.
#[derive(Debug, Clone)]
pub struct ChampSelectCacheEntry {
    pub snapshot: ChampSelectSnapshot,
    /// When it was read, in milliseconds on the caller's monotonic clock.
    pub cached_at_ms: u64,
    pub recent_limit: i64,
}

/// A cached roster is served while it is younger than eight seconds and was
/// read with at least `recent_limit` recent matches.
pub open spec fn spec_cache_serves(entry: ChampSelectCacheEntry, recent_limit: i64, now_ms: u64) -> bool {
    crate::client_cache::elapsed_ms(now_ms, entry.cached_at_ms) < crate::constants::CHAMP_SELECT_CACHE_TTL_MS
        && entry.recent_limit >= recent_limit
}

pub fn champ_select_cache_serves(entry: &ChampSelectCacheEntry, recent_limit: i64, now_ms: u64) -> (r: bool)
    ensures
        r == spec_cache_serves(*entry, recent_limit, now_ms),
{
    let elapsed: u64 = if now_ms >= entry.cached_at_ms {
        now_ms - entry.cached_at_ms
    } else {
        0
    };
    elapsed < crate::constants::CHAMP_SELECT_CACHE_TTL_MS && entry.recent_limit >= recent_limit
}

/// What to do with a roster read after a client event.
#[derive(Debug)]
pub struct RefreshPlan {
    /// The roster, with statistics carried over from the cached one when the
    /// players are the same.
    pub snapshot: ChampSelectSnapshot,
    pub fingerprint: String,
    pub roster_fingerprint: String,
    pub cached_fingerprint: Option<String>,
    pub cached_roster_fingerprint: Option<String>,
    /// Stop a running hydration: the players changed.
    pub cancel_hydration: bool,
    /// Cache the roster (and announce it) with this recent-match count; none
    /// when the cached roster is the same.
    pub store_with_limit: Option<i64>,
    /// Start reading the players' recent statistics.
    pub start_hydration: bool,
}

/// Plans the refresh of the roster after a client event: a roster with the
/// cached players keeps their statistics; a changed roster cancels the
/// running hydration; a roster that differs from the cached one is cached
/// (keeping the cached recent-match count when the players are the same)
/// and announced; and the players' statistics are read when
/// `champ_select_cache_needs_hydration` says so.
pub fn plan_champ_select_refresh(snapshot: ChampSelectSnapshot, cached: Option<&ChampSelectCacheEntry>) -> (r:
    RefreshPlan)
    ensures
        is_joined_sorted(r.roster_fingerprint@, roster_parts(snapshot.players@)),
        is_joined_sorted(r.fingerprint@, full_parts(r.snapshot.players@)),
        match cached {
            Some(e) => (r.cached_roster_fingerprint matches Some(c) && is_joined_sorted(
                c@,
                roster_parts(e.snapshot.players@),
            )) && (r.cached_fingerprint matches Some(f) && is_joined_sorted(
                f@,
                full_parts(e.snapshot.players@),
            )),
            None => r.cached_roster_fingerprint is None && r.cached_fingerprint is None,
        },
        ({
            let same_roster = (r.cached_roster_fingerprint matches Some(c) && c@
                == r.roster_fingerprint@);
            let cached_limit = match cached {
                Some(e) => e.recent_limit,
                None => crate::constants::CHAMP_SELECT_LIGHT_RECENT_LIMIT,
            };
            &&& r.cancel_hydration == !same_roster
            &&& r.start_hydration == spec_needs_hydration(
                match r.cached_roster_fingerprint {
                    Some(c) => Some(c@),
                    None => None,
                },
                r.roster_fingerprint@,
                cached_limit,
            )
            &&& r.store_with_limit == if (r.cached_fingerprint matches Some(f) && f@
                == r.fingerprint@) {
                None
            } else if same_roster {
                Some(cached_limit)
            } else {
                Some(crate::constants::CHAMP_SELECT_LIGHT_RECENT_LIMIT)
            }
            &&& r.snapshot.players@.len() == snapshot.players@.len()
            &&& !same_roster ==> r.snapshot == snapshot
        }),
{
    let mut snapshot = snapshot;
    let roster_fingerprint = champ_select_roster_fingerprint(&snapshot);
    let cached_roster_fingerprint = match cached {
        Some(e) => Some(champ_select_roster_fingerprint(&e.snapshot)),
        None => None,
    };
    let cached_limit: i64 = match cached {
        Some(e) => e.recent_limit,
        None => crate::constants::CHAMP_SELECT_LIGHT_RECENT_LIMIT,
    };
    let needs = champ_select_cache_needs_hydration(
        match &cached_roster_fingerprint {
            Some(c) => Some(c.as_str()),
            None => None,
        },
        roster_fingerprint.as_str(),
        cached_limit,
    );
    let same_roster = match &cached_roster_fingerprint {
        Some(c) => str_eq(c.as_str(), roster_fingerprint.as_str()),
        None => false,
    };
    if same_roster {
        match cached {
            Some(e) => merge_recent_stats_from_cache(&mut snapshot, &e.snapshot),
            None => {},
        }
    }
    let fingerprint = champ_select_fingerprint(&snapshot);
    let cached_fingerprint = match cached {
        Some(e) => Some(champ_select_fingerprint(&e.snapshot)),
        None => None,
    };
    let unchanged = match &cached_fingerprint {
        Some(f) => str_eq(f.as_str(), fingerprint.as_str()),
        None => false,
    };
    let store_with_limit = if unchanged {
        None
    } else if same_roster {
        Some(cached_limit)
    } else {
        Some(crate::constants::CHAMP_SELECT_LIGHT_RECENT_LIMIT)
    };
    RefreshPlan {
        snapshot,
        fingerprint,
        roster_fingerprint,
        cached_fingerprint,
        cached_roster_fingerprint,
        cancel_hydration: !same_roster,
        store_with_limit,
        start_hydration: needs,
    }
}

} // verus!

verus! {

/// The reconnect waits never shrink as the backoff advances, and never
/// exceed thirty seconds.
pub proof fn lemma_backoff_grows_to_cap(a: int, b: int)
    requires
        a <= b,
    ensures
        backoff_delay(a) <= backoff_delay(b),
        backoff_delay(b) <= 30,
        backoff_delay(b) >= 1,
{
}

} // verus!
