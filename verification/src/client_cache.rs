//! What the assistant keeps of the client's answers: summoners by id and by
//! name, and players' recent statistics. A read takes what is fresh from the
//! cache and names what is missing; the missing part is read from the client
//! and written back with the time it was read.

use vstd::prelude::*;

use crate::champ_select::{
    find_summoner_by_id, find_summoner_by_name, summoner_by_id, summoner_by_name,
    SummonerBatchEntry,
};
use crate::constants::{
    RECENT_STATS_CACHE_TTL_MS, RECENT_STATS_FAILURE_CACHE_TTL_MS, SUMMONER_CACHE_TTL_MS,
    SUMMONER_FAILURE_CACHE_TTL_MS,
};
use crate::decimal::{decimal_of, i64_to_decimal};
use crate::domain::ParticipantRecentStats;
use crate::errors::LeagueClientReadError;
use crate::keyed_cache::{IdCache, NameCache};
use crate::matches::{clone_recent_stats, same_recent_stats};
use crate::text::{concat_strs, normalize_player_name, normalized_player_name, str_eq};

verus! {

// ---------------------------------------------------------------------------
// Entries and freshness

/// A summoner lookup as cached: the summoner, or none when the client did
/// not know it.
#[derive(Debug)]
pub struct SummonerCacheEntry {
    pub entry: Option<SummonerBatchEntry>,
    /// When it was read, in milliseconds on the caller's monotonic clock.
    pub cached_at_ms: u64,
}

/// A recent-statistics read as cached.
#[derive(Debug)]
pub struct RecentStatsCacheEntry {
    pub result: Result<ParticipantRecentStats, LeagueClientReadError>,
    /// When it was read, in milliseconds on the caller's monotonic clock.
    pub cached_at_ms: u64,
}

/// Milliseconds from `at` to `now`, none when `now` is earlier.
pub open spec fn elapsed_ms(now_ms: u64, at_ms: u64) -> int {
    if now_ms >= at_ms {
        now_ms - at_ms
    } else {
        0
    }
}

/// A summoner lookup is served for ten minutes, a failed one for thirty
/// seconds.
pub open spec fn spec_summoner_fresh(entry: SummonerCacheEntry, now_ms: u64) -> bool {
    elapsed_ms(now_ms, entry.cached_at_ms) < if entry.entry is Some {
        SUMMONER_CACHE_TTL_MS
    } else {
        SUMMONER_FAILURE_CACHE_TTL_MS
    }
}

/// Recent statistics are served for ten minutes, a failed read for thirty
/// seconds.
pub open spec fn spec_recent_stats_fresh(entry: RecentStatsCacheEntry, now_ms: u64) -> bool {
    elapsed_ms(now_ms, entry.cached_at_ms) < if entry.result is Ok {
        RECENT_STATS_CACHE_TTL_MS
    } else {
        RECENT_STATS_FAILURE_CACHE_TTL_MS
    }
}

fn elapsed(now_ms: u64, at_ms: u64) -> (r: u64)
    ensures
        r == elapsed_ms(now_ms, at_ms),
{
    if now_ms >= at_ms {
        now_ms - at_ms
    } else {
        0
    }
}

pub fn summoner_cache_is_fresh(entry: &SummonerCacheEntry, now_ms: u64) -> (r: bool)
    ensures
        r == spec_summoner_fresh(*entry, now_ms),
{
    let ttl = if entry.entry.is_some() {
        SUMMONER_CACHE_TTL_MS
    } else {
        SUMMONER_FAILURE_CACHE_TTL_MS
    };
    elapsed(now_ms, entry.cached_at_ms) < ttl
}

pub fn recent_stats_cache_is_fresh(entry: &RecentStatsCacheEntry, now_ms: u64) -> (r: bool)
    ensures
        r == spec_recent_stats_fresh(*entry, now_ms),
{
    let ttl = if entry.result.is_ok() {
        RECENT_STATS_CACHE_TTL_MS
    } else {
        RECENT_STATS_FAILURE_CACHE_TTL_MS
    };
    elapsed(now_ms, entry.cached_at_ms) < ttl
}

pub open spec fn spec_recent_stats_key(puuid: Seq<char>, limit: i64) -> Seq<char> {
    puuid + ":"@ + decimal_of(limit as int)
}

/// The cache key of a player's recent statistics: `puuid:limit`.
pub fn recent_stats_cache_key(player_puuid: &str, limit: i64) -> (r: String)
    ensures
        r@ == spec_recent_stats_key(player_puuid@, limit),
{
    let head = concat_strs(player_puuid, ":");
    let digits = i64_to_decimal(limit);
    concat_strs(head.as_str(), digits.as_str())
}

// ---------------------------------------------------------------------------
// Copies

pub fn clone_summoner(s: &SummonerBatchEntry) -> (r: SummonerBatchEntry)
    ensures
        r == *s,
{
    SummonerBatchEntry {
        summoner_id: s.summoner_id,
        puuid: s.puuid.clone(),
        display_name: s.display_name.clone(),
    }
}

pub fn clone_read_error(e: &LeagueClientReadError) -> (r: LeagueClientReadError)
    ensures
        r == *e,
{
    match e {
        LeagueClientReadError::ClientUnavailable(m) => LeagueClientReadError::ClientUnavailable(m.clone()),
        LeagueClientReadError::ClientAccess(m) => LeagueClientReadError::ClientAccess(m.clone()),
        LeagueClientReadError::Integration(m) => LeagueClientReadError::Integration(m.clone()),
    }
}

/// Two answers to a statistics read hold the same values.
pub open spec fn same_stats_result(
    a: Result<ParticipantRecentStats, LeagueClientReadError>,
    b: Result<ParticipantRecentStats, LeagueClientReadError>,
) -> bool {
    match (a, b) {
        (Ok(x), Ok(y)) => same_recent_stats(x, y),
        (Err(x), Err(y)) => x == y,
        _ => false,
    }
}

pub fn clone_stats_result(r: &Result<ParticipantRecentStats, LeagueClientReadError>) -> (c: Result<
    ParticipantRecentStats,
    LeagueClientReadError,
>)
    ensures
        same_stats_result(c, *r),
{
    match r {
        Ok(s) => Ok(clone_recent_stats(s)),
        Err(e) => Err(clone_read_error(e)),
    }
}

// ---------------------------------------------------------------------------
// Summoners by id

/// What a read of `ids` finds fresh in the cache: the summoners it knows
/// (ids known to be unknown give nothing), and the ids it must read.
pub open spec fn ids_lookup(
    cache: IdCache<SummonerCacheEntry>,
    ids: Seq<i64>,
    now_ms: u64,
) -> (Seq<SummonerBatchEntry>, Seq<i64>)
    decreases ids.len(),
{
    if ids.len() == 0 {
        (Seq::empty(), Seq::empty())
    } else {
        let (found, missing) = ids_lookup(cache, ids.drop_last(), now_ms);
        let id = ids.last();
        match cache.get_spec(id) {
            Some(e) => if spec_summoner_fresh(e, now_ms) {
                match e.entry {
                    Some(s) => (found.push(s), missing),
                    None => (found, missing),
                }
            } else {
                (found, missing.push(id))
            },
            None => (found, missing.push(id)),
        }
    }
}

/// The summoners of `ids` that the cache holds fresh, and the ids missing.
pub fn lookup_summoners_by_ids(cache: &IdCache<SummonerCacheEntry>, ids: &[i64], now_ms: u64) -> (r: (
    Vec<SummonerBatchEntry>,
    Vec<i64>,
))
    ensures
        (r.0@, r.1@) == ids_lookup(*cache, ids@, now_ms),
{
    let mut found: Vec<SummonerBatchEntry> = Vec::new();
    let mut missing: Vec<i64> = Vec::new();
    let mut i: usize = 0;
    proof {
        assert(ids@.take(0) == Seq::<i64>::empty());
    }
    while i < ids.len()
        invariant
            i <= ids@.len(),
            (found@, missing@) == ids_lookup(*cache, ids@.take(i as int), now_ms),
        decreases ids@.len() - i,
    {
        let id = ids[i];
        proof {
            assert(ids@.take(i + 1).drop_last() == ids@.take(i as int));
            assert(ids@.take(i + 1).last() == id);
        }
        match cache.get(id) {
            Some(e) => {
                if summoner_cache_is_fresh(e, now_ms) {
                    match &e.entry {
                        Some(s) => found.push(clone_summoner(s)),
                        None => {},
                    }
                } else {
                    missing.push(id);
                }
            },
            None => missing.push(id),
        }
        i = i + 1;
    }
    proof {
        assert(ids@.take(ids@.len() as int) == ids@);
    }
    (found, missing)
}

/// The summoners that a read of `missing` found, in order.
pub open spec fn found_by_ids(missing: Seq<i64>, fetched: Seq<SummonerBatchEntry>) -> Seq<
    SummonerBatchEntry,
>
    decreases missing.len(),
{
    if missing.len() == 0 {
        Seq::empty()
    } else {
        let found = found_by_ids(missing.drop_last(), fetched);
        match summoner_by_id(fetched, missing.last()) {
            Some(s) => found.push(s),
            None => found,
        }
    }
}

/// The last summoner found for `missing` whose normalised name is `name`.
pub open spec fn last_found_named(
    missing: Seq<i64>,
    fetched: Seq<SummonerBatchEntry>,
    name: Seq<char>,
) -> Option<SummonerBatchEntry>
    decreases missing.len(),
{
    if missing.len() == 0 {
        None
    } else {
        match summoner_by_id(fetched, missing.last()) {
            Some(s) => if normalized_player_name(s.display_name@) == name {
                Some(s)
            } else {
                last_found_named(missing.drop_last(), fetched, name)
            },
            None => last_found_named(missing.drop_last(), fetched, name),
        }
    }
}

/// Writes what the client answered for `missing` back to the caches: every
/// missing id gets its summoner (or none), and every summoner found is also
/// written under its name. Gives the summoners found, in order.
pub fn store_summoners_by_ids(
    id_cache: &mut IdCache<SummonerCacheEntry>,
    name_cache: &mut NameCache<SummonerCacheEntry>,
    missing: &[i64],
    fetched: &Vec<SummonerBatchEntry>,
    now_ms: u64,
) -> (r: Vec<SummonerBatchEntry>)
    ensures
        r@ == found_by_ids(missing@, fetched@),
        forall|q: i64|
            #[trigger] final(id_cache).get_spec(q) == if missing@.contains(q) {
                Some(SummonerCacheEntry { entry: summoner_by_id(fetched@, q), cached_at_ms: now_ms })
            } else {
                old(id_cache).get_spec(q)
            },
        forall|n: Seq<char>|
            #[trigger] final(name_cache).get_spec(n) == match last_found_named(missing@, fetched@, n) {
                Some(s) => Some(SummonerCacheEntry { entry: Some(s), cached_at_ms: now_ms }),
                None => old(name_cache).get_spec(n),
            },
{
    let mut found: Vec<SummonerBatchEntry> = Vec::new();
    let mut i: usize = 0;
    proof {
        assert(missing@.take(0) == Seq::<i64>::empty());
    }
    while i < missing.len()
        invariant
            i <= missing@.len(),
            found@ == found_by_ids(missing@.take(i as int), fetched@),
            forall|q: i64|
                #[trigger] id_cache.get_spec(q) == if missing@.take(i as int).contains(q) {
                    Some(SummonerCacheEntry { entry: summoner_by_id(fetched@, q), cached_at_ms: now_ms })
                } else {
                    old(id_cache).get_spec(q)
                },
            forall|n: Seq<char>|
                #[trigger] name_cache.get_spec(n) == match last_found_named(missing@.take(i as int), fetched@, n) {
                    Some(s) => Some(SummonerCacheEntry { entry: Some(s), cached_at_ms: now_ms }),
                    None => old(name_cache).get_spec(n),
                },
        decreases missing@.len() - i,
    {
        let id = missing[i];
        let ghost prefix = missing@.take(i as int);
        proof {
            assert(missing@.take(i + 1).drop_last() == prefix);
            assert(missing@.take(i + 1).last() == id);
            assert(missing@.take(i + 1) == prefix.push(id));
        }
        let k = find_summoner_by_id(fetched, id);
        let entry: Option<SummonerBatchEntry> = match k {
            Some(k) => {
                let s = clone_summoner(&fetched[k]);
                let key = normalize_player_name(s.display_name.as_str());
                name_cache.insert(key, SummonerCacheEntry { entry: Some(clone_summoner(&s)), cached_at_ms: now_ms });
                found.push(clone_summoner(&s));
                Some(s)
            },
            None => None,
        };
        id_cache.insert(id, SummonerCacheEntry { entry, cached_at_ms: now_ms });
        proof {
            assert forall|q: i64| missing@.take(i + 1).contains(q) <==> (prefix.contains(q) || q == id) by {
                crate::champ_select::lemma_push_contains(prefix, id, q);
            }
        }
        i = i + 1;
    }
    proof {
        assert(missing@.take(missing@.len() as int) == missing@);
    }
    found
}

// ---------------------------------------------------------------------------
// Summoners by name

/// What a read of `names` finds fresh in the cache: the summoners it knows,
/// and the names it must read. Blank names are skipped.
pub open spec fn names_lookup(
    cache: NameCache<SummonerCacheEntry>,
    names: Seq<Seq<char>>,
    now_ms: u64,
) -> (Seq<SummonerBatchEntry>, Seq<Seq<char>>)
    decreases names.len(),
{
    if names.len() == 0 {
        (Seq::empty(), Seq::empty())
    } else {
        let (found, missing) = names_lookup(cache, names.drop_last(), now_ms);
        let name = names.last();
        let normalized = normalized_player_name(name);
        if normalized.len() == 0 {
            (found, missing)
        } else {
            match cache.get_spec(normalized) {
                Some(e) => if spec_summoner_fresh(e, now_ms) {
                    match e.entry {
                        Some(s) => (found.push(s), missing),
                        None => (found, missing),
                    }
                } else {
                    (found, missing.push(name))
                },
                None => (found, missing.push(name)),
            }
        }
    }
}

/// The summoners named in `names` that the cache holds fresh, and the names
/// missing.
pub fn lookup_summoners_by_names(
    cache: &NameCache<SummonerCacheEntry>,
    names: &[String],
    now_ms: u64,
) -> (r: (Vec<SummonerBatchEntry>, Vec<String>))
    ensures
        (r.0@, crate::validation::strings_view(r.1@)) == names_lookup(
            *cache,
            crate::validation::strings_view(names@),
            now_ms,
        ),
{
    let ghost all = crate::validation::strings_view(names@);
    let mut found: Vec<SummonerBatchEntry> = Vec::new();
    let mut missing: Vec<String> = Vec::new();
    let mut i: usize = 0;
    proof {
        assert(all.take(0) == Seq::<Seq<char>>::empty());
        assert(crate::validation::strings_view(missing@) == Seq::<Seq<char>>::empty());
    }
    while i < names.len()
        invariant
            all == crate::validation::strings_view(names@),
            i <= names@.len(),
            (found@, crate::validation::strings_view(missing@)) == names_lookup(
                *cache,
                all.take(i as int),
                now_ms,
            ),
        decreases names@.len() - i,
    {
        let name = &names[i];
        proof {
            assert(all.take(i + 1).drop_last() == all.take(i as int));
            assert(all.take(i + 1).last() == name@);
        }
        let normalized = normalize_player_name(name.as_str());
        if !normalized.as_str().is_empty() {
            match cache.get(normalized.as_str()) {
                Some(e) => {
                    if summoner_cache_is_fresh(e, now_ms) {
                        match &e.entry {
                            Some(s) => found.push(clone_summoner(s)),
                            None => {},
                        }
                    } else {
                        let ghost before = missing@;
                        missing.push(name.clone());
                        proof {
                            assert(crate::validation::strings_view(missing@)
                                == crate::validation::strings_view(before).push(name@));
                        }
                    }
                },
                None => {
                    let ghost before = missing@;
                    missing.push(name.clone());
                    proof {
                        assert(crate::validation::strings_view(missing@)
                            == crate::validation::strings_view(before).push(name@));
                    }
                },
            }
        }
        i = i + 1;
    }
    proof {
        assert(all.take(all.len() as int) == all);
    }
    (found, missing)
}

/// The summoners that a read of the names `missing` found, in order.
pub open spec fn found_by_names(missing: Seq<Seq<char>>, fetched: Seq<SummonerBatchEntry>) -> Seq<
    SummonerBatchEntry,
>
    decreases missing.len(),
{
    if missing.len() == 0 {
        Seq::empty()
    } else {
        let found = found_by_names(missing.drop_last(), fetched);
        match summoner_by_name(fetched, normalized_player_name(missing.last())) {
            Some(s) => found.push(s),
            None => found,
        }
    }
}

/// The last summoner found for the names `missing` whose id is `id`.
pub open spec fn last_found_with_id(
    missing: Seq<Seq<char>>,
    fetched: Seq<SummonerBatchEntry>,
    id: i64,
) -> Option<SummonerBatchEntry>
    decreases missing.len(),
{
    if missing.len() == 0 {
        None
    } else {
        match summoner_by_name(fetched, normalized_player_name(missing.last())) {
            Some(s) => if s.summoner_id == id {
                Some(s)
            } else {
                last_found_with_id(missing.drop_last(), fetched, id)
            },
            None => last_found_with_id(missing.drop_last(), fetched, id),
        }
    }
}

pub open spec fn names_normalized(names: Seq<Seq<char>>) -> Seq<Seq<char>> {
    names.map_values(|n: Seq<char>| normalized_player_name(n))
}

/// Writes what the client answered for the names `missing` back to the
/// caches: every missing name gets its summoner (or none) under its
/// normalised form, and every summoner found is also written under its id.
/// Gives the summoners found, in order.
pub fn store_summoners_by_names(
    name_cache: &mut NameCache<SummonerCacheEntry>,
    id_cache: &mut IdCache<SummonerCacheEntry>,
    missing: &[String],
    fetched: &Vec<SummonerBatchEntry>,
    now_ms: u64,
) -> (r: Vec<SummonerBatchEntry>)
    ensures
        r@ == found_by_names(crate::validation::strings_view(missing@), fetched@),
        forall|n: Seq<char>|
            #[trigger] final(name_cache).get_spec(n) == if names_normalized(
                crate::validation::strings_view(missing@),
            ).contains(n) {
                Some(SummonerCacheEntry { entry: summoner_by_name(fetched@, n), cached_at_ms: now_ms })
            } else {
                old(name_cache).get_spec(n)
            },
        forall|q: i64|
            #[trigger] final(id_cache).get_spec(q) == match last_found_with_id(
                crate::validation::strings_view(missing@),
                fetched@,
                q,
            ) {
                Some(s) => Some(SummonerCacheEntry { entry: Some(s), cached_at_ms: now_ms }),
                None => old(id_cache).get_spec(q),
            },
{
    let ghost all = crate::validation::strings_view(missing@);
    let mut found: Vec<SummonerBatchEntry> = Vec::new();
    let mut i: usize = 0;
    proof {
        assert(all.take(0) == Seq::<Seq<char>>::empty());
    }
    while i < missing.len()
        invariant
            all == crate::validation::strings_view(missing@),
            i <= missing@.len(),
            found@ == found_by_names(all.take(i as int), fetched@),
            forall|n: Seq<char>|
                #[trigger] name_cache.get_spec(n) == if names_normalized(all.take(i as int)).contains(n) {
                    Some(SummonerCacheEntry { entry: summoner_by_name(fetched@, n), cached_at_ms: now_ms })
                } else {
                    old(name_cache).get_spec(n)
                },
            forall|q: i64|
                #[trigger] id_cache.get_spec(q) == match last_found_with_id(all.take(i as int), fetched@, q) {
                    Some(s) => Some(SummonerCacheEntry { entry: Some(s), cached_at_ms: now_ms }),
                    None => old(id_cache).get_spec(q),
                },
        decreases missing@.len() - i,
    {
        let name = &missing[i];
        let ghost prefix = all.take(i as int);
        proof {
            assert(all.take(i + 1).drop_last() == prefix);
            assert(all.take(i + 1).last() == name@);
            assert(all.take(i + 1) == prefix.push(name@));
            assert(names_normalized(all.take(i + 1)) == names_normalized(prefix).push(
                normalized_player_name(name@),
            ));
        }
        let normalized = normalize_player_name(name.as_str());
        let k = find_summoner_by_name(fetched, normalized.as_str());
        let entry: Option<SummonerBatchEntry> = match k {
            Some(k) => {
                let s = clone_summoner(&fetched[k]);
                id_cache.insert(s.summoner_id, SummonerCacheEntry { entry: Some(clone_summoner(&s)), cached_at_ms: now_ms });
                found.push(clone_summoner(&s));
                Some(s)
            },
            None => None,
        };
        let ghost key = normalized@;
        name_cache.insert(normalized, SummonerCacheEntry { entry, cached_at_ms: now_ms });
        proof {
            assert forall|n: Seq<char>| names_normalized(all.take(i + 1)).contains(n) <==> (names_normalized(prefix).contains(n) || n == key) by {
                crate::champ_select::lemma_push_contains(names_normalized(prefix), key, n);
            }
        }
        i = i + 1;
    }
    proof {
        assert(all.take(all.len() as int) == all);
    }
    found
}

// ---------------------------------------------------------------------------
// Recent statistics

/// The recent statistics of `puuid` read with `limit`, when the cache holds
/// them fresh.
pub fn lookup_recent_stats(
    cache: &NameCache<RecentStatsCacheEntry>,
    player_puuid: &str,
    limit: i64,
    now_ms: u64,
) -> (r: Option<Result<ParticipantRecentStats, LeagueClientReadError>>)
    ensures
        match cache.get_spec(spec_recent_stats_key(player_puuid@, limit)) {
            Some(e) => if spec_recent_stats_fresh(e, now_ms) {
                r is Some && same_stats_result(r->0, e.result)
            } else {
                r is None
            },
            None => r is None,
        },
{
    let key = recent_stats_cache_key(player_puuid, limit);
    match cache.get(key.as_str()) {
        Some(e) => if recent_stats_cache_is_fresh(e, now_ms) {
            Some(clone_stats_result(&e.result))
        } else {
            None
        },
        None => None,
    }
}

/// Writes a statistics read to the cache and gives it back.
pub fn store_recent_stats(
    cache: &mut NameCache<RecentStatsCacheEntry>,
    player_puuid: &str,
    limit: i64,
    result: Result<ParticipantRecentStats, LeagueClientReadError>,
    now_ms: u64,
) -> (r: Result<ParticipantRecentStats, LeagueClientReadError>)
    ensures
        same_stats_result(r, result),
        forall|k: Seq<char>|
            k != spec_recent_stats_key(player_puuid@, limit) ==> #[trigger] final(cache).get_spec(k)
                == old(cache).get_spec(k),
        final(cache).get_spec(spec_recent_stats_key(player_puuid@, limit)) matches Some(e)
            && e.cached_at_ms == now_ms && same_stats_result(e.result, result),
{
    let key = recent_stats_cache_key(player_puuid, limit);
    let copy = clone_stats_result(&result);
    cache.insert(key, RecentStatsCacheEntry { result, cached_at_ms: now_ms });
    copy
}

/// What a batch read of `puuids` finds fresh in the cache: each hit with
/// its answer, and the puuids it must read.
pub open spec fn stats_lookup(
    cache: NameCache<RecentStatsCacheEntry>,
    puuids: Seq<Seq<char>>,
    limit: i64,
    now_ms: u64,
) -> (Seq<(Seq<char>, RecentStatsCacheEntry)>, Seq<Seq<char>>)
    decreases puuids.len(),
{
    if puuids.len() == 0 {
        (Seq::empty(), Seq::empty())
    } else {
        let (hits, missing) = stats_lookup(cache, puuids.drop_last(), limit, now_ms);
        let p = puuids.last();
        match cache.get_spec(spec_recent_stats_key(p, limit)) {
            Some(e) => if spec_recent_stats_fresh(e, now_ms) {
                (hits.push((p, e)), missing)
            } else {
                (hits, missing.push(p))
            },
            None => (hits, missing.push(p)),
        }
    }
}

/// `r` holds the hits `hits`: the same puuids with the same answers.
pub open spec fn holds_hits(
    r: Seq<(String, Result<ParticipantRecentStats, LeagueClientReadError>)>,
    hits: Seq<(Seq<char>, RecentStatsCacheEntry)>,
) -> bool {
    &&& r.len() == hits.len()
    &&& forall|i: int|
        0 <= i < r.len() ==> (#[trigger] r[i]).0@ == hits[i].0 && same_stats_result(
            r[i].1,
            hits[i].1.result,
        )
}

/// The recent statistics of `puuids` that the cache holds fresh, with the
/// puuids missing.
pub fn lookup_recent_stats_batch(
    cache: &NameCache<RecentStatsCacheEntry>,
    player_puuids: &[String],
    limit: i64,
    now_ms: u64,
) -> (r: (Vec<(String, Result<ParticipantRecentStats, LeagueClientReadError>)>, Vec<String>))
    ensures
        holds_hits(r.0@, stats_lookup(*cache, crate::validation::strings_view(player_puuids@), limit, now_ms).0),
        crate::validation::strings_view(r.1@) == stats_lookup(
            *cache,
            crate::validation::strings_view(player_puuids@),
            limit,
            now_ms,
        ).1,
{
    let ghost all = crate::validation::strings_view(player_puuids@);
    let mut hits: Vec<(String, Result<ParticipantRecentStats, LeagueClientReadError>)> = Vec::new();
    let mut missing: Vec<String> = Vec::new();
    let mut i: usize = 0;
    proof {
        assert(all.take(0) == Seq::<Seq<char>>::empty());
        assert(crate::validation::strings_view(missing@) == Seq::<Seq<char>>::empty());
    }
    while i < player_puuids.len()
        invariant
            all == crate::validation::strings_view(player_puuids@),
            i <= player_puuids@.len(),
            holds_hits(hits@, stats_lookup(*cache, all.take(i as int), limit, now_ms).0),
            crate::validation::strings_view(missing@) == stats_lookup(
                *cache,
                all.take(i as int),
                limit,
                now_ms,
            ).1,
        decreases player_puuids@.len() - i,
    {
        let puuid = &player_puuids[i];
        proof {
            assert(all.take(i + 1).drop_last() == all.take(i as int));
            assert(all.take(i + 1).last() == puuid@);
        }
        let key = recent_stats_cache_key(puuid.as_str(), limit);
        let ghost before = missing@;
        match cache.get(key.as_str()) {
            Some(e) => {
                if recent_stats_cache_is_fresh(e, now_ms) {
                    hits.push((puuid.clone(), clone_stats_result(&e.result)));
                } else {
                    missing.push(puuid.clone());
                    proof {
                        assert(crate::validation::strings_view(missing@)
                            == crate::validation::strings_view(before).push(puuid@));
                    }
                }
            },
            None => {
                missing.push(puuid.clone());
                proof {
                    assert(crate::validation::strings_view(missing@)
                        == crate::validation::strings_view(before).push(puuid@));
                }
            },
        }
        i = i + 1;
    }
    proof {
        assert(all.take(all.len() as int) == all);
    }
    (hits, missing)
}

/// The answer a batch read gave for `puuid`: its last pair for it.
pub open spec fn batch_result_for(
    fetched: Seq<(String, Result<ParticipantRecentStats, LeagueClientReadError>)>,
    puuid: Seq<char>,
) -> Option<Result<ParticipantRecentStats, LeagueClientReadError>>
    decreases fetched.len(),
{
    if fetched.len() == 0 {
        None
    } else if fetched.last().0@ == puuid {
        Some(fetched.last().1)
    } else {
        batch_result_for(fetched.drop_last(), puuid)
    }
}

fn find_batch_result(
    fetched: &Vec<(String, Result<ParticipantRecentStats, LeagueClientReadError>)>,
    puuid: &str,
) -> (r: Option<Result<ParticipantRecentStats, LeagueClientReadError>>)
    ensures
        match batch_result_for(fetched@, puuid@) {
            Some(x) => r is Some && same_stats_result(r->0, x),
            None => r is None,
        },
{
    let mut j: usize = fetched.len();
    proof {
        assert(fetched@.take(j as int) == fetched@);
    }
    while j > 0
        invariant
            j <= fetched@.len(),
            batch_result_for(fetched@, puuid@) == batch_result_for(fetched@.take(j as int), puuid@),
        decreases j,
    {
        proof {
            assert(fetched@.take(j as int).drop_last() == fetched@.take(j - 1));
        }
        if str_eq(fetched[j - 1].0.as_str(), puuid) {
            return Some(clone_stats_result(&fetched[j - 1].1));
        }
        j = j - 1;
    }
    None
}

/// The puuids of `missing` that the batch answered, each with its answer.
pub open spec fn batch_found(
    missing: Seq<Seq<char>>,
    fetched: Seq<(String, Result<ParticipantRecentStats, LeagueClientReadError>)>,
) -> Seq<(Seq<char>, Result<ParticipantRecentStats, LeagueClientReadError>)>
    decreases missing.len(),
{
    if missing.len() == 0 {
        Seq::empty()
    } else {
        let found = batch_found(missing.drop_last(), fetched);
        match batch_result_for(fetched, missing.last()) {
            Some(x) => found.push((missing.last(), x)),
            None => found,
        }
    }
}

/// The answer stored under key `k`: that of the last puuid of `missing`
/// with that key that the batch answered.
pub open spec fn stored_for_key(
    missing: Seq<Seq<char>>,
    fetched: Seq<(String, Result<ParticipantRecentStats, LeagueClientReadError>)>,
    limit: i64,
    k: Seq<char>,
) -> Option<Result<ParticipantRecentStats, LeagueClientReadError>>
    decreases missing.len(),
{
    if missing.len() == 0 {
        None
    } else if spec_recent_stats_key(missing.last(), limit) == k && batch_result_for(
        fetched,
        missing.last(),
    ) is Some {
        batch_result_for(fetched, missing.last())
    } else {
        stored_for_key(missing.drop_last(), fetched, limit, k)
    }
}

pub open spec fn holds_found(
    r: Seq<(String, Result<ParticipantRecentStats, LeagueClientReadError>)>,
    found: Seq<(Seq<char>, Result<ParticipantRecentStats, LeagueClientReadError>)>,
) -> bool {
    &&& r.len() == found.len()
    &&& forall|i: int|
        0 <= i < r.len() ==> (#[trigger] r[i]).0@ == found[i].0 && same_stats_result(
            r[i].1,
            found[i].1,
        )
}

/// Writes what a batch read answered for `missing` to the cache, and gives
/// the answers for the puuids it answered.
pub fn store_recent_stats_batch(
    cache: &mut NameCache<RecentStatsCacheEntry>,
    missing: &[String],
    limit: i64,
    fetched: &Vec<(String, Result<ParticipantRecentStats, LeagueClientReadError>)>,
    now_ms: u64,
) -> (r: Vec<(String, Result<ParticipantRecentStats, LeagueClientReadError>)>)
    ensures
        holds_found(r@, batch_found(crate::validation::strings_view(missing@), fetched@)),
        forall|k: Seq<char>|
            match stored_for_key(crate::validation::strings_view(missing@), fetched@, limit, k) {
                Some(x) => #[trigger] final(cache).get_spec(k) matches Some(e) && e.cached_at_ms
                    == now_ms && same_stats_result(e.result, x),
                None => final(cache).get_spec(k) == old(cache).get_spec(k),
            },
{
    let ghost all = crate::validation::strings_view(missing@);
    let mut out: Vec<(String, Result<ParticipantRecentStats, LeagueClientReadError>)> = Vec::new();
    let mut i: usize = 0;
    proof {
        assert(all.take(0) == Seq::<Seq<char>>::empty());
    }
    while i < missing.len()
        invariant
            all == crate::validation::strings_view(missing@),
            i <= missing@.len(),
            holds_found(out@, batch_found(all.take(i as int), fetched@)),
            forall|k: Seq<char>|
                match stored_for_key(all.take(i as int), fetched@, limit, k) {
                    Some(x) => #[trigger] cache.get_spec(k) matches Some(e) && e.cached_at_ms
                        == now_ms && same_stats_result(e.result, x),
                    None => cache.get_spec(k) == old(cache).get_spec(k),
                },
        decreases missing@.len() - i,
    {
        let puuid = &missing[i];
        proof {
            assert(all.take(i + 1).drop_last() == all.take(i as int));
            assert(all.take(i + 1).last() == puuid@);
        }
        match find_batch_result(fetched, puuid.as_str()) {
            Some(result) => {
                let key = recent_stats_cache_key(puuid.as_str(), limit);
                let copy = clone_stats_result(&result);
                cache.insert(key, RecentStatsCacheEntry { result, cached_at_ms: now_ms });
                out.push((puuid.clone(), copy));
            },
            None => {},
        }
        i = i + 1;
    }
    proof {
        assert(all.take(all.len() as int) == all);
    }
    out
}

} // verus!
