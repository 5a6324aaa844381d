//! The champion-select roster: who sits on which side, under which name and
//! with which champion, built from the session and the summoners it names.

use vstd::prelude::*;

use crate::decimal::{decimal_of, i64_to_decimal};
use crate::domain::{ChampSelectPlayer, ChampSelectTeam, ParticipantRecentStats};
use crate::errors::LeagueClientReadError;
use crate::matches::{clone_recent_stats, same_recent_stats};
use crate::order::{lemma_lex_total, lemma_lex_transitive, lex_lt, str_lt};
use crate::text::{concat_strs, normalize_player_name, normalized_player_name, str_eq, trimmed};
use crate::validation::strings_view;
use std::collections::hash_map::DefaultHasher;
use std::collections::HashMap;
use std::hash::Hasher;
use vstd::std_specs::hash::DefaultHasherAdditionalSpecFns;

verus! {

/// The champion-select session as the client reports it.
#[derive(Debug, Clone)]
pub struct ChampSelectSessionData {
    pub ally_ids: Vec<i64>,
    pub enemy_ids: Vec<i64>,
    /// The selected champion id of each summoner id.
    pub champion_selections: HashMap<i64, i64>,
    pub ally_names: Vec<String>,
    pub enemy_names: Vec<String>,
    /// Normalised player name and selected champion id; a later pair for the
    /// same name replaces an earlier one.
    pub champion_selections_by_name: Vec<(String, i64)>,
}

/// A summoner found by id or by name.
#[derive(Debug, Clone)]
pub struct SummonerBatchEntry {
    pub summoner_id: i64,
    pub puuid: String,
    pub display_name: String,
}

/// One seat of the roster before recent statistics are attached.
#[derive(Debug)]
pub struct ChampSelectSeed {
    pub summoner_id: i64,
    pub puuid: String,
    pub display_name: String,
    pub champion_id: Option<i64>,
    pub team: ChampSelectTeam,
}

/// A seat as plain values.
pub struct SeedView {
    pub summoner_id: i64,
    pub puuid: Seq<char>,
    pub display_name: Seq<char>,
    pub champion_id: Option<i64>,
    pub team: ChampSelectTeam,
}

impl View for ChampSelectSeed {
    type V = SeedView;

    open spec fn view(&self) -> SeedView {
        SeedView {
            summoner_id: self.summoner_id,
            puuid: self.puuid@,
            display_name: self.display_name@,
            champion_id: self.champion_id,
            team: self.team,
        }
    }
}

pub open spec fn seeds_view(seeds: Seq<ChampSelectSeed>) -> Seq<SeedView> {
    seeds.map_values(|s: ChampSelectSeed| s@)
}

// ---------------------------------------------------------------------------
// Lookups: a later entry for the same key wins, as in a map filled in order.

pub open spec fn summoner_by_id(entries: Seq<SummonerBatchEntry>, id: i64) -> Option<SummonerBatchEntry>
    decreases entries.len(),
{
    if entries.len() == 0 {
        None
    } else if entries.last().summoner_id == id {
        Some(entries.last())
    } else {
        summoner_by_id(entries.drop_last(), id)
    }
}

pub open spec fn summoner_by_name(entries: Seq<SummonerBatchEntry>, name: Seq<char>) -> Option<
    SummonerBatchEntry,
>
    decreases entries.len(),
{
    if entries.len() == 0 {
        None
    } else if normalized_player_name(entries.last().display_name@) == name {
        Some(entries.last())
    } else {
        summoner_by_name(entries.drop_last(), name)
    }
}

pub open spec fn selection_for(selections: Map<i64, i64>, id: i64) -> Option<i64> {
    if selections.contains_key(id) {
        Some(selections[id])
    } else {
        None
    }
}

pub open spec fn selection_for_name(selections: Seq<(String, i64)>, name: Seq<char>) -> Option<i64>
    decreases selections.len(),
{
    if selections.len() == 0 {
        None
    } else if selections.last().0@ == name {
        Some(selections.last().1)
    } else {
        selection_for_name(selections.drop_last(), name)
    }
}

pub fn find_summoner_by_id(entries: &Vec<SummonerBatchEntry>, id: i64) -> (r: Option<usize>)
    ensures
        match r {
            Some(i) => i < entries@.len() && summoner_by_id(entries@, id) == Some(entries@[i as int]),
            None => summoner_by_id(entries@, id) is None,
        },
{
    let mut j: usize = entries.len();
    proof {
        assert(entries@.take(j as int) == entries@);
    }
    while j > 0
        invariant
            j <= entries@.len(),
            summoner_by_id(entries@, id) == summoner_by_id(entries@.take(j as int), id),
        decreases j,
    {
        proof {
            assert(entries@.take(j as int).drop_last() == entries@.take(j - 1));
        }
        if entries[j - 1].summoner_id == id {
            return Some(j - 1);
        }
        j = j - 1;
    }
    None
}

pub fn find_summoner_by_name(entries: &Vec<SummonerBatchEntry>, name: &str) -> (r: Option<usize>)
    ensures
        match r {
            Some(i) => i < entries@.len() && summoner_by_name(entries@, name@) == Some(
                entries@[i as int],
            ),
            None => summoner_by_name(entries@, name@) is None,
        },
{
    let mut j: usize = entries.len();
    proof {
        assert(entries@.take(j as int) == entries@);
    }
    while j > 0
        invariant
            j <= entries@.len(),
            summoner_by_name(entries@, name@) == summoner_by_name(entries@.take(j as int), name@),
        decreases j,
    {
        proof {
            assert(entries@.take(j as int).drop_last() == entries@.take(j - 1));
        }
        let normalized = normalize_player_name(entries[j - 1].display_name.as_str());
        if str_eq(normalized.as_str(), name) {
            return Some(j - 1);
        }
        j = j - 1;
    }
    None
}

fn find_selection(selections: &HashMap<i64, i64>, id: i64) -> (r: Option<i64>)
    ensures
        r == selection_for(selections@, id),
{
    broadcast use vstd::std_specs::hash::group_hash_axioms;
    match selections.get(&id) {
        Some(v) => Some(*v),
        None => None,
    }
}

fn find_selection_by_name(selections: &Vec<(String, i64)>, name: &str) -> (r: Option<i64>)
    ensures
        r == selection_for_name(selections@, name@),
{
    let mut j: usize = selections.len();
    proof {
        assert(selections@.take(j as int) == selections@);
    }
    while j > 0
        invariant
            j <= selections@.len(),
            selection_for_name(selections@, name@) == selection_for_name(
                selections@.take(j as int),
                name@,
            ),
        decreases j,
    {
        proof {
            assert(selections@.take(j as int).drop_last() == selections@.take(j - 1));
        }
        if str_eq(selections[j - 1].0.as_str(), name) {
            return Some(selections[j - 1].1);
        }
        j = j - 1;
    }
    None
}

// ---------------------------------------------------------------------------
// Stand-in ids for players known only by name

/// What `Hash for str` writes into a hasher for a string: a function of the
/// string alone.
pub uninterp spec fn str_hash_writes(value: Seq<char>) -> Seq<Seq<u8>>;

/// Feeds `value` to `hasher` with `Hash for str`. The contract names the
/// writes that this makes; which bytes they are is left unstated.
#[verifier::external_body]
fn hash_str_into(value: &str, hasher: &mut DefaultHasher)
    ensures
        final(hasher)@ == old(hasher)@ + str_hash_writes(value@),
{
    std::hash::Hash::hash(value, hasher)
}

/// The hash of a string with a fresh `DefaultHasher`.
pub open spec fn str_hash(value: Seq<char>) -> u64 {
    DefaultHasher::spec_finish(Seq::<Seq<u8>>::empty() + str_hash_writes(value))
}

pub open spec fn spec_negative_stable_id(value: Seq<char>) -> i64 {
    (-((str_hash(value) & 0x3fff_ffff_ffffu64) as int) - 1) as i64
}

/// A negative id for a player known only by name: the name's hash cut to 46
/// bits, negated, minus one. Equal names give equal ids.
pub fn negative_stable_id(value: &str) -> (r: i64)
    ensures
        r == spec_negative_stable_id(value@),
        r < 0,
        r >= -0x4000_0000_0000,
{
    let mut hasher = DefaultHasher::new();
    hash_str_into(value, &mut hasher);
    let h = hasher.finish();
    let masked: u64 = h & 0x3fff_ffff_ffffu64;
    assert(masked <= 0x3fff_ffff_ffffu64) by (bit_vector)
        requires
            masked == h & 0x3fff_ffff_ffffu64,
    ;
    -(masked as i64) - 1
}

// ---------------------------------------------------------------------------
// What the roster asks of the client

pub open spec fn strictly_increasing(s: Seq<i64>) -> bool {
    forall|i: int, j: int| 0 <= i < j < s.len() ==> s[i] < s[j]
}

#[verifier::spinoff_prover]
pub fn insert_id_sorted(out: &mut Vec<i64>, x: i64)
    requires
        strictly_increasing(old(out)@),
    ensures
        strictly_increasing(final(out)@),
        forall|y: i64| final(out)@.contains(y) <==> (old(out)@.contains(y) || y == x),
{
    let mut p: usize = 0;
    while p < out.len() && out[p] < x
        invariant
            p <= out@.len(),
            forall|q: int| 0 <= q < p ==> out@[q] < x,
        decreases out@.len() - p,
    {
        p = p + 1;
    }
    if p < out.len() && out[p] == x {
        return;
    }
    let ghost before = out@;
    out.insert(p, x);
    proof {
        assert(out@ == before.insert(p as int, x));
        assert forall|i: int, j: int| 0 <= i < j < out@.len() implies out@[i] < out@[j] by {
            if j < p {
            } else if j == p {
            } else if i < p {
                assert(out@[j] == before[j - 1]);
                assert(before[p as int] > x);
            } else if i == p {
                assert(out@[j] == before[j - 1]);
                assert(before[p as int] > x);
            } else {
                assert(out@[i] == before[i - 1] && out@[j] == before[j - 1]);
            }
        }
        assert forall|y: i64| out@.contains(y) <==> (before.contains(y) || y == x) by {
            if before.contains(y) {
                let k = choose|k: int| 0 <= k < before.len() && before[k] == y;
                if k < p {
                    assert(out@[k] == y);
                } else {
                    assert(out@[k + 1] == y);
                }
            }
            if y == x {
                assert(out@[p as int] == x);
            }
            if out@.contains(y) {
                let k = choose|k: int| 0 <= k < out@.len() && out@[k] == y;
                if k < p {
                    assert(before[k] == y);
                } else if k > p {
                    assert(before[k - 1] == y);
                }
            }
        }
    }
}

/// Every summoner id of the session, allies and enemies, ascending and each
/// once.
pub fn sorted_summoner_ids(session: &ChampSelectSessionData) -> (r: Vec<i64>)
    ensures
        strictly_increasing(r@),
        forall|x: i64|
            r@.contains(x) <==> (session.ally_ids@.contains(x) || session.enemy_ids@.contains(x)),
{
    let mut out: Vec<i64> = Vec::new();
    let mut i: usize = 0;
    while i < session.ally_ids.len()
        invariant
            i <= session.ally_ids@.len(),
            strictly_increasing(out@),
            forall|x: i64| out@.contains(x) <==> session.ally_ids@.take(i as int).contains(x),
        decreases session.ally_ids@.len() - i,
    {
        let ghost before = out@;
        insert_id_sorted(&mut out, session.ally_ids[i]);
        proof {
            assert(session.ally_ids@.take(i + 1) == session.ally_ids@.take(i as int).push(session.ally_ids@[i as int]));
            assert forall|x: i64| out@.contains(x) <==> session.ally_ids@.take(i + 1).contains(x) by {
                lemma_push_contains(session.ally_ids@.take(i as int), session.ally_ids@[i as int], x);
            }
        }
        i = i + 1;
    }
    proof {
        assert(session.ally_ids@.take(session.ally_ids@.len() as int) == session.ally_ids@);
    }
    let mut i: usize = 0;
    while i < session.enemy_ids.len()
        invariant
            i <= session.enemy_ids@.len(),
            strictly_increasing(out@),
            forall|x: i64|
                out@.contains(x) <==> (session.ally_ids@.contains(x) || session.enemy_ids@.take(
                    i as int,
                ).contains(x)),
        decreases session.enemy_ids@.len() - i,
    {
        insert_id_sorted(&mut out, session.enemy_ids[i]);
        proof {
            assert(session.enemy_ids@.take(i + 1) == session.enemy_ids@.take(i as int).push(session.enemy_ids@[i as int]));
            assert forall|x: i64|
                out@.contains(x) <==> (session.ally_ids@.contains(x) || session.enemy_ids@.take(
                    i + 1,
                ).contains(x)) by {
                lemma_push_contains(session.enemy_ids@.take(i as int), session.enemy_ids@[i as int], x);
            }
        }
        i = i + 1;
    }
    proof {
        assert(session.enemy_ids@.take(session.enemy_ids@.len() as int) == session.enemy_ids@);
    }
    out
}

/// The names among `names` that are not blank, in order.
pub open spec fn nonblank_names(names: Seq<Seq<char>>) -> Seq<Seq<char>>
    decreases names.len(),
{
    if names.len() == 0 {
        Seq::empty()
    } else if trimmed(names.last()).len() > 0 {
        nonblank_names(names.drop_last()).push(names.last())
    } else {
        nonblank_names(names.drop_last())
    }
}

/// The names the session gives, allies first, without the blank ones.
pub fn lookup_names(session: &ChampSelectSessionData) -> (r: Vec<String>)
    ensures
        strings_view(r@) == nonblank_names(
            strings_view(session.ally_names@) + strings_view(session.enemy_names@),
        ),
{
    let ghost all = strings_view(session.ally_names@) + strings_view(session.enemy_names@);
    let ghost allies = session.ally_names@.len() as int;
    let mut out: Vec<String> = Vec::new();
    let mut i: usize = 0;
    proof {
        assert(all.take(0) == Seq::<Seq<char>>::empty());
        assert(strings_view(out@) == Seq::<Seq<char>>::empty());
    }
    while i < session.ally_names.len()
        invariant
            all == strings_view(session.ally_names@) + strings_view(session.enemy_names@),
            allies == session.ally_names@.len(),
            i <= allies,
            strings_view(out@) == nonblank_names(all.take(i as int)),
        decreases allies - i,
    {
        let name = &session.ally_names[i];
        proof {
            assert(all.take(i + 1).drop_last() == all.take(i as int));
            assert(all.take(i + 1).last() == name@);
        }
        if !crate::text::is_blank(name.as_str()) {
            let ghost before = out@;
            out.push(name.clone());
            proof {
                assert(strings_view(out@) == strings_view(before).push(name@));
            }
        }
        i = i + 1;
    }
    let mut i: usize = 0;
    while i < session.enemy_names.len()
        invariant
            all == strings_view(session.ally_names@) + strings_view(session.enemy_names@),
            allies == session.ally_names@.len(),
            all.len() == allies + session.enemy_names@.len(),
            i <= session.enemy_names@.len(),
            strings_view(out@) == nonblank_names(all.take(allies + i)),
        decreases session.enemy_names@.len() - i,
    {
        let name = &session.enemy_names[i];
        proof {
            assert(all.take(allies + i + 1).drop_last() == all.take(allies + i));
            assert(all.take(allies + i + 1).last() == name@);
        }
        if !crate::text::is_blank(name.as_str()) {
            let ghost before = out@;
            out.push(name.clone());
            proof {
                assert(strings_view(out@) == strings_view(before).push(name@));
            }
        }
        i = i + 1;
    }
    proof {
        assert(all.take(all.len() as int) == all);
    }
    out
}

pub open spec fn strictly_ascending(s: Seq<Seq<char>>) -> bool {
    forall|i: int, j: int| 0 <= i < j < s.len() ==> lex_lt(s[i], s[j])
}

fn insert_string_sorted(out: &mut Vec<String>, x: &String)
    requires
        strictly_ascending(strings_view(old(out)@)),
    ensures
        strictly_ascending(strings_view(final(out)@)),
        forall|y: Seq<char>|
            strings_view(final(out)@).contains(y) <==> (strings_view(old(out)@).contains(y) || y
                == x@),
{
    let ghost before = strings_view(out@);
    let mut p: usize = 0;
    while p < out.len() && str_lt(out[p].as_str(), x.as_str())
        invariant
            p <= out@.len(),
            before == strings_view(out@),
            forall|q: int| 0 <= q < p ==> lex_lt(out@[q]@, x@),
        decreases out@.len() - p,
    {
        p = p + 1;
    }
    if p < out.len() && str_eq(out[p].as_str(), x.as_str()) {
        proof {
            assert(before[p as int] == x@);
        }
        return;
    }
    proof {
        if p < out@.len() {
            lemma_lex_total(out@[p as int]@, x@);
            assert(lex_lt(x@, before[p as int]));
        }
    }
    out.insert(p, x.clone());
    proof {
        let after = strings_view(out@);
        assert(after == before.insert(p as int, x@));
        assert forall|i: int, j: int| 0 <= i < j < after.len() implies lex_lt(after[i], after[j]) by {
            if j < p {
            } else if j == p {
            } else if i < p {
                assert(after[j] == before[j - 1]);
                assert(after[i] == before[i]);
                lemma_lex_transitive(before[i], x@, before[p as int]);
                if j - 1 > p {
                    lemma_lex_transitive(before[i], before[p as int], before[j - 1]);
                }
            } else if i == p {
                assert(after[j] == before[j - 1]);
                if j - 1 > p {
                    lemma_lex_transitive(x@, before[p as int], before[j - 1]);
                }
            } else {
                assert(after[i] == before[i - 1] && after[j] == before[j - 1]);
            }
        }
        assert forall|y: Seq<char>| after.contains(y) <==> (before.contains(y) || y == x@) by {
            if before.contains(y) {
                let k = choose|k: int| 0 <= k < before.len() && before[k] == y;
                if k < p {
                    assert(after[k] == y);
                } else {
                    assert(after[k + 1] == y);
                }
            }
            if y == x@ {
                assert(after[p as int] == x@);
            }
            if after.contains(y) {
                let k = choose|k: int| 0 <= k < after.len() && after[k] == y;
                if k < p {
                    assert(before[k] == y);
                } else if k > p {
                    assert(before[k - 1] == y);
                }
            }
        }
    }
}

/// The puuids of the seated players, without empty ones, ascending and each
/// once.
pub fn roster_puuids(seeds: &Vec<ChampSelectSeed>) -> (r: Vec<String>)
    ensures
        strictly_ascending(strings_view(r@)),
        forall|p: Seq<char>|
            strings_view(r@).contains(p) <==> (p.len() > 0 && exists|i: int|
                0 <= i < seeds@.len() && (#[trigger] seeds@[i]).puuid@ == p),
{
    let mut out: Vec<String> = Vec::new();
    let mut i: usize = 0;
    while i < seeds.len()
        invariant
            i <= seeds@.len(),
            strictly_ascending(strings_view(out@)),
            forall|p: Seq<char>|
                strings_view(out@).contains(p) <==> (p.len() > 0 && exists|k: int|
                    0 <= k < i && (#[trigger] seeds@[k]).puuid@ == p),
        decreases seeds@.len() - i,
    {
        let puuid = &seeds[i].puuid;
        if !puuid.as_str().is_empty() {
            insert_string_sorted(&mut out, puuid);
        }
        proof {
            assert forall|p: Seq<char>|
                strings_view(out@).contains(p) <==> (p.len() > 0 && exists|k: int|
                    0 <= k < i + 1 && (#[trigger] seeds@[k]).puuid@ == p) by {
                if p.len() > 0 && p == seeds@[i as int].puuid@ {
                    assert(seeds@[i as int].puuid@ == p);
                }
                if p.len() > 0 && (exists|k: int| 0 <= k < i + 1 && (#[trigger] seeds@[k]).puuid@ == p) {
                    let k = choose|k: int| 0 <= k < i + 1 && (#[trigger] seeds@[k]).puuid@ == p;
                    if k < i {
                        assert(exists|k2: int| 0 <= k2 < i && (#[trigger] seeds@[k2]).puuid@ == p);
                    }
                }
            }
        }
        i = i + 1;
    }
    out
}

// ---------------------------------------------------------------------------
// The roster

/// The roster while it is built: the seats so far, and the ids and
/// normalised names already seated.
pub struct RosterState {
    pub seeds: Seq<SeedView>,
    pub seen_ids: Set<i64>,
    pub seen_names: Set<Seq<char>>,
}

pub open spec fn empty_roster() -> RosterState {
    RosterState { seeds: Seq::empty(), seen_ids: Set::empty(), seen_names: Set::empty() }
}

pub open spec fn placeholder_name(id: i64) -> Seq<char> {
    "Summoner "@ + decimal_of(id as int)
}

pub open spec fn team_of(session: ChampSelectSessionData, id: i64) -> ChampSelectTeam {
    if session.ally_ids@.contains(id) {
        ChampSelectTeam::Ally
    } else {
        ChampSelectTeam::Enemy
    }
}

/// The seat of the summoner with id `id`.
pub open spec fn id_seed(
    session: ChampSelectSessionData,
    by_id: Seq<SummonerBatchEntry>,
    id: i64,
) -> SeedView {
    let found = summoner_by_id(by_id, id);
    SeedView {
        summoner_id: id,
        puuid: match found {
            Some(e) => e.puuid@,
            None => Seq::empty(),
        },
        display_name: match found {
            Some(e) => e.display_name@,
            None => placeholder_name(id),
        },
        champion_id: selection_for(session.champion_selections@, id),
        team: team_of(session, id),
    }
}

/// Every id gets a seat, in the order given.
pub open spec fn id_phase(
    session: ChampSelectSessionData,
    by_id: Seq<SummonerBatchEntry>,
    ids: Seq<i64>,
) -> RosterState
    decreases ids.len(),
{
    if ids.len() == 0 {
        empty_roster()
    } else {
        let st = id_phase(session, by_id, ids.drop_last());
        let seed = id_seed(session, by_id, ids.last());
        RosterState {
            seeds: st.seeds.push(seed),
            seen_ids: st.seen_ids.insert(ids.last()),
            seen_names: st.seen_names.insert(normalized_player_name(seed.display_name)),
        }
    }
}

/// The names of the session, allies first, each with its side.
pub open spec fn name_entries(session: ChampSelectSessionData) -> Seq<(Seq<char>, ChampSelectTeam)> {
    session.ally_names@.map_values(|n: String| (n@, ChampSelectTeam::Ally))
        + session.enemy_names@.map_values(|n: String| (n@, ChampSelectTeam::Enemy))
}

/// A name gets a seat unless it is blank or already seated, or it belongs
/// to a summoner whose id is already seated.
pub open spec fn name_step(
    session: ChampSelectSessionData,
    by_name: Seq<SummonerBatchEntry>,
    st: RosterState,
    entry: (Seq<char>, ChampSelectTeam),
) -> RosterState {
    let name = entry.0;
    let normalized = normalized_player_name(name);
    let champion_id = selection_for_name(session.champion_selections_by_name@, normalized);
    if normalized.len() == 0 || st.seen_names.contains(normalized) {
        st
    } else {
        match summoner_by_name(by_name, normalized) {
            Some(s) => if st.seen_ids.contains(s.summoner_id) {
                st
            } else {
                RosterState {
                    seeds: st.seeds.push(
                        SeedView {
                            summoner_id: s.summoner_id,
                            puuid: s.puuid@,
                            display_name: s.display_name@,
                            champion_id,
                            team: entry.1,
                        },
                    ),
                    seen_ids: st.seen_ids.insert(s.summoner_id),
                    seen_names: st.seen_names.insert(normalized),
                }
            },
            None => RosterState {
                seeds: st.seeds.push(
                    SeedView {
                        summoner_id: spec_negative_stable_id(name),
                        puuid: Seq::empty(),
                        display_name: name,
                        champion_id,
                        team: entry.1,
                    },
                ),
                seen_ids: st.seen_ids,
                seen_names: st.seen_names.insert(normalized),
            },
        }
    }
}

pub open spec fn name_phase(
    session: ChampSelectSessionData,
    by_name: Seq<SummonerBatchEntry>,
    start: RosterState,
    entries: Seq<(Seq<char>, ChampSelectTeam)>,
) -> RosterState
    decreases entries.len(),
{
    if entries.len() == 0 {
        start
    } else {
        name_step(
            session,
            by_name,
            name_phase(session, by_name, start, entries.drop_last()),
            entries.last(),
        )
    }
}

/// The seats of the roster: one per summoner id, in the order of `ids`, then
/// one per name not seated yet.
pub open spec fn spec_roster(
    session: ChampSelectSessionData,
    ids: Seq<i64>,
    by_id: Seq<SummonerBatchEntry>,
    by_name: Seq<SummonerBatchEntry>,
) -> Seq<SeedView> {
    name_phase(session, by_name, id_phase(session, by_id, ids), name_entries(session)).seeds
}

fn contains_id(v: &Vec<i64>, x: i64) -> (r: bool)
    ensures
        r == v@.contains(x),
{
    let mut i: usize = 0;
    while i < v.len()
        invariant
            i <= v@.len(),
            forall|j: int| 0 <= j < i ==> v@[j] != x,
        decreases v@.len() - i,
    {
        if v[i] == x {
            return true;
        }
        i = i + 1;
    }
    false
}

fn contains_string(v: &Vec<String>, x: &str) -> (r: bool)
    ensures
        r == strings_view(v@).contains(x@),
{
    let mut i: usize = 0;
    while i < v.len()
        invariant
            i <= v@.len(),
            forall|j: int| 0 <= j < i ==> v@[j]@ != x@,
        decreases v@.len() - i,
    {
        if str_eq(v[i].as_str(), x) {
            proof {
                assert(strings_view(v@)[i as int] == x@);
            }
            return true;
        }
        i = i + 1;
    }
    proof {
        if strings_view(v@).contains(x@) {
            let k = choose|k: int| 0 <= k < strings_view(v@).len() && strings_view(v@)[k] == x@;
            assert(v@[k]@ == x@);
        }
    }
    false
}

fn placeholder(id: i64) -> (r: String)
    ensures
        r@ == placeholder_name(id),
{
    let digits = i64_to_decimal(id);
    concat_strs("Summoner ", digits.as_str())
}

/// The state of the roster as exec values stands for `st`.
pub open spec fn holds_roster(
    seeds: Seq<ChampSelectSeed>,
    seen_ids: Seq<i64>,
    seen_names: Seq<String>,
    st: RosterState,
) -> bool {
    &&& seeds_view(seeds) == st.seeds
    &&& forall|x: i64| seen_ids.contains(x) <==> st.seen_ids.contains(x)
    &&& forall|x: Seq<char>| strings_view(seen_names).contains(x) <==> st.seen_names.contains(x)
}

pub proof fn lemma_push_contains<A>(s: Seq<A>, a: A, x: A)
    ensures
        s.push(a).contains(x) <==> (s.contains(x) || x == a),
{
    if s.contains(x) {
        let k = choose|k: int| 0 <= k < s.len() && s[k] == x;
        assert(s.push(a)[k] == x);
    }
    if x == a {
        assert(s.push(a)[s.len() as int] == a);
    }
    if s.push(a).contains(x) {
        let k = choose|k: int| 0 <= k < s.push(a).len() && s.push(a)[k] == x;
        if k < s.len() {
            assert(s[k] == x);
        }
    }
}

proof fn lemma_push_strings(v: Seq<String>, a: String, x: Seq<char>)
    ensures
        strings_view(v.push(a)).contains(x) <==> (strings_view(v).contains(x) || x == a@),
{
    assert(strings_view(v.push(a)) == strings_view(v).push(a@));
    lemma_push_contains(strings_view(v), a@, x);
}

/// Seats the player named `name` on side `team`, if the roster takes them.
fn seat_by_name(
    session: &ChampSelectSessionData,
    by_name: &Vec<SummonerBatchEntry>,
    name: &String,
    team: ChampSelectTeam,
    seeds: &mut Vec<ChampSelectSeed>,
    seen_ids: &mut Vec<i64>,
    seen_names: &mut Vec<String>,
    Ghost(st): Ghost<RosterState>,
)
    requires
        holds_roster(old(seeds)@, old(seen_ids)@, old(seen_names)@, st),
    ensures
        holds_roster(
            final(seeds)@,
            final(seen_ids)@,
            final(seen_names)@,
            name_step(*session, by_name@, st, (name@, team)),
        ),
{
    let ghost after = name_step(*session, by_name@, st, (name@, team));
    let normalized = normalize_player_name(name.as_str());
    let champion_id = find_selection_by_name(&session.champion_selections_by_name, normalized.as_str());
    if normalized.as_str().is_empty() || contains_string(seen_names, normalized.as_str()) {
        return;
    }
    let found = find_summoner_by_name(by_name, normalized.as_str());
    match found {
        Some(j) => {
            let sid = by_name[j].summoner_id;
            if contains_id(seen_ids, sid) {
                return;
            }
            let seed = ChampSelectSeed {
                summoner_id: sid,
                puuid: by_name[j].puuid.clone(),
                display_name: by_name[j].display_name.clone(),
                champion_id,
                team,
            };
            let ghost old_ids = seen_ids@;
            let ghost old_names = seen_names@;
            let ghost old_seeds = seeds@;
            seeds.push(seed);
            seen_ids.push(sid);
            seen_names.push(normalized);
            proof {
                assert(seeds_view(seeds@) == seeds_view(old_seeds).push(seed@));
                assert forall|x: i64| seen_ids@.contains(x) <==> after.seen_ids.contains(x) by {
                    lemma_push_contains(old_ids, sid, x);
                }
                assert forall|x: Seq<char>| strings_view(seen_names@).contains(x) <==> after.seen_names.contains(x) by {
                    lemma_push_strings(old_names, normalized, x);
                }
            }
        },
        None => {
            let sid = negative_stable_id(name.as_str());
            let seed = ChampSelectSeed {
                summoner_id: sid,
                puuid: String::new(),
                display_name: name.clone(),
                champion_id,
                team,
            };
            let ghost old_names = seen_names@;
            let ghost old_seeds = seeds@;
            seeds.push(seed);
            seen_names.push(normalized);
            proof {
                assert(seeds_view(seeds@) == seeds_view(old_seeds).push(seed@));
                assert forall|x: Seq<char>| strings_view(seen_names@).contains(x) <==> after.seen_names.contains(x) by {
                    lemma_push_strings(old_names, normalized, x);
                }
            }
        },
    }
}

/// The roster for a champion-select session: the summoners `ids` first (in
/// that order), with what `by_id` says of them, then the players the session
/// names that are not seated yet, with what `by_name` says of them.
pub fn champ_select_roster(
    session: &ChampSelectSessionData,
    ids: &Vec<i64>,
    by_id: &Vec<SummonerBatchEntry>,
    by_name: &Vec<SummonerBatchEntry>,
) -> (r: Vec<ChampSelectSeed>)
    ensures
        seeds_view(r@) == spec_roster(*session, ids@, by_id@, by_name@),
{
    let mut seeds: Vec<ChampSelectSeed> = Vec::new();
    let mut seen_ids: Vec<i64> = Vec::new();
    let mut seen_names: Vec<String> = Vec::new();
    let mut i: usize = 0;
    proof {
        assert(seeds_view(seeds@) == Seq::<SeedView>::empty());
        assert(ids@.take(0) == Seq::<i64>::empty());
    }
    while i < ids.len()
        invariant
            i <= ids@.len(),
            holds_roster(seeds@, seen_ids@, seen_names@, id_phase(*session, by_id@, ids@.take(i as int))),
        decreases ids@.len() - i,
    {
        let id = ids[i];
        let ghost before = id_phase(*session, by_id@, ids@.take(i as int));
        proof {
            assert(ids@.take(i + 1).drop_last() == ids@.take(i as int));
            assert(ids@.take(i + 1).last() == id);
        }
        let found = find_summoner_by_id(by_id, id);
        let (puuid, display_name) = match found {
            Some(k) => (by_id[k].puuid.clone(), by_id[k].display_name.clone()),
            None => (String::new(), placeholder(id)),
        };
        let champion_id = find_selection(&session.champion_selections, id);
        let team = if contains_id(&session.ally_ids, id) {
            ChampSelectTeam::Ally
        } else {
            ChampSelectTeam::Enemy
        };
        let normalized = normalize_player_name(display_name.as_str());
        let ghost old_ids = seen_ids@;
        let ghost old_names = seen_names@;
        seen_ids.push(id);
        seen_names.push(normalized);
        let seed = ChampSelectSeed { summoner_id: id, puuid, display_name, champion_id, team };
        proof {
            assert(seed@ == id_seed(*session, by_id@, id));
        }
        seeds.push(seed);
        proof {
            let after = id_phase(*session, by_id@, ids@.take(i + 1));
            assert(seeds_view(seeds@) == before.seeds.push(seed@));
            assert forall|x: i64| seen_ids@.contains(x) <==> after.seen_ids.contains(x) by {
                lemma_push_contains(old_ids, id, x);
            }
            assert forall|x: Seq<char>| strings_view(seen_names@).contains(x) <==> after.seen_names.contains(x) by {
                lemma_push_strings(old_names, seen_names@.last(), x);
            }
        }
        i = i + 1;
    }
    proof {
        assert(ids@.take(ids@.len() as int) == ids@);
    }
    let ghost start = id_phase(*session, by_id@, ids@);
    let ghost entries = name_entries(*session);
    let ghost allies = session.ally_names@.len() as int;
    proof {
        assert(entries.take(0) == Seq::<(Seq<char>, ChampSelectTeam)>::empty());
    }
    let mut k: usize = 0;
    while k < session.ally_names.len()
        invariant
            entries == name_entries(*session),
            allies == session.ally_names@.len(),
            k <= allies,
            holds_roster(seeds@, seen_ids@, seen_names@, name_phase(*session, by_name@, start, entries.take(k as int))),
        decreases allies - k,
    {
        proof {
            assert(entries.take(k + 1).drop_last() == entries.take(k as int));
            assert(entries.take(k + 1).last() == entries[k as int]);
        }
        seat_by_name(
            session,
            by_name,
            &session.ally_names[k],
            ChampSelectTeam::Ally,
            &mut seeds,
            &mut seen_ids,
            &mut seen_names,
            Ghost(name_phase(*session, by_name@, start, entries.take(k as int))),
        );
        k = k + 1;
    }
    let mut k: usize = 0;
    while k < session.enemy_names.len()
        invariant
            entries == name_entries(*session),
            allies == session.ally_names@.len(),
            entries.len() == allies + session.enemy_names@.len(),
            k <= session.enemy_names@.len(),
            holds_roster(seeds@, seen_ids@, seen_names@, name_phase(*session, by_name@, start, entries.take(allies + k))),
        decreases session.enemy_names@.len() - k,
    {
        proof {
            assert(entries.take(allies + k + 1).drop_last() == entries.take(allies + k));
            assert(entries.take(allies + k + 1).last() == entries[allies + k]);
        }
        seat_by_name(
            session,
            by_name,
            &session.enemy_names[k],
            ChampSelectTeam::Enemy,
            &mut seeds,
            &mut seen_ids,
            &mut seen_names,
            Ghost(name_phase(*session, by_name@, start, entries.take(allies + k))),
        );
        k = k + 1;
    }
    proof {
        assert(entries.take(entries.len() as int) == entries);
    }
    seeds
}

// ---------------------------------------------------------------------------
// Players

/// What the statistics batch holds for `puuid`: the last answer for it, when
/// that answer is statistics.
pub open spec fn stats_for(
    stats: Seq<(String, Result<ParticipantRecentStats, LeagueClientReadError>)>,
    puuid: Seq<char>,
) -> Option<ParticipantRecentStats>
    decreases stats.len(),
{
    if stats.len() == 0 {
        None
    } else if stats.last().0@ == puuid {
        match stats.last().1 {
            Ok(s) => Some(s),
            Err(_) => None,
        }
    } else {
        stats_for(stats.drop_last(), puuid)
    }
}

/// `p` is the player of seat `seed`, with the statistics the batch holds for
/// its puuid.
pub open spec fn is_player_of(
    p: ChampSelectPlayer,
    seed: SeedView,
    stats: Seq<(String, Result<ParticipantRecentStats, LeagueClientReadError>)>,
) -> bool {
    &&& p.summoner_id == seed.summoner_id
    &&& p.puuid@ == seed.puuid
    &&& p.display_name@ == seed.display_name
    &&& p.champion_id == seed.champion_id
    &&& p.champion_name is None
    &&& p.team == seed.team
    &&& p.ranked_queues@.len() == 0
    &&& match stats_for(stats, seed.puuid) {
        Some(s) => p.recent_stats is Some && same_recent_stats(p.recent_stats->0, s),
        None => p.recent_stats is None,
    }
}

fn find_stats(
    stats: &Vec<(String, Result<ParticipantRecentStats, LeagueClientReadError>)>,
    puuid: &str,
) -> (r: Option<ParticipantRecentStats>)
    ensures
        match stats_for(stats@, puuid@) {
            Some(s) => r is Some && same_recent_stats(r->0, s),
            None => r is None,
        },
{
    let mut j: usize = stats.len();
    proof {
        assert(stats@.take(j as int) == stats@);
    }
    while j > 0
        invariant
            j <= stats@.len(),
            stats_for(stats@, puuid@) == stats_for(stats@.take(j as int), puuid@),
        decreases j,
    {
        proof {
            assert(stats@.take(j as int).drop_last() == stats@.take(j - 1));
        }
        if str_eq(stats[j - 1].0.as_str(), puuid) {
            return match &stats[j - 1].1 {
                Ok(s) => Some(clone_recent_stats(s)),
                Err(_) => None,
            };
        }
        j = j - 1;
    }
    None
}

/// The players of the roster, in its order, each with the recent statistics
/// the batch holds for its puuid.
pub fn champ_select_players(
    seeds: &Vec<ChampSelectSeed>,
    stats: &Vec<(String, Result<ParticipantRecentStats, LeagueClientReadError>)>,
) -> (r: Vec<ChampSelectPlayer>)
    ensures
        r@.len() == seeds@.len(),
        forall|i: int| 0 <= i < r@.len() ==> is_player_of(#[trigger] r@[i], seeds@[i]@, stats@),
{
    let mut out: Vec<ChampSelectPlayer> = Vec::new();
    let mut i: usize = 0;
    while i < seeds.len()
        invariant
            i <= seeds@.len(),
            out@.len() == i,
            forall|k: int| 0 <= k < i ==> is_player_of(#[trigger] out@[k], seeds@[k]@, stats@),
        decreases seeds@.len() - i,
    {
        let seed = &seeds[i];
        let player = ChampSelectPlayer {
            summoner_id: seed.summoner_id,
            puuid: seed.puuid.clone(),
            display_name: seed.display_name.clone(),
            champion_id: seed.champion_id,
            champion_name: None,
            team: seed.team,
            ranked_queues: Vec::new(),
            recent_stats: find_stats(stats, seed.puuid.as_str()),
        };
        out.push(player);
        i = i + 1;
    }
    out
}

} // verus!

verus! {

proof fn lemma_id_phase_seeds(
    session: ChampSelectSessionData,
    by_id: Seq<SummonerBatchEntry>,
    ids: Seq<i64>,
)
    ensures
        id_phase(session, by_id, ids).seeds.len() == ids.len(),
        forall|i: int|
            0 <= i < ids.len() ==> #[trigger] id_phase(session, by_id, ids).seeds[i] == id_seed(
                session,
                by_id,
                ids[i],
            ),
    decreases ids.len(),
{
    if ids.len() > 0 {
        lemma_id_phase_seeds(session, by_id, ids.drop_last());
        let st = id_phase(session, by_id, ids.drop_last());
        assert forall|i: int| 0 <= i < ids.len() implies #[trigger] id_phase(session, by_id, ids).seeds[i]
            == id_seed(session, by_id, ids[i]) by {
            if i < ids.len() - 1 {
                assert(id_phase(session, by_id, ids).seeds[i] == st.seeds[i]);
                assert(ids.drop_last()[i] == ids[i]);
            }
        }
    }
}

proof fn lemma_name_phase_keeps_seats(
    session: ChampSelectSessionData,
    by_name: Seq<SummonerBatchEntry>,
    start: RosterState,
    entries: Seq<(Seq<char>, ChampSelectTeam)>,
)
    ensures
        name_phase(session, by_name, start, entries).seeds.len() >= start.seeds.len(),
        forall|i: int|
            0 <= i < start.seeds.len() ==> #[trigger] name_phase(session, by_name, start, entries).seeds[i]
                == start.seeds[i],
    decreases entries.len(),
{
    if entries.len() > 0 {
        lemma_name_phase_keeps_seats(session, by_name, start, entries.drop_last());
    }
}

/// The roster seats the summoners `ids` first, one seat each, in order; the
/// players named by the session only come after them.
pub proof fn lemma_roster_seats_ids_first(
    session: ChampSelectSessionData,
    ids: Seq<i64>,
    by_id: Seq<SummonerBatchEntry>,
    by_name: Seq<SummonerBatchEntry>,
)
    ensures
        spec_roster(session, ids, by_id, by_name).len() >= ids.len(),
        forall|i: int|
            0 <= i < ids.len() ==> #[trigger] spec_roster(session, ids, by_id, by_name)[i] == id_seed(
                session,
                by_id,
                ids[i],
            ),
{
    lemma_id_phase_seeds(session, by_id, ids);
    lemma_name_phase_keeps_seats(session, by_name, id_phase(session, by_id, ids), name_entries(session));
}

/// Every seated name is among the names seen.
pub open spec fn names_tracked(st: RosterState) -> bool {
    forall|i: int|
        0 <= i < st.seeds.len() ==> st.seen_names.contains(
            normalized_player_name(#[trigger] st.seeds[i].display_name),
        )
}

/// A seat of a player known by name: the summoner found under its name, or,
/// when none was found, the name itself with a negative id made from it.
pub open spec fn is_name_seat(by_name: Seq<SummonerBatchEntry>, seat: SeedView) -> bool {
    &&& normalized_player_name(seat.display_name).len() > 0
    &&& match summoner_by_name(by_name, normalized_player_name(seat.display_name)) {
        Some(s) => seat.summoner_id == s.summoner_id && seat.puuid == s.puuid@
            && seat.display_name == s.display_name@,
        None => seat.summoner_id == spec_negative_stable_id(seat.display_name)
            && seat.summoner_id < 0 && seat.puuid.len() == 0,
    }
}

/// The summoner found under an id is an entry with that id; none is found
/// when no entry has it.
pub proof fn lemma_summoner_by_id_is_an_entry(entries: Seq<SummonerBatchEntry>, id: i64)
    ensures
        summoner_by_id(entries, id) matches Some(e) ==> exists|k: int|
            0 <= k < entries.len() && #[trigger] entries[k] == e && e.summoner_id == id,
        summoner_by_id(entries, id) is None ==> forall|k: int|
            0 <= k < entries.len() ==> (#[trigger] entries[k]).summoner_id != id,
    decreases entries.len(),
{
    if entries.len() > 0 {
        lemma_summoner_by_id_is_an_entry(entries.drop_last(), id);
        if entries.last().summoner_id != id {
            if summoner_by_id(entries, id) is Some {
                let e = summoner_by_id(entries, id)->0;
                let k = choose|k: int| 0 <= k < entries.drop_last().len() && #[trigger] entries.drop_last()[k]
                    == e && e.summoner_id == id;
                assert(entries[k] == e);
            } else {
                assert forall|k: int| 0 <= k < entries.len() implies (#[trigger] entries[k]).summoner_id
                    != id by {
                    if k < entries.len() - 1 {
                        assert(entries.drop_last()[k] == entries[k]);
                    }
                }
            }
        } else {
            assert(entries[entries.len() - 1] == entries.last());
        }
    }
}

/// Statistics found for a puuid are a successful answer paired with it.
pub proof fn lemma_stats_for_is_an_answer(
    stats: Seq<(String, Result<ParticipantRecentStats, LeagueClientReadError>)>,
    puuid: Seq<char>,
)
    ensures
        stats_for(stats, puuid) matches Some(found) ==> exists|k: int|
            0 <= k < stats.len() && (#[trigger] stats[k]).0@ == puuid && stats[k].1 == Ok::<
                ParticipantRecentStats,
                LeagueClientReadError,
            >(found),
    decreases stats.len(),
{
    if stats.len() > 0 {
        lemma_stats_for_is_an_answer(stats.drop_last(), puuid);
        if stats.last().0@ == puuid {
            assert(stats[stats.len() - 1] == stats.last());
        } else if stats_for(stats, puuid) is Some {
            let found = stats_for(stats, puuid)->0;
            let k = choose|k: int| 0 <= k < stats.drop_last().len() && (#[trigger] stats.drop_last()[k]).0@
                == puuid && stats.drop_last()[k].1 == Ok::<
                ParticipantRecentStats,
                LeagueClientReadError,
            >(found);
            assert(stats[k] == stats.drop_last()[k]);
        }
    }
}

proof fn lemma_summoner_by_name_key(entries: Seq<SummonerBatchEntry>, name: Seq<char>)
    ensures
        summoner_by_name(entries, name) matches Some(s) ==> normalized_player_name(s.display_name@)
            == name,
    decreases entries.len(),
{
    if entries.len() > 0 {
        lemma_summoner_by_name_key(entries.drop_last(), name);
    }
}

proof fn lemma_negative_stable_id_negative(value: Seq<char>)
    ensures
        spec_negative_stable_id(value) < 0,
{
    let h = str_hash(value);
    let masked = h & 0x3fff_ffff_ffffu64;
    assert(masked <= 0x3fff_ffff_ffffu64) by (bit_vector)
        requires
            masked == h & 0x3fff_ffff_ffffu64,
    ;
}

proof fn lemma_id_phase_tracked(session: ChampSelectSessionData, by_id: Seq<SummonerBatchEntry>, ids: Seq<i64>)
    ensures
        names_tracked(id_phase(session, by_id, ids)),
    decreases ids.len(),
{
    if ids.len() > 0 {
        lemma_id_phase_tracked(session, by_id, ids.drop_last());
        let st = id_phase(session, by_id, ids.drop_last());
        let next = id_phase(session, by_id, ids);
        assert forall|i: int| 0 <= i < next.seeds.len() implies next.seen_names.contains(
            normalized_player_name(#[trigger] next.seeds[i].display_name),
        ) by {
            if i < st.seeds.len() {
                assert(next.seeds[i] == st.seeds[i]);
            }
        }
    }
}

proof fn lemma_name_phase_later_seats(
    session: ChampSelectSessionData,
    by_name: Seq<SummonerBatchEntry>,
    start: RosterState,
    entries: Seq<(Seq<char>, ChampSelectTeam)>,
)
    requires
        names_tracked(start),
    ensures
        names_tracked(name_phase(session, by_name, start, entries)),
        name_phase(session, by_name, start, entries).seeds.len() >= start.seeds.len(),
        forall|j: int|
            start.seeds.len() <= j < name_phase(session, by_name, start, entries).seeds.len()
                ==> is_name_seat(by_name, #[trigger] name_phase(session, by_name, start, entries).seeds[j]),
        forall|i: int, j: int|
            0 <= i < j < name_phase(session, by_name, start, entries).seeds.len() && start.seeds.len()
                <= j ==> normalized_player_name(
                #[trigger] name_phase(session, by_name, start, entries).seeds[i].display_name,
            ) != normalized_player_name(
                #[trigger] name_phase(session, by_name, start, entries).seeds[j].display_name,
            ),
    decreases entries.len(),
{
    if entries.len() > 0 {
        lemma_name_phase_later_seats(session, by_name, start, entries.drop_last());
        let st = name_phase(session, by_name, start, entries.drop_last());
        let next = name_phase(session, by_name, start, entries);
        let entry = entries.last();
        let normalized = normalized_player_name(entry.0);
        assert(next == name_step(session, by_name, st, entry));
        if next != st {
            assert(next.seeds == st.seeds.push(next.seeds[st.seeds.len() as int]));
            let seat = next.seeds[st.seeds.len() as int];
            lemma_summoner_by_name_key(by_name, normalized);
            match summoner_by_name(by_name, normalized) {
                Some(found) => {
                    assert(normalized_player_name(seat.display_name) == normalized);
                },
                None => {
                    lemma_negative_stable_id_negative(entry.0);
                    assert(normalized_player_name(seat.display_name) == normalized);
                },
            }
            assert(is_name_seat(by_name, seat));
            assert forall|i: int| 0 <= i < next.seeds.len() implies next.seen_names.contains(
                normalized_player_name(#[trigger] next.seeds[i].display_name),
            ) by {
                if i < st.seeds.len() {
                    assert(next.seeds[i] == st.seeds[i]);
                }
            }
            assert forall|i: int, j: int|
                0 <= i < j < next.seeds.len() && start.seeds.len() <= j implies normalized_player_name(
                #[trigger] next.seeds[i].display_name,
            ) != normalized_player_name(#[trigger] next.seeds[j].display_name) by {
                assert(next.seeds[i] == st.seeds[i]);
                if j < st.seeds.len() {
                    assert(next.seeds[j] == st.seeds[j]);
                } else {
                    assert(st.seen_names.contains(normalized_player_name(st.seeds[i].display_name)));
                }
            }
            assert forall|j: int|
                start.seeds.len() <= j < next.seeds.len() implies is_name_seat(
                by_name,
                #[trigger] next.seeds[j],
            ) by {
                if j < st.seeds.len() {
                    assert(next.seeds[j] == st.seeds[j]);
                }
            }
        }
    }
}

/// After the seats of the ids, each seat is a player known by name: the
/// summoner found under the name, or the name with a negative id when none
/// was found; and no two seats share a name (trimmed, ASCII lowercase) where
/// the later one was seated by name.
pub proof fn lemma_roster_name_seats(
    session: ChampSelectSessionData,
    ids: Seq<i64>,
    by_id: Seq<SummonerBatchEntry>,
    by_name: Seq<SummonerBatchEntry>,
)
    ensures
        forall|j: int|
            ids.len() <= j < spec_roster(session, ids, by_id, by_name).len() ==> is_name_seat(
                by_name,
                #[trigger] spec_roster(session, ids, by_id, by_name)[j],
            ),
        forall|i: int, j: int|
            0 <= i < j < spec_roster(session, ids, by_id, by_name).len() && ids.len() <= j
                ==> normalized_player_name(
                #[trigger] spec_roster(session, ids, by_id, by_name)[i].display_name,
            ) != normalized_player_name(
                #[trigger] spec_roster(session, ids, by_id, by_name)[j].display_name,
            ),
{
    lemma_id_phase_seeds(session, by_id, ids);
    lemma_id_phase_tracked(session, by_id, ids);
    lemma_name_phase_later_seats(session, by_name, id_phase(session, by_id, ids), name_entries(session));
}

} // verus!
