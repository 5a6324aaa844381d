//! The use cases that read the local League Client: its status, the current
//! summoner, icons and game assets, the champion catalog and the
//! champion-select roster.

use vstd::prelude::*;

use crate::champ_select::{
    seeds_view, spec_roster, strictly_increasing,
    champ_select_players, champ_select_roster, is_player_of, lookup_names, roster_puuids,
    sorted_summoner_ids, ChampSelectSessionData, SummonerBatchEntry,
};
use crate::application::{is_storage_error, plain_storage_result, AppStore};
use crate::clock::unix_timestamp_seconds;
use crate::constants::DEFAULT_MATCH_LIMIT;
use crate::domain::{
    ChampSelectSnapshot, LeagueChampionDetails, LeagueChampionSummary, LeagueClientStatus,
    LeagueGameAsset, LeagueGameAssetKind, LeagueImageAsset, LeagueSelfData, LeagueSelfSnapshot,
    ParticipantRecentStats,
};
use crate::errors::{validation_err, ApplicationError, LeagueClientReadError};
use crate::order::{lemma_lex_total, lemma_lex_transitive, lemma_lex_irreflexive, lemma_lex_asymmetric, lex_lt, str_lt};
use crate::performance::{is_performance_summary, summarize_recent_performance};
use crate::postmatch::LeagueCompletedMatch;
use crate::ranked::is_permutation;
use crate::text::{ascii_lowercase, ascii_lowercase_chars, str_eq};
use crate::validation::{
    asset_id_message, match_limit_message, normalize_league_asset_id, normalize_match_limit, strings_view,
    valid_asset_id, valid_match_limit,
};

verus! {

/// The puuids that a batch of recent statistics answers, in order.
pub open spec fn stats_keys(stats: Seq<(String, Result<ParticipantRecentStats, LeagueClientReadError>)>) -> Seq<Seq<char>> {
    stats.map_values(|e: (String, Result<ParticipantRecentStats, LeagueClientReadError>)| e.0@)
}

/// The local League Client, as the use cases read it. Its implementations
/// live outside this library; the `requires` clauses say what the use cases
/// hand to it, and the `ensures` of the batch read what every implementation
/// gives back.
pub trait LeagueClientReader {
    fn status(&self) -> Result<LeagueClientStatus, LeagueClientReadError>;

    fn self_data(&self, match_limit: i64) -> Result<LeagueSelfData, LeagueClientReadError>
        requires
            valid_match_limit(match_limit),
    ;

    fn profile_icon(&self, profile_icon_id: i64) -> Result<LeagueImageAsset, LeagueClientReadError>
        requires
            valid_asset_id(profile_icon_id),
    ;

    fn champion_icon(&self, champion_id: i64) -> Result<LeagueImageAsset, LeagueClientReadError>
        requires
            valid_asset_id(champion_id),
    ;

    fn game_asset(&self, kind: LeagueGameAssetKind, asset_id: i64) -> Result<
        LeagueGameAsset,
        LeagueClientReadError,
    >
        requires
            valid_asset_id(asset_id),
    ;

    fn completed_match(&self, game_id: i64) -> Result<LeagueCompletedMatch, LeagueClientReadError>
        requires
            game_id > 0,
    ;

    fn participant_recent_stats(&self, player_puuid: &str, limit: i64) -> Result<
        ParticipantRecentStats,
        LeagueClientReadError,
    >
        requires
            limit > 0,
    ;

    /// The recent statistics of each player, as pairs of puuid and answer:
    /// one pair for each puuid asked for, in any order.
    fn participant_recent_stats_batch(&self, player_puuids: &[String], limit: i64) -> (r: Vec<
        (String, Result<ParticipantRecentStats, LeagueClientReadError>),
    >)
        requires
            limit > 0,
        ensures
            r@.len() == player_puuids@.len(),
            forall|p: Seq<char>|
                #[trigger] stats_keys(r@).contains(p) <==> strings_view(player_puuids@).contains(p),
    {
        let mut out: Vec<(String, Result<ParticipantRecentStats, LeagueClientReadError>)> =
            Vec::new();
        let mut i: usize = 0;
        while i < player_puuids.len()
            invariant
                i <= player_puuids@.len(),
                limit > 0,
                out@.len() == i,
                forall|k: int| 0 <= k < i ==> (#[trigger] out@[k]).0 == player_puuids@[k],
            decreases player_puuids@.len() - i,
        {
            let puuid = &player_puuids[i];
            let result = self.participant_recent_stats(puuid.as_str(), limit);
            out.push((puuid.clone(), result));
            i = i + 1;
        }
        proof {
            assert(stats_keys(out@) =~= strings_view(player_puuids@));
        }
        out
    }

    fn champ_select_session(&self) -> Result<ChampSelectSessionData, LeagueClientReadError>;

    fn summoners_by_ids(&self, ids: &[i64]) -> Vec<SummonerBatchEntry>;

    fn summoners_by_names(&self, names: &[String]) -> Vec<SummonerBatchEntry>;

    fn champion_catalog(&self) -> Result<Vec<LeagueChampionSummary>, LeagueClientReadError>;

    fn champion_details(&self, champion_id: i64) -> Result<
        LeagueChampionDetails,
        LeagueClientReadError,
    >
        requires
            valid_asset_id(champion_id),
    ;

    fn gameflow_phase(&self) -> Result<String, LeagueClientReadError>;

    fn accept_ready_check(&self) -> Result<(), LeagueClientReadError>;

    fn apply_champ_select_preferences(
        &self,
        pick_champion_id: Option<i64>,
        ban_champion_id: Option<i64>,
    ) -> Result<(), LeagueClientReadError>;
}

/// An error of the client as the use cases report it.
pub open spec fn is_client_error(e: ApplicationError) -> bool {
    ||| e is ClientUnavailable
    ||| e is ClientAccess
    ||| e is Integration
}

/// The client's answer as the library reports it: its value as it is, or
/// its error mapped to the library's.
pub open spec fn client_answer<T>(answer: Result<T, LeagueClientReadError>, r: Result<T, ApplicationError>) -> bool {
    match answer {
        Ok(v) => r == Ok::<T, ApplicationError>(v),
        Err(e) => r == Err::<T, ApplicationError>(ApplicationError::spec_from_read(e)),
    }
}

pub fn client_result<T>(res: Result<T, LeagueClientReadError>) -> (r: Result<T, ApplicationError>)
    ensures
        match res {
            Ok(v) => r == Ok::<T, ApplicationError>(v),
            Err(e) => r == Err::<T, ApplicationError>(ApplicationError::spec_from_read(e)),
        },
        r is Err ==> is_client_error(r->Err_0),
{
    match res {
        Ok(v) => Ok(v),
        Err(e) => Err(ApplicationError::from_read_error(e)),
    }
}

// ---------------------------------------------------------------------------
// Status and the current summoner

/// The client's status; a failed read is reported as the client error it is.
pub fn get_league_client_status<R: LeagueClientReader>(reader: &R) -> (r: Result<
    LeagueClientStatus,
    ApplicationError,
>)
    ensures
        r is Err ==> is_client_error(r->Err_0),
        exists|answer: Result<LeagueClientStatus, LeagueClientReadError>|
            #[trigger] client_answer(answer, r),
{
    let answer = reader.status();
    let ghost a = answer;
    let r = client_result(answer);
    assert(client_answer(a, r));
    r
}

/// `s` holds the client's data for the current summoner as read, with the
/// performance block of its matches.
pub open spec fn is_self_snapshot(s: LeagueSelfSnapshot, data: LeagueSelfData) -> bool {
    &&& s.status == data.status
    &&& s.summoner == data.summoner
    &&& s.ranked_queues@ == data.ranked_queues@
    &&& s.recent_matches@ == data.recent_matches@
    &&& s.data_warnings@ == data.data_warnings@
    &&& is_performance_summary(s.recent_performance, data.recent_matches@)
}

/// What the snapshot gives for the client's answer to the read of the
/// summoner's data: its error, mapped, or the snapshot of the data.
pub open spec fn self_snapshot_outcome(
    answer: Result<LeagueSelfData, LeagueClientReadError>,
    r: Result<LeagueSelfSnapshot, ApplicationError>,
) -> bool {
    match answer {
        Err(e) => r == Err::<LeagueSelfSnapshot, ApplicationError>(ApplicationError::spec_from_read(e)),
        Ok(data) => r is Ok && is_self_snapshot(r->Ok_0, data),
    }
}

/// The snapshot of the current summoner built from what the client read:
/// the data as read, with the performance block of its matches.
pub fn league_self_snapshot(data: LeagueSelfData, refreshed_at: String) -> (r: LeagueSelfSnapshot)
    ensures
        is_self_snapshot(r, data),
        r.refreshed_at@ == refreshed_at@,
{
    let recent_performance = summarize_recent_performance(&data.recent_matches);
    LeagueSelfSnapshot {
        status: data.status,
        summoner: data.summoner,
        ranked_queues: data.ranked_queues,
        recent_matches: data.recent_matches,
        recent_performance,
        data_warnings: data.data_warnings,
        refreshed_at,
    }
}

pub open spec fn effective_match_limit(match_limit: Option<i64>) -> i64 {
    match match_limit {
        Some(v) => v,
        None => DEFAULT_MATCH_LIMIT,
    }
}

/// The current summoner's snapshot, reading `match_limit` matches (six when
/// none is given). A limit outside 1..=20 is refused before the client is
/// read.
pub fn get_league_self_snapshot<R: LeagueClientReader>(
    reader: &R,
    input: crate::application::LeagueSelfSnapshotInput,
) -> (r: Result<LeagueSelfSnapshot, ApplicationError>)
    ensures
        !valid_match_limit(effective_match_limit(input.match_limit)) ==> validation_err(
            r,
            match_limit_message(),
        ),
        valid_match_limit(effective_match_limit(input.match_limit)) ==> exists|
            answer: Result<LeagueSelfData, LeagueClientReadError>,
        | #[trigger] self_snapshot_outcome(answer, r),
        valid_match_limit(effective_match_limit(input.match_limit)) ==> match r {
            Ok(s) => is_performance_summary(s.recent_performance, s.recent_matches@),
            Err(e) => is_client_error(e),
        },
{
    let limit = match input.match_limit {
        Some(v) => v,
        None => DEFAULT_MATCH_LIMIT,
    };
    let match_limit = normalize_match_limit(limit)?;
    let answer = reader.self_data(match_limit);
    let ghost a = answer;
    let r = match client_result(answer) {
        Ok(data) => Ok(league_self_snapshot(data, unix_timestamp_seconds())),
        Err(e) => Err(e),
    };
    assert(self_snapshot_outcome(a, r));
    r
}

// ---------------------------------------------------------------------------
// Icons, details and game assets

/// A profile icon; an id outside 1..=1000000 is refused before the client is
/// read.
pub fn get_league_profile_icon<R: LeagueClientReader>(
    reader: &R,
    input: crate::application::LeagueProfileIconInput,
) -> (r: Result<LeagueImageAsset, ApplicationError>)
    ensures
        !valid_asset_id(input.profile_icon_id) ==> validation_err(
            r,
            asset_id_message("Profile icon id"@),
        ),
        valid_asset_id(input.profile_icon_id) && r is Err ==> is_client_error(r->Err_0),
        valid_asset_id(input.profile_icon_id) ==> exists|answer: Result<LeagueImageAsset, LeagueClientReadError>|
            #[trigger] client_answer(answer, r),
{
    let id = normalize_league_asset_id(input.profile_icon_id, "Profile icon id")?;
    let answer = reader.profile_icon(id);
    let ghost a = answer;
    let r = client_result(answer);
    assert(client_answer(a, r));
    r
}

/// A champion icon; an id outside 1..=1000000 is refused before the client
/// is read.
pub fn get_league_champion_icon<R: LeagueClientReader>(
    reader: &R,
    input: crate::application::LeagueChampionIconInput,
) -> (r: Result<LeagueImageAsset, ApplicationError>)
    ensures
        !valid_asset_id(input.champion_id) ==> validation_err(r, asset_id_message("Champion id"@)),
        valid_asset_id(input.champion_id) && r is Err ==> is_client_error(r->Err_0),
        valid_asset_id(input.champion_id) ==> exists|answer: Result<LeagueImageAsset, LeagueClientReadError>|
            #[trigger] client_answer(answer, r),
{
    let id = normalize_league_asset_id(input.champion_id, "Champion id")?;
    let answer = reader.champion_icon(id);
    let ghost a = answer;
    let r = client_result(answer);
    assert(client_answer(a, r));
    r
}

/// A champion's details; an id outside 1..=1000000 is refused before the
/// client is read.
pub fn get_league_champion_details<R: LeagueClientReader>(
    reader: &R,
    input: crate::application::LeagueChampionDetailsInput,
) -> (r: Result<LeagueChampionDetails, ApplicationError>)
    ensures
        !valid_asset_id(input.champion_id) ==> validation_err(r, asset_id_message("Champion id"@)),
        valid_asset_id(input.champion_id) && r is Err ==> is_client_error(r->Err_0),
        valid_asset_id(input.champion_id) ==> exists|answer: Result<LeagueChampionDetails, LeagueClientReadError>|
            #[trigger] client_answer(answer, r),
{
    let id = normalize_league_asset_id(input.champion_id, "Champion id")?;
    let answer = reader.champion_details(id);
    let ghost a = answer;
    let r = client_result(answer);
    assert(client_answer(a, r));
    r
}

/// An item, rune or summoner spell; an id outside 1..=1000000 is refused
/// before the client is read.
pub fn get_league_game_asset<R: LeagueClientReader>(
    reader: &R,
    input: crate::application::LeagueGameAssetInput,
) -> (r: Result<LeagueGameAsset, ApplicationError>)
    ensures
        !valid_asset_id(input.asset_id) ==> validation_err(
            r,
            asset_id_message("League game asset id"@),
        ),
        valid_asset_id(input.asset_id) && r is Err ==> is_client_error(r->Err_0),
        valid_asset_id(input.asset_id) ==> exists|answer: Result<LeagueGameAsset, LeagueClientReadError>|
            #[trigger] client_answer(answer, r),
{
    let id = normalize_league_asset_id(input.asset_id, "League game asset id")?;
    let answer = reader.game_asset(input.kind, id);
    let ghost a = answer;
    let r = client_result(answer);
    assert(client_answer(a, r));
    r
}

// ---------------------------------------------------------------------------
// The champion catalog

/// `a` is listed before `b`: by name ignoring ASCII case, then by id.
pub open spec fn catalog_before(a: LeagueChampionSummary, b: LeagueChampionSummary) -> bool {
    let la = ascii_lowercase_chars(a.champion_name@);
    let lb = ascii_lowercase_chars(b.champion_name@);
    lex_lt(la, lb) || (la == lb && a.champion_id < b.champion_id)
}

pub open spec fn catalog_tie(a: LeagueChampionSummary, b: LeagueChampionSummary) -> bool {
    ascii_lowercase_chars(a.champion_name@) == ascii_lowercase_chars(b.champion_name@)
        && a.champion_id == b.champion_id
}

proof fn lemma_catalog_transitive(a: LeagueChampionSummary, b: LeagueChampionSummary, c: LeagueChampionSummary)
    requires
        catalog_before(a, b),
        catalog_before(b, c),
    ensures
        catalog_before(a, c),
{
    let la = ascii_lowercase_chars(a.champion_name@);
    let lb = ascii_lowercase_chars(b.champion_name@);
    let lc = ascii_lowercase_chars(c.champion_name@);
    if lex_lt(la, lb) && lex_lt(lb, lc) {
        lemma_lex_transitive(la, lb, lc);
    }
}

proof fn lemma_catalog_asymmetric(a: LeagueChampionSummary, b: LeagueChampionSummary)
    requires
        catalog_before(a, b),
    ensures
        !catalog_before(b, a),
        !catalog_tie(a, b),
{
    let la = ascii_lowercase_chars(a.champion_name@);
    let lb = ascii_lowercase_chars(b.champion_name@);
    if lex_lt(la, lb) {
        lemma_lex_asymmetric(la, lb);
        if la == lb {
            lemma_lex_irreflexive(la);
        }
    }
}

proof fn lemma_catalog_total(a: LeagueChampionSummary, b: LeagueChampionSummary)
    ensures
        catalog_before(a, b) || catalog_before(b, a) || catalog_tie(a, b),
{
    lemma_lex_total(
        ascii_lowercase_chars(a.champion_name@),
        ascii_lowercase_chars(b.champion_name@),
    );
}

proof fn lemma_catalog_not_before_transitive(
    a: LeagueChampionSummary,
    b: LeagueChampionSummary,
    c: LeagueChampionSummary,
)
    requires
        !catalog_before(a, b),
        !catalog_before(b, c),
    ensures
        !catalog_before(a, c),
{
    lemma_catalog_total(a, b);
    lemma_catalog_total(b, c);
    if catalog_before(a, c) {
        if catalog_before(b, a) {
            lemma_catalog_transitive(b, a, c);
            lemma_catalog_asymmetric(b, c);
        }
    }
}

/// `out` holds the champions of `inp`, each once, in catalog order, with
/// tied entries in their order in `inp`.
pub open spec fn is_catalog_sort(out: Seq<LeagueChampionSummary>, inp: Seq<LeagueChampionSummary>) -> bool {
    exists|perm: Seq<int>|
        {
            &&& is_permutation(perm, inp.len() as int)
            &&& out.len() == inp.len()
            &&& forall|i: int| 0 <= i < out.len() ==> #[trigger] out[i] == inp[perm[i]]
            &&& forall|i: int, j: int|
                0 <= i < j < out.len() ==> !catalog_before(#[trigger] out[j], #[trigger] out[i])
            &&& forall|i: int, j: int|
                0 <= i < j < out.len() && catalog_tie(#[trigger] out[i], #[trigger] out[j])
                    ==> perm[i] < perm[j]
        }
}

fn catalog_before_exec(a: &LeagueChampionSummary, b: &LeagueChampionSummary) -> (r: bool)
    ensures
        r == catalog_before(*a, *b),
{
    let la = ascii_lowercase(a.champion_name.as_str());
    let lb = ascii_lowercase(b.champion_name.as_str());
    if str_lt(la.as_str(), lb.as_str()) {
        true
    } else if str_eq(la.as_str(), lb.as_str()) {
        a.champion_id < b.champion_id
    } else {
        false
    }
}

/// The champions in catalog order: by name ignoring ASCII case, then by id;
/// the sort is stable.
pub fn sort_champion_catalog(champions: Vec<LeagueChampionSummary>) -> (r: Vec<LeagueChampionSummary>)
    ensures
        is_catalog_sort(r@, champions@),
        forall|i: int, j: int| 0 <= i < j < r@.len() ==> !catalog_before(#[trigger] r@[j], #[trigger] r@[i]),
{
    let mut out: Vec<LeagueChampionSummary> = Vec::new();
    let ghost mut perm: Seq<int> = Seq::empty();
    let mut k: usize = 0;
    while k < champions.len()
        invariant
            k <= champions@.len(),
            out@.len() == k,
            perm.len() == k,
            forall|i: int| 0 <= i < k ==> 0 <= #[trigger] perm[i] < k,
            forall|i: int, j: int| 0 <= i < j < k ==> #[trigger] perm[i] != #[trigger] perm[j],
            forall|i: int| 0 <= i < k ==> #[trigger] out@[i] == champions@[perm[i]],
            forall|i: int, j: int| 0 <= i < j < k ==> !catalog_before(#[trigger] out@[j], #[trigger] out@[i]),
            forall|i: int, j: int|
                0 <= i < j < k && catalog_tie(#[trigger] out@[i], #[trigger] out@[j])
                    ==> perm[i] < perm[j],
        decreases champions@.len() - k,
    {
        let x = LeagueChampionSummary {
            champion_id: champions[k].champion_id,
            champion_name: champions[k].champion_name.clone(),
        };
        let mut j: usize = k;
        while j > 0 && catalog_before_exec(&x, &out[j - 1])
            invariant
                j <= k,
                out@.len() == k,
                x == champions@[k as int],
                forall|q: int| j <= q < k ==> catalog_before(x, #[trigger] out@[q]),
            decreases j,
        {
            j = j - 1;
        }
        let ghost old_out = out@;
        let ghost old_perm = perm;
        proof {
            assert forall|p: int| 0 <= p < j implies !catalog_before(x, #[trigger] old_out[p]) by {
                if p < j - 1 {
                    assert(!catalog_before(old_out[j - 1], old_out[p]));
                    lemma_catalog_not_before_transitive(x, old_out[j - 1], old_out[p]);
                }
            }
            assert forall|q: int| j <= q < k implies !catalog_before(#[trigger] old_out[q], x)
                && !catalog_tie(x, old_out[q]) by {
                lemma_catalog_asymmetric(x, old_out[q]);
            }
        }
        out.insert(j, x);
        proof {
            perm = old_perm.insert(j as int, k as int);
            assert(out@ == old_out.insert(j as int, x));
            assert forall|i: int| 0 <= i < k + 1 implies #[trigger] out@[i] == champions@[perm[i]] by {
                if i < j {
                    assert(out@[i] == old_out[i]);
                } else if i > j {
                    assert(out@[i] == old_out[i - 1]);
                }
            }
            assert forall|i: int| 0 <= i < k + 1 implies 0 <= #[trigger] perm[i] < k + 1 by {
                if i > j {
                    assert(perm[i] == old_perm[i - 1]);
                }
            }
            assert forall|a: int, b: int| 0 <= a < b < k + 1 implies #[trigger] perm[a] != #[trigger] perm[b] by {
                if a < j && b < j {
                } else if a < j && b == j {
                } else if a < j {
                    assert(perm[b] == old_perm[b - 1]);
                } else if a == j {
                    assert(perm[b] == old_perm[b - 1]);
                } else {
                    assert(perm[a] == old_perm[a - 1]);
                    assert(perm[b] == old_perm[b - 1]);
                }
            }
            assert forall|a: int, b: int| 0 <= a < b < k + 1 implies !catalog_before(
                #[trigger] out@[b],
                #[trigger] out@[a],
            ) by {
                if a < j && b < j {
                    assert(out@[a] == old_out[a] && out@[b] == old_out[b]);
                } else if a < j && b == j {
                    assert(out@[a] == old_out[a]);
                } else if a < j {
                    assert(out@[a] == old_out[a] && out@[b] == old_out[b - 1]);
                } else if a == j {
                    assert(out@[b] == old_out[b - 1]);
                } else {
                    assert(out@[a] == old_out[a - 1] && out@[b] == old_out[b - 1]);
                }
            }
            assert forall|a: int, b: int|
                0 <= a < b < k + 1 && catalog_tie(#[trigger] out@[a], #[trigger] out@[b])
                    implies perm[a] < perm[b] by {
                if a < j && b < j {
                    assert(out@[a] == old_out[a] && out@[b] == old_out[b]);
                } else if a < j && b == j {
                } else if a < j {
                    assert(out@[a] == old_out[a] && out@[b] == old_out[b - 1]);
                    assert(perm[b] == old_perm[b - 1]);
                } else if a == j {
                    assert(out@[b] == old_out[b - 1]);
                } else {
                    assert(out@[a] == old_out[a - 1] && out@[b] == old_out[b - 1]);
                    assert(perm[a] == old_perm[a - 1]);
                    assert(perm[b] == old_perm[b - 1]);
                }
            }
        }
        k = k + 1;
    }
    proof {
        assert(is_permutation(perm, champions@.len() as int));
    }
    out
}

/// What the catalog gives for the client's answer: its error, mapped, or
/// the champions it listed in catalog order.
pub open spec fn catalog_outcome(
    answer: Result<Vec<LeagueChampionSummary>, LeagueClientReadError>,
    r: Result<Vec<LeagueChampionSummary>, ApplicationError>,
) -> bool {
    match answer {
        Err(e) => r == Err::<Vec<LeagueChampionSummary>, ApplicationError>(
            ApplicationError::spec_from_read(e),
        ),
        Ok(champions) => r is Ok && is_catalog_sort(r->Ok_0@, champions@),
    }
}

/// The champion catalog in catalog order.
pub fn get_league_champion_catalog<R: LeagueClientReader>(reader: &R) -> (r: Result<
    Vec<LeagueChampionSummary>,
    ApplicationError,
>)
    ensures
        r is Err ==> is_client_error(r->Err_0),
        r matches Ok(v) ==> forall|i: int, j: int|
            0 <= i < j < v@.len() ==> !catalog_before(#[trigger] v@[j], #[trigger] v@[i]),
        exists|answer: Result<Vec<LeagueChampionSummary>, LeagueClientReadError>|
            #[trigger] catalog_outcome(answer, r),
{
    let answer = reader.champion_catalog();
    let ghost a = answer;
    let r = match client_result(answer) {
        Ok(champions) => Ok(sort_champion_catalog(champions)),
        Err(e) => Err(e),
    };
    assert(catalog_outcome(a, r));
    r
}

// ---------------------------------------------------------------------------
// Champion select

/// What the champion-select automation gives for the store's answer to the
/// read of the settings: nothing, or the store's error as it stands.
pub open spec fn settings_read_outcome(answer: Result<crate::domain::AppSettings, String>, r: Result<(), ApplicationError>) -> bool {
    match answer {
        Ok(_) => r == Ok::<(), ApplicationError>(()),
        Err(e) => r matches Err(ApplicationError::Storage(m)) && m@ == e@,
    }
}

/// The champion-select automation: it reads the settings and does nothing
/// else, as picks and bans are not automated; a failed read is reported.
pub fn run_champ_select_automation<S: AppStore, R: LeagueClientReader>(store: &S, _reader: &R) -> (r:
    Result<(), ApplicationError>)
    ensures
        exists|answer: Result<crate::domain::AppSettings, String>| #[trigger] settings_read_outcome(answer, r),
{
    let answer = store.get_settings();
    let ghost a = answer;
    let r = match plain_storage_result(answer) {
        Ok(_) => Ok(()),
        Err(e) => Err(e),
    };
    assert(settings_read_outcome(a, r));
    r
}

/// `snapshot` is the roster of `session`: its summoner ids `ids`, ascending
/// and each once, seated with what the id lookup `by_id` and the name lookup
/// `by_name` found, each player with the recent statistics `stats` holds for
/// its puuid (none are read when `recent_limit` is not positive), stamped
/// with a Unix time in decimal.
pub open spec fn is_roster_snapshot(
    snapshot: ChampSelectSnapshot,
    session: ChampSelectSessionData,
    ids: Seq<i64>,
    by_id: Seq<SummonerBatchEntry>,
    by_name: Seq<SummonerBatchEntry>,
    stats: Seq<(String, Result<ParticipantRecentStats, LeagueClientReadError>)>,
    recent_limit: i64,
) -> bool {
    let seats = spec_roster(session, ids, by_id, by_name);
    &&& strictly_increasing(ids)
    &&& forall|x: i64|
        ids.contains(x) <==> (session.ally_ids@.contains(x) || session.enemy_ids@.contains(x))
    &&& recent_limit <= 0 ==> stats.len() == 0
    &&& recent_limit > 0 ==> forall|p: Seq<char>|
        #[trigger] stats_keys(stats).contains(p) <==> (p.len() > 0 && exists|i: int|
            0 <= i < seats.len() && seats[i].puuid == p)
    &&& snapshot.players@.len() == seats.len()
    &&& forall|i: int|
        0 <= i < seats.len() ==> is_player_of(#[trigger] snapshot.players@[i], seats[i], stats)
    &&& exists|secs: nat| snapshot.cached_at@ == #[trigger] crate::decimal::decimal_digits(secs)
}

/// Each player seated for a summoner id of the session carries that id and
/// the side of the session it is listed on: an ally id gives an ally, and an
/// id listed only among the enemies gives an enemy.
pub proof fn lemma_snapshot_players_keep_their_side(
    snapshot: ChampSelectSnapshot,
    session: ChampSelectSessionData,
    ids: Seq<i64>,
    by_id: Seq<SummonerBatchEntry>,
    by_name: Seq<SummonerBatchEntry>,
    stats: Seq<(String, Result<ParticipantRecentStats, LeagueClientReadError>)>,
    recent_limit: i64,
)
    requires
        is_roster_snapshot(snapshot, session, ids, by_id, by_name, stats, recent_limit),
    ensures
        snapshot.players@.len() >= ids.len(),
        forall|i: int|
            0 <= i < ids.len() ==> {
                let p = #[trigger] snapshot.players@[i];
                &&& p.summoner_id == ids[i]
                &&& session.ally_ids@.contains(ids[i]) ==> p.team == crate::domain::ChampSelectTeam::Ally
                &&& !session.ally_ids@.contains(ids[i]) ==> p.team
                    == crate::domain::ChampSelectTeam::Enemy
            },
        forall|i: int|
            0 <= i < ids.len() ==> {
                let p = #[trigger] snapshot.players@[i];
                &&& session.champion_selections@.contains_key(ids[i]) ==> p.champion_id == Some(
                    session.champion_selections@[ids[i]],
                )
                &&& !session.champion_selections@.contains_key(ids[i]) ==> p.champion_id is None
                &&& (exists|k: int| 0 <= k < by_id.len() && (#[trigger] by_id[k]).summoner_id == ids[i])
                    ==> exists|k: int|
                    0 <= k < by_id.len() && (#[trigger] by_id[k]).summoner_id == ids[i]
                        && p.puuid@ == by_id[k].puuid@ && p.display_name@ == by_id[k].display_name@
                &&& !(exists|k: int| 0 <= k < by_id.len() && (#[trigger] by_id[k]).summoner_id == ids[i])
                    ==> p.puuid@.len() == 0 && p.display_name@ == "Summoner "@ + crate::decimal::decimal_of(
                    ids[i] as int,
                )
            },
        forall|i: int|
            0 <= i < snapshot.players@.len() ==> ((#[trigger] snapshot.players@[i]).recent_stats is Some
                ==> exists|k: int|
                0 <= k < stats.len() && (#[trigger] stats[k]).0@ == snapshot.players@[i].puuid@
                    && stats[k].1 is Ok && crate::matches::same_recent_stats(
                    snapshot.players@[i].recent_stats->0,
                    stats[k].1->Ok_0,
                )),
{
    crate::champ_select::lemma_roster_seats_ids_first(session, ids, by_id, by_name);
    let seats = spec_roster(session, ids, by_id, by_name);
    assert forall|i: int| 0 <= i < ids.len() implies {
        let p = #[trigger] snapshot.players@[i];
        &&& p.summoner_id == ids[i]
        &&& session.ally_ids@.contains(ids[i]) ==> p.team == crate::domain::ChampSelectTeam::Ally
        &&& !session.ally_ids@.contains(ids[i]) ==> p.team == crate::domain::ChampSelectTeam::Enemy
    } by {
        assert(seats[i] == crate::champ_select::id_seed(session, by_id, ids[i]));
        assert(is_player_of(snapshot.players@[i], seats[i], stats));
    }
    assert forall|i: int| 0 <= i < ids.len() implies {
        let p = #[trigger] snapshot.players@[i];
        &&& session.champion_selections@.contains_key(ids[i]) ==> p.champion_id == Some(
            session.champion_selections@[ids[i]],
        )
        &&& !session.champion_selections@.contains_key(ids[i]) ==> p.champion_id is None
        &&& (exists|k: int| 0 <= k < by_id.len() && (#[trigger] by_id[k]).summoner_id == ids[i])
            ==> exists|k: int|
            0 <= k < by_id.len() && (#[trigger] by_id[k]).summoner_id == ids[i] && p.puuid@
                == by_id[k].puuid@ && p.display_name@ == by_id[k].display_name@
        &&& !(exists|k: int| 0 <= k < by_id.len() && (#[trigger] by_id[k]).summoner_id == ids[i])
            ==> p.puuid@.len() == 0 && p.display_name@ == "Summoner "@ + crate::decimal::decimal_of(
            ids[i] as int,
        )
    } by {
        assert(seats[i] == crate::champ_select::id_seed(session, by_id, ids[i]));
        assert(is_player_of(snapshot.players@[i], seats[i], stats));
        crate::champ_select::lemma_summoner_by_id_is_an_entry(by_id, ids[i]);
    }
    assert forall|i: int| 0 <= i < snapshot.players@.len() implies ((
    #[trigger] snapshot.players@[i]).recent_stats is Some ==> exists|k: int|
        0 <= k < stats.len() && (#[trigger] stats[k]).0@ == snapshot.players@[i].puuid@
            && stats[k].1 is Ok && crate::matches::same_recent_stats(
            snapshot.players@[i].recent_stats->0,
            stats[k].1->Ok_0,
        )) by {
        assert(is_player_of(snapshot.players@[i], seats[i], stats));
        crate::champ_select::lemma_stats_for_is_an_answer(stats, seats[i].puuid);
    }
}

/// What the roster gives for the client's answer to the read of the
/// session: its error, mapped, or the roster of that session.
pub open spec fn roster_outcome(
    answer: Result<ChampSelectSessionData, LeagueClientReadError>,
    recent_limit: i64,
    r: Result<ChampSelectSnapshot, ApplicationError>,
) -> bool {
    match answer {
        Err(e) => r == Err::<ChampSelectSnapshot, ApplicationError>(ApplicationError::spec_from_read(e)),
        Ok(session) => r is Ok && exists|
            ids: Seq<i64>,
            by_id: Seq<SummonerBatchEntry>,
            by_name: Seq<SummonerBatchEntry>,
            stats: Seq<(String, Result<ParticipantRecentStats, LeagueClientReadError>)>,
        | #[trigger] is_roster_snapshot(r->Ok_0, session, ids, by_id, by_name, stats, recent_limit),
    }
}

/// The champion-select roster: every summoner id of the session (ascending,
/// each once) with what the client knows of it, then the players the
/// session names that are not seated yet; with recent statistics of
/// `recent_limit` matches when that is positive.
pub fn get_champ_select_snapshot<R: LeagueClientReader>(reader: &R, recent_limit: i64) -> (r:
    Result<ChampSelectSnapshot, ApplicationError>)
    ensures
        r is Err ==> is_client_error(r->Err_0),
        r is Ok && recent_limit <= 0 ==> forall|i: int|
            0 <= i < r->Ok_0.players@.len() ==> (#[trigger] r->Ok_0.players@[i]).recent_stats is None,
        exists|answer: Result<ChampSelectSessionData, LeagueClientReadError>|
            #[trigger] roster_outcome(answer, recent_limit, r),
{
    let answer = reader.champ_select_session();
    let ghost a = answer;
    let session = match client_result(answer) {
        Ok(session) => session,
        Err(e) => {
            let r = Err(e);
            assert(roster_outcome(a, recent_limit, r));
            return r;
        },
    };
    let ids = sorted_summoner_ids(&session);
    let by_id = reader.summoners_by_ids(ids.as_slice());
    let names = lookup_names(&session);
    let by_name = reader.summoners_by_names(names.as_slice());
    let seeds = champ_select_roster(&session, &ids, &by_id, &by_name);
    let puuids_asked = roster_puuids(&seeds);
    let stats = if recent_limit <= 0 {
        Vec::new()
    } else {
        reader.participant_recent_stats_batch(puuids_asked.as_slice(), recent_limit)
    };
    let players = champ_select_players(&seeds, &stats);
    proof {
        if recent_limit <= 0 {
            assert forall|i: int| 0 <= i < players@.len() implies (#[trigger] players@[i]).recent_stats is None by {
                assert(is_player_of(players@[i], seeds@[i]@, stats@));
            }
        }
    }
    let snapshot = ChampSelectSnapshot { players, cached_at: unix_timestamp_seconds() };
    proof {
        let seats = spec_roster(session, ids@, by_id@, by_name@);
        assert(seeds_view(seeds@) == seats);
        assert forall|i: int| 0 <= i < seats.len() implies is_player_of(
            #[trigger] snapshot.players@[i],
            seats[i],
            stats@,
        ) by {
            assert(seeds_view(seeds@)[i] == seeds@[i]@);
        }
        if recent_limit > 0 {
            assert forall|p: Seq<char>| #[trigger] stats_keys(stats@).contains(p) <==> (p.len() > 0
                && exists|i: int| 0 <= i < seats.len() && seats[i].puuid == p) by {
                if p.len() > 0 && exists|i: int| 0 <= i < seats.len() && seats[i].puuid == p {
                    let i = choose|i: int| 0 <= i < seats.len() && seats[i].puuid == p;
                    assert(seeds_view(seeds@)[i] == seeds@[i]@);
                    assert(seeds@[i].puuid@ == p);
                }
                if strings_view(puuids_asked@).contains(p) {
                    let i = choose|i: int| 0 <= i < seeds@.len() && (#[trigger] seeds@[i]).puuid@ == p;
                    assert(seeds_view(seeds@)[i] == seeds@[i]@);
                    assert(seats[i].puuid == p);
                }
            }
        }
        assert(is_roster_snapshot(snapshot, session, ids@, by_id@, by_name@, stats@, recent_limit));
    }
    let ghost snap = snapshot;
    let r = Ok(snapshot);
    assert(r->Ok_0 == snap);
    assert(is_roster_snapshot(r->Ok_0, session, ids@, by_id@, by_name@, stats@, recent_limit));
    assert(roster_outcome(a, recent_limit, r));
    r
}

} // verus!
