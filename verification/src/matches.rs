//! Match history: the current summoner's recent matches, KDA ratios and the
//! champions played most.

use vstd::prelude::*;

use crate::constants::{HIGH_KDA_THRESHOLD_TENTHS, PERFORMANCE_MATCH_COUNT, TOP_CHAMPION_COUNT};
use crate::decimal::{decimal_of, i64_to_decimal};
use crate::domain::{
    KdaTag, LeagueClientStatus, LeagueDataSection, LeagueDataWarning, LeagueSelfData, MatchResult,
    ParticipantRecentStats, RecentChampionSummary, RecentMatchSummary,
};
use crate::league_client::{
    connected_status, data_warning, is_status, map_ranked_queues, partial_data_status,
    section_error_message, spec_non_empty, spec_section_error_message, is_queue_summary,
    typed_queues, LcuPlayer, LcuRankedStats, LcuRequestError, LcuSummoner, non_empty,
};
use crate::ranked::clone_opt_string;
use crate::text::{concat_strs, is_blank, trimmed};
use crate::validation::opt_string_view;

verus! {

// ---------------------------------------------------------------------------
// KDA

/// `n / d` rounded to the nearest whole number, halves away from zero
/// (for `d > 0`).
pub open spec fn round_half_away(n: int, d: int) -> int {
    if n >= 0 {
        (2 * n + d) / (2 * d)
    } else {
        -((-2 * n + d) / (2 * d))
    }
}

/// The KDA ratio `(kills + assists) / deaths` (or `kills + assists` without
/// deaths), rounded to a tenth, in tenths.
pub open spec fn kda_tenths(kills: int, deaths: int, assists: int) -> int {
    if deaths <= 0 {
        (kills + assists) * 10
    } else {
        round_half_away((kills + assists) * 10, deaths)
    }
}

/// The KDA in tenths, when it is a 64-bit number.
pub open spec fn spec_kda(kills: i64, deaths: i64, assists: i64) -> Option<i64> {
    let k = kda_tenths(kills as int, deaths as int, assists as int);
    if i64::MIN <= k <= i64::MAX {
        Some(k as i64)
    } else {
        None
    }
}

pub fn calculate_kda(kills: i64, deaths: i64, assists: i64) -> (r: Option<i64>)
    ensures
        r == spec_kda(kills, deaths, assists),
{
    let contribution: i128 = (kills as i128 + assists as i128) * 10;
    let tenths: i128 = if deaths <= 0 {
        contribution
    } else {
        let d = deaths as i128;
        if contribution >= 0 {
            (2 * contribution + d) / (2 * d)
        } else {
            -((-2 * contribution + d) / (2 * d))
        }
    };
    if i64::MIN as i128 <= tenths && tenths <= i64::MAX as i128 {
        Some(tenths as i64)
    } else {
        None
    }
}

/// High from an average KDA of 4.0, standard below, unavailable without one.
pub open spec fn spec_kda_tag(average_kda: Option<i64>) -> KdaTag {
    match average_kda {
        Some(v) => if v >= HIGH_KDA_THRESHOLD_TENTHS {
            KdaTag::High
        } else {
            KdaTag::Standard
        },
        None => KdaTag::Unavailable,
    }
}

pub fn kda_tag(average_kda: Option<i64>) -> (r: KdaTag)
    ensures
        r == spec_kda_tag(average_kda),
{
    match average_kda {
        Some(v) => if v >= HIGH_KDA_THRESHOLD_TENTHS {
            KdaTag::High
        } else {
            KdaTag::Standard
        },
        None => KdaTag::Unavailable,
    }
}

// ---------------------------------------------------------------------------
// Queue and champion names

pub open spec fn spec_queue_name(queue_id: i64) -> Option<Seq<char>> {
    if queue_id == 400 {
        Some("Normal Draft"@)
    } else if queue_id == 420 {
        Some("Ranked Solo/Duo"@)
    } else if queue_id == 430 {
        Some("Normal Blind"@)
    } else if queue_id == 440 {
        Some("Ranked Flex"@)
    } else if queue_id == 450 {
        Some("ARAM"@)
    } else if queue_id == 700 {
        Some("Clash"@)
    } else if queue_id == 1700 {
        Some("Arena"@)
    } else {
        None
    }
}

pub fn queue_name(queue_id: i64) -> (r: Option<&'static str>)
    ensures
        match r {
            Some(s) => spec_queue_name(queue_id) == Some(s@),
            None => spec_queue_name(queue_id) is None,
        },
{
    if queue_id == 400 {
        Some("Normal Draft")
    } else if queue_id == 420 {
        Some("Ranked Solo/Duo")
    } else if queue_id == 430 {
        Some("Normal Blind")
    } else if queue_id == 440 {
        Some("Ranked Flex")
    } else if queue_id == 450 {
        Some("ARAM")
    } else if queue_id == 700 {
        Some("Clash")
    } else if queue_id == 1700 {
        Some("Arena")
    } else {
        None
    }
}

#[derive(Debug, Clone, PartialEq, Eq)]
pub struct LcuChampionSummary {
    pub id: i64,
    pub name: String,
}

pub open spec fn is_named_champion(c: LcuChampionSummary) -> bool {
    c.id > 0 && trimmed(c.name@).len() > 0
}

/// The champions with an id and a name, in order.
pub open spec fn named_champions(champions: Seq<LcuChampionSummary>) -> Seq<LcuChampionSummary>
    decreases champions.len(),
{
    if champions.len() == 0 {
        Seq::empty()
    } else {
        let rest = named_champions(champions.drop_last());
        if is_named_champion(champions.last()) {
            rest.push(champions.last())
        } else {
            rest
        }
    }
}

/// The champion name table: the champions with an id and a name.
pub fn champion_name_map(champions: Vec<LcuChampionSummary>) -> (r: Vec<LcuChampionSummary>)
    ensures
        r@ == named_champions(champions@),
{
    let mut out: Vec<LcuChampionSummary> = Vec::new();
    let mut i: usize = 0;
    while i < champions.len()
        invariant
            i <= champions@.len(),
            out@ == named_champions(champions@.take(i as int)),
        decreases champions@.len() - i,
    {
        proof {
            assert(champions@.take(i + 1).drop_last() == champions@.take(i as int));
        }
        let c = &champions[i];
        if c.id > 0 && !is_blank(c.name.as_str()) {
            out.push(LcuChampionSummary { id: c.id, name: c.name.clone() });
        }
        i = i + 1;
    }
    proof {
        assert(champions@.take(champions@.len() as int) == champions@);
    }
    out
}

/// The name of champion `id` in the table: the last entry for it wins.
pub open spec fn name_lookup(names: Seq<LcuChampionSummary>, id: i64) -> Option<Seq<char>>
    decreases names.len(),
{
    if names.len() == 0 {
        None
    } else if names.last().id == id {
        Some(names.last().name@)
    } else {
        name_lookup(names.drop_last(), id)
    }
}

pub fn lookup_champion_name(names: &Vec<LcuChampionSummary>, id: i64) -> (r: Option<String>)
    ensures
        opt_string_view(r) == name_lookup(names@, id),
{
    let mut i: usize = names.len();
    proof {
        assert(names@.take(names@.len() as int) == names@);
    }
    while i > 0
        invariant
            i <= names@.len(),
            name_lookup(names@, id) == name_lookup(names@.take(i as int), id),
        decreases i,
    {
        proof {
            assert(names@.take(i as int).drop_last() == names@.take(i - 1));
        }
        if names[i - 1].id == id {
            return Some(names[i - 1].name.clone());
        }
        i = i - 1;
    }
    None
}

#[derive(Debug, Clone, PartialEq, Eq)]
pub struct LcuParticipantStats {
    pub kills: Option<i64>,
    pub deaths: Option<i64>,
    pub assists: Option<i64>,
    pub win: Option<bool>,
}

#[derive(Debug, Clone, PartialEq, Eq)]
pub struct LcuParticipant {
    pub participant_id: Option<i64>,
    pub champion_id: Option<i64>,
    pub champion_name: Option<String>,
    pub stats: Option<LcuParticipantStats>,
}

#[derive(Debug, Clone, PartialEq, Eq)]
pub struct LcuParticipantIdentity {
    pub participant_id: Option<i64>,
    pub player: Option<LcuPlayer>,
}

/// A match of the history. `game_creation` is the creation time as text,
/// when the client gives it as a number or a string.
#[derive(Debug, Clone, PartialEq, Eq)]
pub struct LcuGame {
    pub game_id: Option<i64>,
    pub game_creation_date: Option<String>,
    pub game_creation: Option<String>,
    pub queue_id: Option<i64>,
    pub participants: Vec<LcuParticipant>,
    pub participant_identities: Vec<LcuParticipantIdentity>,
}

#[derive(Debug, Clone, PartialEq, Eq)]
pub struct LcuGames {
    pub games: Vec<LcuGame>,
}

#[derive(Debug, Clone, PartialEq, Eq)]
pub struct LcuMatchHistoryResponse {
    pub games: Option<LcuGames>,
}

/// The name shown for a participant's champion: its own name when given,
/// else the table's name for its id, else `Champion <id>`, else a
/// placeholder.
pub open spec fn spec_participant_champion_name(
    participant: LcuParticipant,
    names: Seq<LcuChampionSummary>,
) -> Seq<char> {
    match spec_non_empty(opt_string_view(participant.champion_name)) {
        Some(n) => n,
        None => match participant.champion_id {
            Some(id) => match name_lookup(names, id) {
                Some(n) => n,
                None => "Champion "@ + decimal_of(id as int),
            },
            None => "Unknown champion"@,
        },
    }
}

pub fn participant_champion_name(participant: &LcuParticipant, names: &Vec<LcuChampionSummary>) -> (r:
    String)
    ensures
        r@ == spec_participant_champion_name(*participant, names@),
{
    if let Some(name) = non_empty(&participant.champion_name) {
        return name;
    }
    match participant.champion_id {
        Some(id) => match lookup_champion_name(names, id) {
            Some(name) => name,
            None => {
                let digits = i64_to_decimal(id);
                concat_strs("Champion ", digits.as_str())
            },
        },
        None => "Unknown champion".to_owned(),
    }
}

// ---------------------------------------------------------------------------
// Recent matches

/// The participant id of the first identity that is the summoner's.
pub open spec fn self_participant_id(ids: Seq<LcuParticipantIdentity>, summoner: LcuSummoner) -> Option<
    i64,
>
    decreases ids.len(),
{
    if ids.len() == 0 {
        None
    } else if ids[0].player is Some && summoner.spec_matches_player(ids[0].player->0)
        && ids[0].participant_id is Some {
        ids[0].participant_id
    } else {
        self_participant_id(ids.drop_first(), summoner)
    }
}

/// The first participant with the id `pid`.
pub open spec fn participant_with_id(parts: Seq<LcuParticipant>, pid: i64) -> Option<LcuParticipant>
    decreases parts.len(),
{
    if parts.len() == 0 {
        None
    } else if parts[0].participant_id == Some(pid) {
        Some(parts[0])
    } else {
        participant_with_id(parts.drop_first(), pid)
    }
}

/// The summoner's participant in `game`, when it has stats.
pub open spec fn self_participant(game: LcuGame, summoner: LcuSummoner) -> Option<LcuParticipant> {
    match self_participant_id(game.participant_identities@, summoner) {
        Some(pid) => match participant_with_id(game.participants@, pid) {
            Some(p) => if p.stats is Some {
                Some(p)
            } else {
                None
            },
            None => None,
        },
        None => None,
    }
}

pub open spec fn is_recent_game(game: LcuGame, summoner: LcuSummoner) -> bool {
    self_participant(game, summoner) is Some && game.game_id is Some
}

pub open spec fn or_zero(v: Option<i64>) -> i64 {
    match v {
        Some(x) => x,
        None => 0,
    }
}

pub open spec fn spec_match_result(win: Option<bool>) -> MatchResult {
    match win {
        Some(true) => MatchResult::Win,
        Some(false) => MatchResult::Loss,
        None => MatchResult::Unknown,
    }
}

/// `m` is the summary of the recent game `game`.
pub open spec fn is_recent_match(
    m: RecentMatchSummary,
    game: LcuGame,
    summoner: LcuSummoner,
    names: Seq<LcuChampionSummary>,
) -> bool {
    let p = self_participant(game, summoner)->0;
    let st = p.stats->0;
    &&& m.game_id == game.game_id->0
    &&& m.champion_id == p.champion_id
    &&& m.champion_name@ == spec_participant_champion_name(p, names)
    &&& opt_string_view(m.queue_name) == match game.queue_id {
        Some(q) => spec_queue_name(q),
        None => None,
    }
    &&& m.result == spec_match_result(st.win)
    &&& m.kills == or_zero(st.kills)
    &&& m.deaths == or_zero(st.deaths)
    &&& m.assists == or_zero(st.assists)
    &&& m.kda == spec_kda(or_zero(st.kills), or_zero(st.deaths), or_zero(st.assists))
    &&& opt_string_view(m.played_at) == match game.game_creation_date {
        Some(d) => Some(d@),
        None => opt_string_view(game.game_creation),
    }
    &&& m.game_duration_seconds is None
}

fn find_self_participant_id(ids: &Vec<LcuParticipantIdentity>, summoner: &LcuSummoner) -> (r: Option<
    i64,
>)
    ensures
        r == self_participant_id(ids@, *summoner),
{
    let mut i: usize = 0;
    proof {
        assert(ids@.skip(0) == ids@);
    }
    while i < ids.len()
        invariant
            i <= ids@.len(),
            self_participant_id(ids@, *summoner) == self_participant_id(ids@.skip(i as int), *summoner),
        decreases ids@.len() - i,
    {
        proof {
            assert(ids@.skip(i as int)[0] == ids@[i as int]);
            assert(ids@.skip(i as int).drop_first() == ids@.skip(i + 1));
        }
        let identity = &ids[i];
        if let Some(player) = &identity.player {
            if summoner.matches_player(player) && identity.participant_id.is_some() {
                return identity.participant_id;
            }
        }
        i = i + 1;
    }
    None
}

fn find_participant(parts: &Vec<LcuParticipant>, pid: i64) -> (r: Option<usize>)
    ensures
        match r {
            Some(i) => i < parts@.len() && participant_with_id(parts@, pid) == Some(parts@[i as int]),
            None => participant_with_id(parts@, pid) is None,
        },
{
    let mut i: usize = 0;
    proof {
        assert(parts@.skip(0) == parts@);
    }
    while i < parts.len()
        invariant
            i <= parts@.len(),
            participant_with_id(parts@, pid) == participant_with_id(parts@.skip(i as int), pid),
        decreases parts@.len() - i,
    {
        proof {
            assert(parts@.skip(i as int)[0] == parts@[i as int]);
            assert(parts@.skip(i as int).drop_first() == parts@.skip(i + 1));
        }
        if parts[i].participant_id == Some(pid) {
            return Some(i);
        }
        i = i + 1;
    }
    None
}

/// The summary of one game, when the current summoner played it.
pub fn map_recent_match(game: &LcuGame, summoner: &LcuSummoner, names: &Vec<LcuChampionSummary>) -> (r:
    Option<RecentMatchSummary>)
    ensures
        is_recent_game(*game, *summoner) ==> (r matches Some(m) && is_recent_match(
            m,
            *game,
            *summoner,
            names@,
        )),
        !is_recent_game(*game, *summoner) ==> r is None,
{
    let pid = find_self_participant_id(&game.participant_identities, summoner)?;
    let index = find_participant(&game.participants, pid)?;
    let participant = &game.participants[index];
    let stats = match &participant.stats {
        Some(s) => s,
        None => {
            return None;
        },
    };
    let game_id = game.game_id?;
    let kills = match stats.kills {
        Some(v) => v,
        None => 0,
    };
    let deaths = match stats.deaths {
        Some(v) => v,
        None => 0,
    };
    let assists = match stats.assists {
        Some(v) => v,
        None => 0,
    };
    let queue = match game.queue_id {
        Some(q) => match queue_name(q) {
            Some(name) => Some(name.to_owned()),
            None => None,
        },
        None => None,
    };
    let played_at = match &game.game_creation_date {
        Some(d) => Some(d.clone()),
        None => clone_opt_string(&game.game_creation),
    };
    Some(
        RecentMatchSummary {
            game_id,
            champion_id: participant.champion_id,
            champion_name: participant_champion_name(participant, names),
            queue_name: queue,
            result: match stats.win {
                Some(true) => MatchResult::Win,
                Some(false) => MatchResult::Loss,
                None => MatchResult::Unknown,
            },
            kills,
            deaths,
            assists,
            kda: calculate_kda(kills, deaths, assists),
            played_at,
            game_duration_seconds: None,
        },
    )
}

/// The games of `games` the summoner played, in order.
pub open spec fn recent_games(games: Seq<LcuGame>, summoner: LcuSummoner) -> Seq<LcuGame>
    decreases games.len(),
{
    if games.len() == 0 {
        Seq::empty()
    } else {
        let rest = recent_games(games.drop_last(), summoner);
        if is_recent_game(games.last(), summoner) {
            rest.push(games.last())
        } else {
            rest
        }
    }
}

pub open spec fn history_games(history: LcuMatchHistoryResponse) -> Seq<LcuGame> {
    match history.games {
        Some(g) => g.games@,
        None => Seq::empty(),
    }
}

pub fn map_recent_matches(
    history: &LcuMatchHistoryResponse,
    summoner: &LcuSummoner,
    names: &Vec<LcuChampionSummary>,
) -> (r: Vec<RecentMatchSummary>)
    ensures
        r@.len() == recent_games(history_games(*history), *summoner).len(),
        forall|i: int|
            0 <= i < r@.len() ==> is_recent_match(
                #[trigger] r@[i],
                recent_games(history_games(*history), *summoner)[i],
                *summoner,
                names@,
            ),
{
    let mut out: Vec<RecentMatchSummary> = Vec::new();
    let games = match &history.games {
        Some(g) => &g.games,
        None => {
            return out;
        },
    };
    let mut i: usize = 0;
    while i < games.len()
        invariant
            i <= games@.len(),
            games@ == history_games(*history),
            out@.len() == recent_games(games@.take(i as int), *summoner).len(),
            forall|j: int|
                0 <= j < out@.len() ==> is_recent_match(
                    #[trigger] out@[j],
                    recent_games(games@.take(i as int), *summoner)[j],
                    *summoner,
                    names@,
                ),
        decreases games@.len() - i,
    {
        proof {
            assert(games@.take(i + 1).drop_last() == games@.take(i as int));
        }
        if let Some(m) = map_recent_match(&games[i], summoner, names) {
            out.push(m);
        }
        i = i + 1;
    }
    proof {
        assert(games@.take(games@.len() as int) == games@);
    }
    out
}

// ---------------------------------------------------------------------------
// The summoner's own data

/// The error of a section's read, if it failed.
pub open spec fn read_error<T>(res: Result<T, LcuRequestError>) -> Option<LcuRequestError> {
    match res {
        Ok(_) => None,
        Err(e) => Some(e),
    }
}

/// The warning that a section named `name` leaves when its read failed.
pub open spec fn section_warning(
    section: LeagueDataSection,
    name: Seq<char>,
    error: Option<LcuRequestError>,
) -> Seq<(LeagueDataSection, Seq<char>)> {
    match error {
        Some(e) => seq![(section, spec_section_error_message(name, e))],
        None => Seq::empty(),
    }
}

/// The warnings of the summoner's own data, in the order champions, ranked,
/// matches.
pub open spec fn self_data_warnings(
    champions: Option<LcuRequestError>,
    ranked: Option<LcuRequestError>,
    matches: Option<LcuRequestError>,
) -> Seq<(LeagueDataSection, Seq<char>)> {
    section_warning(LeagueDataSection::Champions, "Champion names"@, champions) + section_warning(
        LeagueDataSection::Ranked,
        "Ranked data"@,
        ranked,
    ) + section_warning(LeagueDataSection::Matches, "Recent matches"@, matches)
}

/// The sections and messages of `warnings`, in order.
pub open spec fn warning_views(warnings: Seq<LeagueDataWarning>) -> Seq<(LeagueDataSection, Seq<char>)> {
    warnings.map_values(|w: LeagueDataWarning| (w.section, w.message@))
}

/// The client's data for the current summoner: every section that could not
/// be read leaves a warning and is shown empty, and the status tells whether
/// anything is missing.
pub fn compose_self_data(
    summoner: &LcuSummoner,
    champion_names_result: Result<Vec<LcuChampionSummary>, LcuRequestError>,
    ranked_result: Result<LcuRankedStats, LcuRequestError>,
    matches_result: Result<LcuMatchHistoryResponse, LcuRequestError>,
) -> (r: LeagueSelfData)
    ensures
        warning_views(r.data_warnings@) == self_data_warnings(
            read_error(champion_names_result),
            read_error(ranked_result),
            read_error(matches_result),
        ),
        r.data_warnings@.len() == (if champion_names_result is Err { 1int } else { 0 }) + (
        if ranked_result is Err { 1int } else { 0 }) + (if matches_result is Err { 1int } else { 0 }),
        r.data_warnings@.len() == 0 ==> is_status(
            r.status,
            true,
            true,
            crate::domain::LeagueClientConnection::Connected,
            crate::domain::LeagueClientPhase::Connected,
            None,
        ),
        r.data_warnings@.len() > 0 ==> is_status(
            r.status,
            true,
            true,
            crate::domain::LeagueClientConnection::Connected,
            crate::domain::LeagueClientPhase::PartialData,
            Some("League Client connected with partial data"@),
        ),
        r.summoner matches Some(p) && p.display_name@ == summoner.spec_display_name()
            && p.summoner_level == match summoner.summoner_level {
            Some(l) => l,
            None => 0,
        } && p.profile_icon_id == summoner.profile_icon_id,
        ranked_result is Err ==> r.ranked_queues@.len() == 0,
        ranked_result matches Ok(stats) ==> r.ranked_queues@.len() == typed_queues(
            stats.queues@,
        ).len() && forall|i: int|
            0 <= i < r.ranked_queues@.len() ==> is_queue_summary(
                #[trigger] r.ranked_queues@[i],
                typed_queues(stats.queues@)[i],
            ),
        matches_result is Err ==> r.recent_matches@.len() == 0,
        matches_result matches Ok(history) ==> r.recent_matches@.len() == recent_games(
            history_games(history),
            *summoner,
        ).len() && forall|i: int|
            0 <= i < r.recent_matches@.len() ==> is_recent_match(
                #[trigger] r.recent_matches@[i],
                recent_games(history_games(history), *summoner)[i],
                *summoner,
                match champion_names_result {
                    Ok(champions) => named_champions(champions@),
                    Err(_) => Seq::empty(),
                },
            ),
{
    let mut warnings: Vec<LeagueDataWarning> = Vec::new();
    let champion_names = match champion_names_result {
        Ok(champions) => champion_name_map(champions),
        Err(error) => {
            warnings.push(
                data_warning(
                    LeagueDataSection::Champions,
                    section_error_message("Champion names", error),
                ),
            );
            Vec::new()
        },
    };
    let ranked_queues = match &ranked_result {
        Ok(stats) => map_ranked_queues(stats),
        Err(error) => {
            warnings.push(
                data_warning(LeagueDataSection::Ranked, section_error_message("Ranked data", *error)),
            );
            Vec::new()
        },
    };
    let recent_matches = match &matches_result {
        Ok(history) => map_recent_matches(history, summoner, &champion_names),
        Err(error) => {
            warnings.push(
                data_warning(
                    LeagueDataSection::Matches,
                    section_error_message("Recent matches", *error),
                ),
            );
            Vec::new()
        },
    };
    let status = if warnings.len() == 0 {
        connected_status()
    } else {
        partial_data_status()
    };
    LeagueSelfData {
        status,
        summoner: Some(summoner.profile()),
        ranked_queues,
        recent_matches,
        data_warnings: warnings,
    }
}


// ---------------------------------------------------------------------------
// Copies

pub fn clone_recent_match(m: &RecentMatchSummary) -> (r: RecentMatchSummary)
    ensures
        r == *m,
{
    RecentMatchSummary {
        game_id: m.game_id,
        champion_id: m.champion_id,
        champion_name: m.champion_name.clone(),
        queue_name: clone_opt_string(&m.queue_name),
        result: m.result,
        kills: m.kills,
        deaths: m.deaths,
        assists: m.assists,
        kda: m.kda,
        played_at: clone_opt_string(&m.played_at),
        game_duration_seconds: m.game_duration_seconds,
    }
}

pub fn clone_recent_matches(v: &Vec<RecentMatchSummary>) -> (r: Vec<RecentMatchSummary>)
    ensures
        r@ == v@,
{
    let mut out: Vec<RecentMatchSummary> = Vec::new();
    let mut i: usize = 0;
    while i < v.len()
        invariant
            i <= v@.len(),
            out@ == v@.take(i as int),
        decreases v@.len() - i,
    {
        out.push(clone_recent_match(&v[i]));
        proof {
            assert(v@.take(i + 1) == v@.take(i as int).push(v@[i as int]));
        }
        i = i + 1;
    }
    proof {
        assert(v@.take(v@.len() as int) == v@);
    }
    out
}

/// Two recent-statistics blocks hold the same values.
pub open spec fn same_recent_stats(a: ParticipantRecentStats, b: ParticipantRecentStats) -> bool {
    &&& a.match_count == b.match_count
    &&& a.average_kda == b.average_kda
    &&& a.recent_champions@ == b.recent_champions@
    &&& a.recent_matches@ == b.recent_matches@
}

pub fn clone_recent_stats(s: &ParticipantRecentStats) -> (r: ParticipantRecentStats)
    ensures
        same_recent_stats(r, *s),
{
    ParticipantRecentStats {
        match_count: s.match_count,
        average_kda: s.average_kda,
        recent_champions: crate::application::clone_strings(&s.recent_champions),
        recent_matches: clone_recent_matches(&s.recent_matches),
    }
}

} // verus!

verus! {

/// The data shown when the client could not be read: its status, nothing
/// else.
pub fn empty_self_data(status: LeagueClientStatus) -> (r: LeagueSelfData)
    ensures
        r.status == status,
        r.summoner is None,
        r.ranked_queues@.len() == 0,
        r.recent_matches@.len() == 0,
        r.data_warnings@.len() == 0,
{
    LeagueSelfData {
        status,
        summoner: None,
        ranked_queues: Vec::new(),
        recent_matches: Vec::new(),
        data_warnings: Vec::new(),
    }
}

} // verus!
