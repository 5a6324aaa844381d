//! After a match: every participant with a score, grouped by team, with the
//! leaders of each metric and the notes kept on the players.

use vstd::prelude::*;

use crate::domain::{
    ClearPlayerNoteResult, ParticipantPublicProfile, ParticipantRecentStats, PlayerNoteView,
    LeagueDataSection, LeagueDataWarning, MatchResult, PostMatchDetail, ParticipantMetricLeader, PlayerNoteSummary, PostMatchComparison,
    PostMatchParticipant, PostMatchTeam, PostMatchTeamTotals,
};
use crate::constants::DEFAULT_PUBLIC_RECENT_LIMIT;
use crate::errors::{validation_err, ApplicationError, LeagueClientReadError};
use crate::reader::{client_result, is_client_error, LeagueClientReader};
use crate::validation::{
    game_and_participant_error, game_id_message, match_limit_message, normalize_match_limit,
    valid_match_limit, validate_game_and_participant_ids, validate_game_id,
};
use crate::application::{
    clear_player_note_for_resolved_player, clone_strings, is_note_view, is_storage_error,
    note_clear_outcome, note_save_outcome, plain_storage_result, save_note_error, player_note_summary, player_note_view,
    save_player_note_for_resolved_player, AppStore, ClearPlayerNoteInput,
    ParticipantPublicProfileInput, PostMatchDetailInput, SavePlayerNoteInput, StoredPlayerNote,
};
use crate::ranked::clone_opt_string;
use crate::champ_select::{insert_id_sorted, lemma_push_contains, strictly_increasing};

verus! {

/// A finished match as the client reports it.
#[derive(Debug, Clone, PartialEq, Eq)]
pub struct LeagueCompletedMatch {
    pub game_id: i64,
    pub queue_name: Option<String>,
    pub played_at: Option<String>,
    pub game_duration_seconds: Option<i64>,
    pub result: MatchResult,
    pub participants: Vec<LeagueCompletedParticipant>,
}

#[derive(Debug, Clone, PartialEq, Eq)]
pub struct LeagueCompletedParticipant {
    pub participant_id: i64,
    pub team_id: i64,
    pub display_name: String,
    pub player_puuid: Option<String>,
    pub profile_icon_id: Option<i64>,
    pub champion_id: Option<i64>,
    pub champion_name: String,
    pub role: Option<String>,
    pub lane: Option<String>,
    pub result: MatchResult,
    pub kills: i64,
    pub deaths: i64,
    pub assists: i64,
    /// In tenths.
    pub kda: Option<i64>,
    pub cs: i64,
    pub gold_earned: i64,
    pub damage_to_champions: i64,
    pub vision_score: i64,
    pub items: Vec<i64>,
    pub runes: Vec<i64>,
    pub spells: Vec<i64>,
}

// ---------------------------------------------------------------------------
// Team sums

/// The metrics summed per team: kills, deaths, assists, gold, damage to
/// champions and vision score, by number.
pub open spec fn metric(p: PostMatchParticipant, m: int) -> int {
    if m == 0 {
        p.kills as int
    } else if m == 1 {
        p.deaths as int
    } else if m == 2 {
        p.assists as int
    } else if m == 3 {
        p.gold_earned as int
    } else if m == 4 {
        p.damage_to_champions as int
    } else {
        p.vision_score as int
    }
}

/// The sum of metric `m` over the participants of team `team`.
pub open spec fn team_sum(ps: Seq<PostMatchParticipant>, team: i64, m: int) -> int
    decreases ps.len(),
{
    if ps.len() == 0 {
        0
    } else {
        team_sum(ps.drop_last(), team, m) + if ps.last().team_id == team {
            metric(ps.last(), m)
        } else {
            0
        }
    }
}

/// Every running sum of a team's metric stays within `i64`: the sums can be
/// taken without overflow.
pub open spec fn team_sums_fit(ps: Seq<PostMatchParticipant>) -> bool {
    forall|i: int, team: i64, m: int|
        0 <= i <= ps.len() && 0 <= m < 6 ==> i64::MIN <= #[trigger] team_sum(ps.take(i), team, m)
            <= i64::MAX
}

pub open spec fn spec_team_totals(ps: Seq<PostMatchParticipant>, team: i64) -> PostMatchTeamTotals {
    PostMatchTeamTotals {
        kills: team_sum(ps, team, 0) as i64,
        deaths: team_sum(ps, team, 1) as i64,
        assists: team_sum(ps, team, 2) as i64,
        gold_earned: team_sum(ps, team, 3) as i64,
        damage_to_champions: team_sum(ps, team, 4) as i64,
        vision_score: team_sum(ps, team, 5) as i64,
    }
}

/// The totals of team `team` over `ps`.
pub fn team_totals(ps: &Vec<PostMatchParticipant>, team: i64) -> (r: PostMatchTeamTotals)
    requires
        team_sums_fit(ps@),
    ensures
        r == spec_team_totals(ps@, team),
{
    let mut totals = PostMatchTeamTotals {
        kills: 0,
        deaths: 0,
        assists: 0,
        gold_earned: 0,
        damage_to_champions: 0,
        vision_score: 0,
    };
    let mut i: usize = 0;
    proof {
        assert(ps@.take(0) == Seq::<PostMatchParticipant>::empty());
    }
    while i < ps.len()
        invariant
            i <= ps@.len(),
            team_sums_fit(ps@),
            totals == spec_team_totals(ps@.take(i as int), team),
        decreases ps@.len() - i,
    {
        let p = &ps[i];
        proof {
            assert(ps@.take(i + 1).drop_last() == ps@.take(i as int));
            assert(ps@.take(i + 1).last() == ps@[i as int]);
            assert(i64::MIN <= team_sum(ps@.take(i + 1), team, 0) <= i64::MAX);
            assert(i64::MIN <= team_sum(ps@.take(i + 1), team, 1) <= i64::MAX);
            assert(i64::MIN <= team_sum(ps@.take(i + 1), team, 2) <= i64::MAX);
            assert(i64::MIN <= team_sum(ps@.take(i + 1), team, 3) <= i64::MAX);
            assert(i64::MIN <= team_sum(ps@.take(i + 1), team, 4) <= i64::MAX);
            assert(i64::MIN <= team_sum(ps@.take(i + 1), team, 5) <= i64::MAX);
            assert(i64::MIN <= team_sum(ps@.take(i as int), team, 0) <= i64::MAX);
            assert(i64::MIN <= team_sum(ps@.take(i as int), team, 1) <= i64::MAX);
            assert(i64::MIN <= team_sum(ps@.take(i as int), team, 2) <= i64::MAX);
            assert(i64::MIN <= team_sum(ps@.take(i as int), team, 3) <= i64::MAX);
            assert(i64::MIN <= team_sum(ps@.take(i as int), team, 4) <= i64::MAX);
            assert(i64::MIN <= team_sum(ps@.take(i as int), team, 5) <= i64::MAX);
        }
        if p.team_id == team {
            totals = PostMatchTeamTotals {
                kills: totals.kills + p.kills,
                deaths: totals.deaths + p.deaths,
                assists: totals.assists + p.assists,
                gold_earned: totals.gold_earned + p.gold_earned,
                damage_to_champions: totals.damage_to_champions + p.damage_to_champions,
                vision_score: totals.vision_score + p.vision_score,
            };
        }
        i = i + 1;
    }
    proof {
        assert(ps@.take(ps@.len() as int) == ps@);
    }
    totals
}

// ---------------------------------------------------------------------------
// Performance score

/// `n / d` as a share in units of 10^-15, held within 0..=10^15 (for `d > 0`).
pub open spec fn share_scaled(n: int, d: int) -> int {
    if n <= 0 {
        0
    } else if n * 1_000_000_000_000_000 / d >= 1_000_000_000_000_000 {
        1_000_000_000_000_000
    } else {
        n * 1_000_000_000_000_000 / d
    }
}

pub open spec fn result_scaled(result: MatchResult) -> int {
    match result {
        MatchResult::Win => 1_000_000_000_000_000,
        MatchResult::Loss => 350_000_000_000_000,
        MatchResult::Unknown => 500_000_000_000_000,
    }
}

pub open spec fn kda_scaled_share(p: PostMatchParticipant) -> int {
    match p.kda {
        Some(t) => share_scaled(t as int, 120),
        None => share_scaled(p.kills + p.assists, 12 * (if p.deaths > 0 { p.deaths as int } else { 1 })),
    }
}

pub open spec fn participation_scaled(p: PostMatchParticipant, team_kills: int) -> int {
    if team_kills > 0 { share_scaled(p.kills + p.assists, team_kills) } else { 0 }
}

pub open spec fn damage_scaled(p: PostMatchParticipant, team_damage: int) -> int {
    if team_damage > 0 { share_scaled(p.damage_to_champions * 100, team_damage * 35) } else { 0 }
}

pub open spec fn gold_scaled(p: PostMatchParticipant, team_gold: int) -> int {
    if team_gold > 0 { share_scaled(p.gold_earned * 100, team_gold * 28) } else { 0 }
}

pub open spec fn cs_scaled(p: PostMatchParticipant, duration: Option<i64>) -> int {
    match duration {
        Some(s) => if s > 0 { share_scaled(p.cs * 60, s * 10) } else { 0 },
        None => 0,
    }
}

pub open spec fn vision_scaled(p: PostMatchParticipant, duration: Option<i64>) -> int {
    match duration {
        Some(s) => if s > 0 { share_scaled(p.vision_score * 60, s * 2) } else { 0 },
        None => 0,
    }
}

/// The weighted sum of a participant's shares, in units of 10^-17: KDA
/// (capped at 12) weighs 25, kill participation 20, damage share (capped at
/// 35%) 15, gold share (capped at 28%) 10, CS per minute (capped at 10) 10,
/// vision per minute (capped at 2) 10 and the result 10.
pub open spec fn weighted_scaled(
    p: PostMatchParticipant,
    team_kills: int,
    team_damage: int,
    team_gold: int,
    duration: Option<i64>,
) -> int {
    25 * kda_scaled_share(p) + 20 * participation_scaled(p, team_kills) + 15 * damage_scaled(
        p,
        team_damage,
    ) + 10 * gold_scaled(p, team_gold) + 10 * cs_scaled(p, duration) + 10 * vision_scaled(
        p,
        duration,
    ) + 10 * result_scaled(p.result)
}

/// The performance score in tenths: `1 + 9 * weighted`, rounded to a tenth,
/// so from 1.0 to 10.0.
pub open spec fn spec_performance_score(
    p: PostMatchParticipant,
    team_kills: int,
    team_damage: int,
    team_gold: int,
    duration: Option<i64>,
) -> i64 {
    let w = weighted_scaled(p, team_kills, team_damage, team_gold, duration);
    ((2 * (1_000_000_000_000_000_000 + 90 * w) + 100_000_000_000_000_000) / 200_000_000_000_000_000) as i64
}

/// `term` is the share `n / d` in units of 10^-15, held within 0 and 1: full
/// once `n` reaches `d`, none when `n` is not positive, and otherwise `n /
/// d` rounded down.
pub open spec fn is_capped_share(term: int, n: int, d: int) -> bool {
    &&& n >= d ==> term == 1_000_000_000_000_000
    &&& n <= 0 ==> term == 0
    &&& 0 < n < d ==> {
        &&& 0 <= term < 1_000_000_000_000_000
        &&& term * d <= n * 1_000_000_000_000_000
        &&& n * 1_000_000_000_000_000 < (term + 1) * d
    }
}

proof fn lemma_share_scaled_is_capped(n: int, d: int)
    requires
        d > 0,
    ensures
        is_capped_share(share_scaled(n, d), n, d),
        0 <= share_scaled(n, d) <= 1_000_000_000_000_000,
{
    let s: int = 1_000_000_000_000_000;
    if n >= d {
        assert(n * s / d >= s) by (nonlinear_arith)
            requires
                n >= d,
                d > 0,
                s > 0,
        ;
    } else if n > 0 {
        assert(n * s / d < s) by (nonlinear_arith)
            requires
                0 < n < d,
                s > 0,
        ;
        assert(n * s / d >= 0) by (nonlinear_arith)
            requires
                0 < n,
                d > 0,
                s > 0,
        ;
        let q = n * s / d;
        assert(q * d <= n * s && n * s < (q + 1) * d) by (nonlinear_arith)
            requires
                q == n * s / d,
                d > 0,
        ;
    }
}

/// Each term of the performance score is its own share of the participant's
/// statistics: the KDA (given, in tenths, or `(kills + assists) / deaths`)
/// against 12, kill participation `(kills + assists)` against the team's
/// kills, damage against 35% of the team's damage, gold against 28% of the
/// team's gold, CS per minute against 10 and vision per minute against 2
/// (none without a positive game length), and the result as 1 for a win,
/// 0.35 for a loss and 0.5 otherwise. The score weighs them 25, 20, 15, 10,
/// 10, 10 and 10 (out of 100) and is `1 + 9 * weighted`, in tenths, rounded
/// to the nearest.
pub proof fn lemma_performance_score_terms(
    p: PostMatchParticipant,
    team_kills: int,
    team_damage: int,
    team_gold: int,
    duration: Option<i64>,
)
    ensures
        p.kda matches Some(t) ==> is_capped_share(kda_scaled_share(p), t as int, 120),
        p.kda is None ==> is_capped_share(
            kda_scaled_share(p),
            p.kills + p.assists,
            12 * (if p.deaths > 0 { p.deaths as int } else { 1 }),
        ),
        team_kills > 0 ==> is_capped_share(
            participation_scaled(p, team_kills),
            p.kills + p.assists,
            team_kills,
        ),
        team_kills <= 0 ==> participation_scaled(p, team_kills) == 0,
        team_damage > 0 ==> is_capped_share(
            damage_scaled(p, team_damage),
            p.damage_to_champions * 100,
            team_damage * 35,
        ),
        team_damage <= 0 ==> damage_scaled(p, team_damage) == 0,
        team_gold > 0 ==> is_capped_share(
            gold_scaled(p, team_gold),
            p.gold_earned * 100,
            team_gold * 28,
        ),
        team_gold <= 0 ==> gold_scaled(p, team_gold) == 0,
        duration is Some && duration->0 > 0 ==> is_capped_share(
            cs_scaled(p, duration),
            p.cs * 60,
            duration->0 * 10,
        ) && is_capped_share(vision_scaled(p, duration), p.vision_score * 60, duration->0 * 2),
        !(duration is Some && duration->0 > 0) ==> cs_scaled(p, duration) == 0 && vision_scaled(
            p,
            duration,
        ) == 0,
        p.result == MatchResult::Win ==> result_scaled(p.result) == 1_000_000_000_000_000,
        p.result == MatchResult::Loss ==> result_scaled(p.result) == 350_000_000_000_000,
        p.result == MatchResult::Unknown ==> result_scaled(p.result) == 500_000_000_000_000,
        ({
            let w = 25 * kda_scaled_share(p) + 20 * participation_scaled(p, team_kills) + 15
                * damage_scaled(p, team_damage) + 10 * gold_scaled(p, team_gold) + 10 * cs_scaled(
                p,
                duration,
            ) + 10 * vision_scaled(p, duration) + 10 * result_scaled(p.result);
            let score = spec_performance_score(p, team_kills, team_damage, team_gold, duration)
                as int;
            &&& -100_000_000_000_000_000 < 2 * (score * 100_000_000_000_000_000 - (
            1_000_000_000_000_000_000 + 90 * w))
            &&& 2 * (score * 100_000_000_000_000_000 - (1_000_000_000_000_000_000 + 90 * w))
                <= 100_000_000_000_000_000
            &&& 10 <= score <= 100
        }),
{
    let d: int = if p.deaths > 0 { p.deaths as int } else { 1 };
    match p.kda {
        Some(t) => lemma_share_scaled_is_capped(t as int, 120),
        None => lemma_share_scaled_is_capped(p.kills + p.assists, 12 * d),
    }
    if team_kills > 0 {
        lemma_share_scaled_is_capped(p.kills + p.assists, team_kills);
    }
    if team_damage > 0 {
        lemma_share_scaled_is_capped(p.damage_to_champions * 100, team_damage * 35);
    }
    if team_gold > 0 {
        lemma_share_scaled_is_capped(p.gold_earned * 100, team_gold * 28);
    }
    if let Some(secs) = duration {
        if secs > 0 {
            lemma_share_scaled_is_capped(p.cs * 60, secs * 10);
            lemma_share_scaled_is_capped(p.vision_score * 60, secs * 2);
        }
    }
    let w = weighted_scaled(p, team_kills, team_damage, team_gold, duration);
    assert(0 <= w <= 100_000_000_000_000_000);
    let n = 1_000_000_000_000_000_000 + 90 * w;
    let score = (2 * n + 100_000_000_000_000_000) / 200_000_000_000_000_000;
    assert(score * 200_000_000_000_000_000 <= 2 * n + 100_000_000_000_000_000 < (score + 1)
        * 200_000_000_000_000_000) by (nonlinear_arith)
        requires
            score == (2 * n + 100_000_000_000_000_000) / 200_000_000_000_000_000,
    ;
    assert(10 <= score <= 100);
}

/// A participant's kill participation counts its kills and its assists
/// against its team's kills: it is full once they reach the team's kills,
/// none without any, and otherwise `(kills + assists) / team kills` in units
/// of 10^-15, rounded down.
pub proof fn lemma_kill_participation_counts_assists(p: PostMatchParticipant, team_kills: int)
    requires
        team_kills > 0,
    ensures
        p.kills + p.assists >= team_kills ==> participation_scaled(p, team_kills)
            == 1_000_000_000_000_000,
        p.kills + p.assists <= 0 ==> participation_scaled(p, team_kills) == 0,
        0 < p.kills + p.assists < team_kills ==> {
            &&& participation_scaled(p, team_kills) * team_kills <= (p.kills + p.assists)
                * 1_000_000_000_000_000
            &&& (p.kills + p.assists) * 1_000_000_000_000_000 < (participation_scaled(p, team_kills)
                + 1) * team_kills
        },
{
    let n = p.kills + p.assists;
    let s: int = 1_000_000_000_000_000;
    if n >= team_kills {
        assert(n * s / team_kills >= s) by (nonlinear_arith)
            requires
                n >= team_kills,
                team_kills > 0,
                s > 0,
        ;
    } else if n > 0 {
        assert(n * s / team_kills < s) by (nonlinear_arith)
            requires
                0 < n < team_kills,
                s > 0,
        ;
        let q = n * s / team_kills;
        assert(q * team_kills <= n * s && n * s < (q + 1) * team_kills) by (nonlinear_arith)
            requires
                q == n * s / team_kills,
                team_kills > 0,
        ;
    }
}

fn share_scaled_exec(n: i128, d: i128) -> (r: i128)
    requires
        d > 0,
        -0x40_0000_0000_0000_0000 <= n <= 0x40_0000_0000_0000_0000,
    ensures
        r == share_scaled(n as int, d as int),
        0 <= r <= 1_000_000_000_000_000,
{
    if n <= 0 {
        return 0;
    }
    assert(n * 1_000_000_000_000_000 <= 0x40_0000_0000_0000_0000 * 1_000_000_000_000_000) by (nonlinear_arith)
        requires
            0 < n <= 0x40_0000_0000_0000_0000,
    ;
    let q = n * 1_000_000_000_000_000 / d;
    if q >= 1_000_000_000_000_000 {
        1_000_000_000_000_000
    } else {
        q
    }
}

fn kda_share_exec(p: &PostMatchParticipant) -> (r: i128)
    ensures
        r == kda_scaled_share(*p),
        0 <= r <= 1_000_000_000_000_000,
{
    match p.kda {
        Some(t) => share_scaled_exec(t as i128, 120),
        None => {
            let d: i128 = if p.deaths > 0 {
                p.deaths as i128
            } else {
                1
            };
            share_scaled_exec(p.kills as i128 + p.assists as i128, 12 * d)
        },
    }
}

fn team_shares_exec(p: &PostMatchParticipant, team_kills: i64, team_damage: i64, team_gold: i64) -> (r: (
    i128,
    i128,
    i128,
))
    ensures
        r.0 == participation_scaled(*p, team_kills as int),
        r.1 == damage_scaled(*p, team_damage as int),
        r.2 == gold_scaled(*p, team_gold as int),
        0 <= r.0 <= 1_000_000_000_000_000,
        0 <= r.1 <= 1_000_000_000_000_000,
        0 <= r.2 <= 1_000_000_000_000_000,
{
    let participation: i128 = if team_kills > 0 {
        share_scaled_exec(p.kills as i128 + p.assists as i128, team_kills as i128)
    } else {
        0
    };
    let damage: i128 = if team_damage > 0 {
        share_scaled_exec(p.damage_to_champions as i128 * 100, team_damage as i128 * 35)
    } else {
        0
    };
    let gold: i128 = if team_gold > 0 {
        share_scaled_exec(p.gold_earned as i128 * 100, team_gold as i128 * 28)
    } else {
        0
    };
    (participation, damage, gold)
}

fn pace_shares_exec(p: &PostMatchParticipant, game_duration_seconds: Option<i64>) -> (r: (i128, i128))
    ensures
        r.0 == cs_scaled(*p, game_duration_seconds),
        r.1 == vision_scaled(*p, game_duration_seconds),
        0 <= r.0 <= 1_000_000_000_000_000,
        0 <= r.1 <= 1_000_000_000_000_000,
{
    match game_duration_seconds {
        Some(s) => if s > 0 {
            (
                share_scaled_exec(p.cs as i128 * 60, s as i128 * 10),
                share_scaled_exec(p.vision_score as i128 * 60, s as i128 * 2),
            )
        } else {
            (0, 0)
        },
        None => (0, 0),
    }
}

/// The performance score of `p`, in tenths, given its team's kills, damage
/// and gold and the game's length in seconds.
pub fn participant_performance_score(
    p: &PostMatchParticipant,
    team_kills: i64,
    team_damage: i64,
    team_gold: i64,
    game_duration_seconds: Option<i64>,
) -> (r: i64)
    ensures
        r == spec_performance_score(
            *p,
            team_kills as int,
            team_damage as int,
            team_gold as int,
            game_duration_seconds,
        ),
        10 <= r <= 100,
{
    let kda = kda_share_exec(p);
    let (participation, damage, gold) = team_shares_exec(p, team_kills, team_damage, team_gold);
    let (cs, vision) = pace_shares_exec(p, game_duration_seconds);
    let result: i128 = match p.result {
        MatchResult::Win => 1_000_000_000_000_000,
        MatchResult::Loss => 350_000_000_000_000,
        MatchResult::Unknown => 500_000_000_000_000,
    };
    let w: i128 = 25 * kda + 20 * participation + 15 * damage + 10 * gold + 10 * cs + 10 * vision
        + 10 * result;
    assert(w == weighted_scaled(*p, team_kills as int, team_damage as int, team_gold as int, game_duration_seconds));
    assert(0 <= w <= 100_000_000_000_000_000);
    let n: i128 = 1_000_000_000_000_000_000 + 90 * w;
    let score: i128 = (2 * n + 100_000_000_000_000_000) / 200_000_000_000_000_000;
    assert(10 <= score <= 100);
    score as i64
}

/// The participants with their performance scores, each against its own
/// team's kills, damage and gold.
pub open spec fn is_scored(
    r: Seq<PostMatchParticipant>,
    ps: Seq<PostMatchParticipant>,
    duration: Option<i64>,
) -> bool {
    &&& r.len() == ps.len()
    &&& forall|i: int|
        0 <= i < r.len() ==> (#[trigger] r[i]) == (PostMatchParticipant {
            performance_score: spec_performance_score(
                ps[i],
                team_sum(ps, ps[i].team_id, 0),
                team_sum(ps, ps[i].team_id, 4),
                team_sum(ps, ps[i].team_id, 3),
                duration,
            ),
            ..ps[i]
        })
}

/// Gives every participant its performance score.
pub fn score_post_match_participants(
    ps: Vec<PostMatchParticipant>,
    game_duration_seconds: Option<i64>,
) -> (r: Vec<PostMatchParticipant>)
    requires
        team_sums_fit(ps@),
    ensures
        is_scored(r@, ps@, game_duration_seconds),
{
    let mut scores: Vec<i64> = Vec::new();
    let mut i: usize = 0;
    while i < ps.len()
        invariant
            team_sums_fit(ps@),
            i <= ps@.len(),
            scores@.len() == i,
            forall|k: int|
                0 <= k < i ==> #[trigger] scores@[k] == spec_performance_score(
                    ps@[k],
                    team_sum(ps@, ps@[k].team_id, 0),
                    team_sum(ps@, ps@[k].team_id, 4),
                    team_sum(ps@, ps@[k].team_id, 3),
                    game_duration_seconds,
                ),
        decreases ps@.len() - i,
    {
        let totals = team_totals(&ps, ps[i].team_id);
        proof {
            let t = ps@[i as int].team_id;
            assert(ps@.take(ps@.len() as int) == ps@);
            assert(i64::MIN <= team_sum(ps@.take(ps@.len() as int), t, 0) <= i64::MAX);
            assert(i64::MIN <= team_sum(ps@.take(ps@.len() as int), t, 3) <= i64::MAX);
            assert(i64::MIN <= team_sum(ps@.take(ps@.len() as int), t, 4) <= i64::MAX);
        }
        let score = participant_performance_score(
            &ps[i],
            totals.kills,
            totals.damage_to_champions,
            totals.gold_earned,
            game_duration_seconds,
        );
        scores.push(score);
        i = i + 1;
    }
    let ghost orig = ps@;
    let mut ps = ps;
    let mut i: usize = 0;
    while i < ps.len()
        invariant
            ps@.len() == orig.len(),
            scores@.len() == orig.len(),
            i <= ps@.len(),
            forall|k: int| i <= k < ps@.len() ==> #[trigger] ps@[k] == orig[k],
            forall|k: int|
                0 <= k < i ==> (#[trigger] ps@[k]) == (PostMatchParticipant {
                    performance_score: scores@[k],
                    ..orig[k]
                }),
        decreases ps@.len() - i,
    {
        ps[i].performance_score = scores[i];
        i = i + 1;
    }
    ps
}

// ---------------------------------------------------------------------------
// Copies

pub fn clone_i64s(v: &Vec<i64>) -> (r: Vec<i64>)
    ensures
        r@ == v@,
{
    let mut out: Vec<i64> = Vec::new();
    let mut i: usize = 0;
    while i < v.len()
        invariant
            i <= v@.len(),
            out@ == v@.take(i as int),
        decreases v@.len() - i,
    {
        out.push(v[i]);
        proof {
            assert(v@.take(i + 1) == v@.take(i as int).push(v@[i as int]));
        }
        i = i + 1;
    }
    proof {
        assert(v@.take(v@.len() as int) == v@);
    }
    out
}

/// Two participants hold the same values.
pub open spec fn same_participant(a: PostMatchParticipant, b: PostMatchParticipant) -> bool {
    &&& a.participant_id == b.participant_id
    &&& a.team_id == b.team_id
    &&& a.display_name == b.display_name
    &&& a.champion_id == b.champion_id
    &&& a.champion_name == b.champion_name
    &&& a.role == b.role
    &&& a.lane == b.lane
    &&& a.profile_icon_id == b.profile_icon_id
    &&& a.result == b.result
    &&& a.kills == b.kills
    &&& a.deaths == b.deaths
    &&& a.assists == b.assists
    &&& a.kda == b.kda
    &&& a.performance_score == b.performance_score
    &&& a.cs == b.cs
    &&& a.gold_earned == b.gold_earned
    &&& a.damage_to_champions == b.damage_to_champions
    &&& a.vision_score == b.vision_score
    &&& a.items@ == b.items@
    &&& a.runes@ == b.runes@
    &&& a.spells@ == b.spells@
    &&& a.note_summary.has_note == b.note_summary.has_note
    &&& a.note_summary.tags@ == b.note_summary.tags@
}

pub fn clone_participant(p: &PostMatchParticipant) -> (r: PostMatchParticipant)
    ensures
        same_participant(r, *p),
{
    PostMatchParticipant {
        participant_id: p.participant_id,
        team_id: p.team_id,
        display_name: p.display_name.clone(),
        champion_id: p.champion_id,
        champion_name: p.champion_name.clone(),
        role: clone_opt_string(&p.role),
        lane: clone_opt_string(&p.lane),
        profile_icon_id: p.profile_icon_id,
        result: p.result,
        kills: p.kills,
        deaths: p.deaths,
        assists: p.assists,
        kda: p.kda,
        performance_score: p.performance_score,
        cs: p.cs,
        gold_earned: p.gold_earned,
        damage_to_champions: p.damage_to_champions,
        vision_score: p.vision_score,
        items: clone_i64s(&p.items),
        runes: clone_i64s(&p.runes),
        spells: clone_i64s(&p.spells),
        note_summary: PlayerNoteSummary {
            has_note: p.note_summary.has_note,
            tags: clone_strings(&p.note_summary.tags),
        },
    }
}

// ---------------------------------------------------------------------------
// Teams

/// The participants of team `team`, in order.
pub open spec fn team_members(ps: Seq<PostMatchParticipant>, team: i64) -> Seq<PostMatchParticipant>
    decreases ps.len(),
{
    if ps.len() == 0 {
        Seq::empty()
    } else if ps.last().team_id == team {
        team_members(ps.drop_last(), team).push(ps.last())
    } else {
        team_members(ps.drop_last(), team)
    }
}

/// `t` is team `team` of `ps`: its members in order, the first member's
/// result, and its totals.
pub open spec fn is_team_of(t: PostMatchTeam, ps: Seq<PostMatchParticipant>, team: i64) -> bool {
    let members = team_members(ps, team);
    &&& t.team_id == team
    &&& t.result == (if members.len() > 0 { members[0].result } else { MatchResult::Unknown })
    &&& t.participants@.len() == members.len()
    &&& forall|i: int|
        0 <= i < members.len() ==> same_participant(#[trigger] t.participants@[i], members[i])
    &&& t.totals == spec_team_totals(ps, team)
}

pub open spec fn has_team(ps: Seq<PostMatchParticipant>, team: i64) -> bool {
    exists|j: int| 0 <= j < ps.len() && (#[trigger] ps[j]).team_id == team
}

/// `teams` lists the teams of `ps`, by ascending team id, each once.
pub open spec fn are_teams_of(teams: Seq<PostMatchTeam>, ps: Seq<PostMatchParticipant>) -> bool {
    &&& forall|i: int, j: int| 0 <= i < j < teams.len() ==> (#[trigger] teams[i]).team_id < (#[trigger] teams[j]).team_id
    &&& forall|x: i64| has_team(ps, x) <==> exists|k: int| 0 <= k < teams.len() && (#[trigger] teams[k]).team_id == x
    &&& forall|k: int| 0 <= k < teams.len() ==> is_team_of(#[trigger] teams[k], ps, teams[k].team_id)
}

/// The number of players over the teams `teams`.
pub open spec fn players_in_teams(teams: Seq<PostMatchTeam>) -> int
    decreases teams.len(),
{
    if teams.len() == 0 {
        0
    } else {
        players_in_teams(teams.drop_last()) + teams.last().participants@.len()
    }
}

/// The number of members of `ps` over the team ids of `teams`.
spec fn members_in_teams(ps: Seq<PostMatchParticipant>, teams: Seq<PostMatchTeam>) -> int
    decreases teams.len(),
{
    if teams.len() == 0 {
        0
    } else {
        members_in_teams(ps, teams.drop_last()) + team_members(ps, teams.last().team_id).len()
    }
}

/// How many of `teams` have team id `x`.
spec fn teams_with_id(teams: Seq<PostMatchTeam>, x: i64) -> int
    decreases teams.len(),
{
    if teams.len() == 0 {
        0
    } else {
        teams_with_id(teams.drop_last(), x) + if teams.last().team_id == x { 1int } else { 0 }
    }
}

proof fn lemma_members_in_no_players(ps: Seq<PostMatchParticipant>, teams: Seq<PostMatchTeam>)
    requires
        ps.len() == 0,
    ensures
        members_in_teams(ps, teams) == 0,
    decreases teams.len(),
{
    if teams.len() > 0 {
        lemma_members_in_no_players(ps, teams.drop_last());
    }
}

proof fn lemma_members_in_step(ps: Seq<PostMatchParticipant>, teams: Seq<PostMatchTeam>)
    requires
        ps.len() > 0,
    ensures
        members_in_teams(ps, teams) == members_in_teams(ps.drop_last(), teams) + teams_with_id(
            teams,
            ps.last().team_id,
        ),
    decreases teams.len(),
{
    if teams.len() > 0 {
        lemma_members_in_step(ps, teams.drop_last());
    }
}

proof fn lemma_teams_with_id(teams: Seq<PostMatchTeam>, x: i64)
    requires
        forall|i: int, j: int| 0 <= i < j < teams.len() ==> (#[trigger] teams[i]).team_id < (
        #[trigger] teams[j]).team_id,
    ensures
        (exists|k: int| 0 <= k < teams.len() && (#[trigger] teams[k]).team_id == x) ==> teams_with_id(
            teams,
            x,
        ) == 1,
        !(exists|k: int| 0 <= k < teams.len() && (#[trigger] teams[k]).team_id == x) ==> teams_with_id(
            teams,
            x,
        ) == 0,
    decreases teams.len(),
{
    if teams.len() > 0 {
        let rest = teams.drop_last();
        assert forall|i: int, j: int| 0 <= i < j < rest.len() implies (#[trigger] rest[i]).team_id < (
        #[trigger] rest[j]).team_id by {
            assert(rest[i] == teams[i] && rest[j] == teams[j]);
        }
        lemma_teams_with_id(rest, x);
        if teams.last().team_id == x {
            if exists|k: int| 0 <= k < rest.len() && (#[trigger] rest[k]).team_id == x {
                let k = choose|k: int| 0 <= k < rest.len() && (#[trigger] rest[k]).team_id == x;
                assert(teams[k].team_id < teams[teams.len() - 1].team_id);
            }
        } else {
            if exists|k: int| 0 <= k < teams.len() && (#[trigger] teams[k]).team_id == x {
                let k = choose|k: int| 0 <= k < teams.len() && (#[trigger] teams[k]).team_id == x;
                assert(rest[k].team_id == x);
            }
            if exists|k: int| 0 <= k < rest.len() && (#[trigger] rest[k]).team_id == x {
                let k = choose|k: int| 0 <= k < rest.len() && (#[trigger] rest[k]).team_id == x;
                assert(teams[k].team_id == x);
            }
        }
    }
}

proof fn lemma_members_cover(ps: Seq<PostMatchParticipant>, teams: Seq<PostMatchTeam>)
    requires
        forall|i: int, j: int| 0 <= i < j < teams.len() ==> (#[trigger] teams[i]).team_id < (
        #[trigger] teams[j]).team_id,
        forall|j: int|
            0 <= j < ps.len() ==> exists|k: int|
                0 <= k < teams.len() && (#[trigger] teams[k]).team_id == (#[trigger] ps[j]).team_id,
    ensures
        members_in_teams(ps, teams) == ps.len(),
    decreases ps.len(),
{
    if ps.len() == 0 {
        lemma_members_in_no_players(ps, teams);
    } else {
        let rest = ps.drop_last();
        assert forall|j: int| 0 <= j < rest.len() implies exists|k: int|
            0 <= k < teams.len() && (#[trigger] teams[k]).team_id == (#[trigger] rest[j]).team_id by {
            assert(rest[j] == ps[j]);
        }
        lemma_members_cover(rest, teams);
        lemma_members_in_step(ps, teams);
        assert(ps.last() == ps[ps.len() - 1]);
        lemma_teams_with_id(teams, ps.last().team_id);
    }
}

proof fn lemma_players_are_members(ps: Seq<PostMatchParticipant>, teams: Seq<PostMatchTeam>)
    requires
        forall|k: int| 0 <= k < teams.len() ==> is_team_of(#[trigger] teams[k], ps, teams[k].team_id),
    ensures
        players_in_teams(teams) == members_in_teams(ps, teams),
    decreases teams.len(),
{
    if teams.len() > 0 {
        let rest = teams.drop_last();
        assert forall|k: int| 0 <= k < rest.len() implies is_team_of(#[trigger] rest[k], ps, rest[k].team_id) by {
            assert(rest[k] == teams[k]);
        }
        lemma_players_are_members(ps, rest);
        assert(is_team_of(teams[teams.len() - 1], ps, teams[teams.len() - 1].team_id));
    }
}

/// The teams of a match hold every participant exactly as often as the
/// match does: their sizes add up to the number of participants.
pub proof fn lemma_teams_hold_every_participant(teams: Seq<PostMatchTeam>, ps: Seq<PostMatchParticipant>)
    requires
        are_teams_of(teams, ps),
    ensures
        players_in_teams(teams) == ps.len(),
{
    assert forall|j: int| 0 <= j < ps.len() implies exists|k: int|
        0 <= k < teams.len() && (#[trigger] teams[k]).team_id == (#[trigger] ps[j]).team_id by {
        assert(has_team(ps, ps[j].team_id));
    }
    lemma_members_cover(ps, teams);
    lemma_players_are_members(ps, teams);
}

fn team_of(ps: &Vec<PostMatchParticipant>, team: i64) -> (r: PostMatchTeam)
    requires
        team_sums_fit(ps@),
    ensures
        is_team_of(r, ps@, team),
{
    let mut members: Vec<PostMatchParticipant> = Vec::new();
    let mut i: usize = 0;
    proof {
        assert(ps@.take(0) == Seq::<PostMatchParticipant>::empty());
    }
    while i < ps.len()
        invariant
            i <= ps@.len(),
            members@.len() == team_members(ps@.take(i as int), team).len(),
            forall|k: int|
                0 <= k < members@.len() ==> same_participant(
                    #[trigger] members@[k],
                    team_members(ps@.take(i as int), team)[k],
                ),
        decreases ps@.len() - i,
    {
        proof {
            assert(ps@.take(i + 1).drop_last() == ps@.take(i as int));
            assert(ps@.take(i + 1).last() == ps@[i as int]);
        }
        if ps[i].team_id == team {
            members.push(clone_participant(&ps[i]));
        }
        i = i + 1;
    }
    proof {
        assert(ps@.take(ps@.len() as int) == ps@);
    }
    let result = if members.len() > 0 {
        members[0].result
    } else {
        MatchResult::Unknown
    };
    PostMatchTeam { team_id: team, result, participants: members, totals: team_totals(ps, team) }
}

/// The teams of the match, by ascending team id.
pub fn post_match_teams(ps: &Vec<PostMatchParticipant>) -> (r: Vec<PostMatchTeam>)
    requires
        team_sums_fit(ps@),
    ensures
        are_teams_of(r@, ps@),
{
    let mut ids: Vec<i64> = Vec::new();
    let mut i: usize = 0;
    while i < ps.len()
        invariant
            i <= ps@.len(),
            strictly_increasing(ids@),
            forall|x: i64| ids@.contains(x) <==> exists|j: int| 0 <= j < i && (#[trigger] ps@[j]).team_id == x,
        decreases ps@.len() - i,
    {
        insert_id_sorted(&mut ids, ps[i].team_id);
        proof {
            assert forall|x: i64| ids@.contains(x) <==> exists|j: int| 0 <= j < i + 1 && (#[trigger] ps@[j]).team_id == x by {
                if x == ps@[i as int].team_id {
                    assert(ps@[i as int].team_id == x);
                }
                if exists|j: int| 0 <= j < i + 1 && (#[trigger] ps@[j]).team_id == x {
                    let j = choose|j: int| 0 <= j < i + 1 && (#[trigger] ps@[j]).team_id == x;
                    if j < i {
                        assert(exists|j2: int| 0 <= j2 < i && (#[trigger] ps@[j2]).team_id == x);
                    }
                }
            }
        }
        i = i + 1;
    }
    let mut teams: Vec<PostMatchTeam> = Vec::new();
    let mut k: usize = 0;
    while k < ids.len()
        invariant
            team_sums_fit(ps@),
            k <= ids@.len(),
            teams@.len() == k,
            forall|q: int| 0 <= q < k ==> (#[trigger] teams@[q]).team_id == ids@[q],
            forall|q: int| 0 <= q < k ==> is_team_of(#[trigger] teams@[q], ps@, teams@[q].team_id),
        decreases ids@.len() - k,
    {
        teams.push(team_of(ps, ids[k]));
        k = k + 1;
    }
    proof {
        assert forall|x: i64| has_team(ps@, x) <==> exists|q: int| 0 <= q < teams@.len() && (#[trigger] teams@[q]).team_id == x by {
            if has_team(ps@, x) {
                assert(ids@.contains(x));
                let q = choose|q: int| 0 <= q < ids@.len() && ids@[q] == x;
                assert(teams@[q].team_id == x);
            }
            if exists|q: int| 0 <= q < teams@.len() && (#[trigger] teams@[q]).team_id == x {
                let q = choose|q: int| 0 <= q < teams@.len() && (#[trigger] teams@[q]).team_id == x;
                assert(ids@[q] == x);
                assert(ids@.contains(x));
            }
        }
    }
    teams
}

// ---------------------------------------------------------------------------
// Metric leaders

/// The compared metrics by number: KDA (none counts as zero), CS, gold,
/// damage to champions and vision score.
pub open spec fn leader_metric(p: PostMatchParticipant, m: int) -> i64 {
    if m == 0 {
        match p.kda {
            Some(k) => k,
            None => 0,
        }
    } else if m == 1 {
        p.cs
    } else if m == 2 {
        p.gold_earned
    } else if m == 3 {
        p.damage_to_champions
    } else {
        p.vision_score
    }
}

/// The position of the leader in metric `m`: the last participant holding
/// the highest value; none without participants.
pub open spec fn leader_index(ps: Seq<PostMatchParticipant>, m: int) -> Option<int>
    decreases ps.len(),
{
    if ps.len() == 0 {
        None
    } else {
        match leader_index(ps.drop_last(), m) {
            None => Some(ps.len() - 1),
            Some(k) => if leader_metric(ps.last(), m) >= leader_metric(ps[k], m) {
                Some(ps.len() - 1)
            } else {
                Some(k)
            },
        }
    }
}

pub open spec fn is_leader_of(
    r: Option<ParticipantMetricLeader>,
    ps: Seq<PostMatchParticipant>,
    m: int,
) -> bool {
    match leader_index(ps, m) {
        None => r is None,
        Some(k) => r matches Some(l) && l.participant_id == ps[k].participant_id
            && l.display_name == ps[k].display_name && l.value == leader_metric(ps[k], m),
    }
}

proof fn lemma_leader_in_range(ps: Seq<PostMatchParticipant>, m: int)
    ensures
        match leader_index(ps, m) {
            None => ps.len() == 0,
            Some(k) => 0 <= k < ps.len(),
        },
    decreases ps.len(),
{
    if ps.len() > 0 {
        lemma_leader_in_range(ps.drop_last(), m);
    }
}

fn leader_metric_exec(p: &PostMatchParticipant, m: u8) -> (r: i64)
    requires
        m < 5,
    ensures
        r == leader_metric(*p, m as int),
{
    if m == 0 {
        match p.kda {
            Some(k) => k,
            None => 0,
        }
    } else if m == 1 {
        p.cs
    } else if m == 2 {
        p.gold_earned
    } else if m == 3 {
        p.damage_to_champions
    } else {
        p.vision_score
    }
}

pub fn metric_leader(ps: &Vec<PostMatchParticipant>, m: u8) -> (r: Option<ParticipantMetricLeader>)
    requires
        m < 5,
    ensures
        is_leader_of(r, ps@, m as int),
{
    let mut best: Option<usize> = None;
    let mut i: usize = 0;
    proof {
        assert(ps@.take(0) == Seq::<PostMatchParticipant>::empty());
    }
    while i < ps.len()
        invariant
            m < 5,
            i <= ps@.len(),
            match best {
                None => leader_index(ps@.take(i as int), m as int) is None,
                Some(k) => k < i && leader_index(ps@.take(i as int), m as int) == Some(k as int),
            },
        decreases ps@.len() - i,
    {
        proof {
            assert(ps@.take(i + 1).drop_last() == ps@.take(i as int));
            assert(ps@.take(i + 1).last() == ps@[i as int]);
        }
        match best {
            None => {
                best = Some(i);
            },
            Some(k) => {
                proof {
                    assert(ps@.take(i + 1)[k as int] == ps@[k as int]);
                }
                if leader_metric_exec(&ps[i], m) >= leader_metric_exec(&ps[k], m) {
                    best = Some(i);
                }
            },
        }
        i = i + 1;
    }
    proof {
        assert(ps@.take(ps@.len() as int) == ps@);
    }
    match best {
        None => None,
        Some(k) => Some(
            ParticipantMetricLeader {
                participant_id: ps[k].participant_id,
                display_name: ps[k].display_name.clone(),
                value: leader_metric_exec(&ps[k], m),
            },
        ),
    }
}

pub open spec fn is_comparison_of(c: PostMatchComparison, ps: Seq<PostMatchParticipant>) -> bool {
    &&& is_leader_of(c.highest_kda, ps, 0)
    &&& is_leader_of(c.most_cs, ps, 1)
    &&& is_leader_of(c.most_gold, ps, 2)
    &&& is_leader_of(c.most_damage, ps, 3)
    &&& is_leader_of(c.highest_vision, ps, 4)
}

/// The leaders in KDA, CS, gold, damage and vision.
pub fn post_match_comparison(ps: &Vec<PostMatchParticipant>) -> (r: PostMatchComparison)
    ensures
        is_comparison_of(r, ps@),
{
    PostMatchComparison {
        highest_kda: metric_leader(ps, 0),
        most_cs: metric_leader(ps, 1),
        most_gold: metric_leader(ps, 2),
        most_damage: metric_leader(ps, 3),
        highest_vision: metric_leader(ps, 4),
    }
}

// ---------------------------------------------------------------------------
// Checking that the team sums can be taken

pub proof fn lemma_team_sum_absent(ps: Seq<PostMatchParticipant>, team: i64, m: int)
    requires
        !has_team(ps, team),
    ensures
        team_sum(ps, team, m) == 0,
    decreases ps.len(),
{
    if ps.len() > 0 {
        assert(!has_team(ps.drop_last(), team)) by {
            if has_team(ps.drop_last(), team) {
                let j = choose|j: int| 0 <= j < ps.drop_last().len() && (#[trigger] ps.drop_last()[j]).team_id == team;
                assert(ps[j].team_id == team);
            }
        }
        assert(ps[ps.len() - 1].team_id != team);
        lemma_team_sum_absent(ps.drop_last(), team, m);
    }
}

/// Two lists whose participants agree on team and summed metrics have the
/// same team sums.
pub proof fn lemma_team_sum_same_metrics(
    a: Seq<PostMatchParticipant>,
    b: Seq<PostMatchParticipant>,
    team: i64,
    m: int,
)
    requires
        a.len() == b.len(),
        forall|k: int| 0 <= k < a.len() ==> (#[trigger] a[k]).team_id == b[k].team_id,
        forall|k: int, q: int| 0 <= k < a.len() ==> #[trigger] metric(a[k], q) == metric(b[k], q),
    ensures
        team_sum(a, team, m) == team_sum(b, team, m),
    decreases a.len(),
{
    if a.len() > 0 {
        assert(metric(a[a.len() - 1], m) == metric(b[b.len() - 1], m));
        lemma_team_sum_same_metrics(a.drop_last(), b.drop_last(), team, m);
    }
}

fn metric_exec(p: &PostMatchParticipant, m: usize) -> (r: i64)
    requires
        m < 6,
    ensures
        r == metric(*p, m as int),
{
    if m == 0 {
        p.kills
    } else if m == 1 {
        p.deaths
    } else if m == 2 {
        p.assists
    } else if m == 3 {
        p.gold_earned
    } else if m == 4 {
        p.damage_to_champions
    } else {
        p.vision_score
    }
}

fn team_prefixes_fit(ps: &Vec<PostMatchParticipant>, team: i64) -> (r: bool)
    ensures
        r == (forall|i: int, m: int|
            0 <= i <= ps@.len() && 0 <= m < 6 ==> i64::MIN <= #[trigger] team_sum(ps@.take(i), team, m)
                <= i64::MAX),
{
    let mut m: usize = 0;
    while m < 6
        invariant
            m <= 6,
            forall|i: int, q: int|
                0 <= i <= ps@.len() && 0 <= q < m ==> i64::MIN <= #[trigger] team_sum(ps@.take(i), team, q)
                    <= i64::MAX,
        decreases 6 - m,
    {
        let mut sum: i128 = 0;
        let mut j: usize = 0;
        proof {
            assert(ps@.take(0) == Seq::<PostMatchParticipant>::empty());
        }
        while j < ps.len()
            invariant
                m < 6,
                j <= ps@.len(),
                sum == team_sum(ps@.take(j as int), team, m as int),
                i64::MIN <= sum <= i64::MAX,
                forall|i: int| 0 <= i <= j ==> i64::MIN <= #[trigger] team_sum(ps@.take(i), team, m as int) <= i64::MAX,
            decreases ps@.len() - j,
        {
            proof {
                assert(ps@.take(j + 1).drop_last() == ps@.take(j as int));
                assert(ps@.take(j + 1).last() == ps@[j as int]);
            }
            if ps[j].team_id == team {
                sum = sum + metric_exec(&ps[j], m) as i128;
            }
            assert(sum == team_sum(ps@.take(j + 1), team, m as int));
            if sum < i64::MIN as i128 || sum > i64::MAX as i128 {
                assert(!(i64::MIN <= team_sum(ps@.take(j + 1), team, m as int) <= i64::MAX));
                return false;
            }
            j = j + 1;
        }
        m = m + 1;
    }
    true
}

/// Whether the team sums of `ps` can be taken without overflow.
pub fn check_team_sums_fit(ps: &Vec<PostMatchParticipant>) -> (r: bool)
    ensures
        r == team_sums_fit(ps@),
{
    let mut k: usize = 0;
    while k < ps.len()
        invariant
            k <= ps@.len(),
            forall|q: int, i: int, m: int|
                0 <= q < k && 0 <= i <= ps@.len() && 0 <= m < 6 ==> i64::MIN <= #[trigger] team_sum(
                    ps@.take(i),
                    #[trigger] ps@[q].team_id,
                    m,
                ) <= i64::MAX,
        decreases ps@.len() - k,
    {
        if !team_prefixes_fit(ps, ps[k].team_id) {
            proof {
                let t = ps@[k as int].team_id;
                assert(!team_sums_fit(ps@)) by {
                    let (i, m) = choose|i: int, m: int|
                        !(0 <= i <= ps@.len() && 0 <= m < 6 ==> i64::MIN <= #[trigger] team_sum(ps@.take(i), t, m)
                            <= i64::MAX);
                    assert(!(i64::MIN <= team_sum(ps@.take(i), t, m) <= i64::MAX));
                }
            }
            return false;
        }
        k = k + 1;
    }
    proof {
        assert forall|i: int, team: i64, m: int|
            0 <= i <= ps@.len() && 0 <= m < 6 implies i64::MIN <= #[trigger] team_sum(ps@.take(i), team, m)
                <= i64::MAX by {
            if has_team(ps@, team) {
                let q = choose|q: int| 0 <= q < ps@.len() && (#[trigger] ps@[q]).team_id == team;
                assert(i64::MIN <= team_sum(ps@.take(i), ps@[q].team_id, m) <= i64::MAX);
            } else {
                assert(!has_team(ps@.take(i), team)) by {
                    if has_team(ps@.take(i), team) {
                        let j = choose|j: int| 0 <= j < ps@.take(i).len() && (#[trigger] ps@.take(i)[j]).team_id == team;
                        assert(ps@[j].team_id == team);
                    }
                }
                lemma_team_sum_absent(ps@.take(i), team, m);
            }
        }
    }
    true
}

// ---------------------------------------------------------------------------
// The detail

/// The participants with their performance scores.
pub open spec fn spec_scored(ps: Seq<PostMatchParticipant>, duration: Option<i64>) -> Seq<
    PostMatchParticipant,
> {
    Seq::new(
        ps.len(),
        |i: int|
            PostMatchParticipant {
                performance_score: spec_performance_score(
                    ps[i],
                    team_sum(ps, ps[i].team_id, 0),
                    team_sum(ps, ps[i].team_id, 4),
                    team_sum(ps, ps[i].team_id, 3),
                    duration,
                ),
                ..ps[i]
            },
    )
}

pub open spec fn partial_participants_message() -> Seq<char> {
    "Only partial participant details were available from the local client"@
}

/// `d` is the detail of the match described by the other arguments: the
/// participants scored, grouped by team, compared, with a warning when fewer
/// than two are known.
pub open spec fn is_post_match_detail(
    d: PostMatchDetail,
    game_id: i64,
    queue_name: Option<String>,
    played_at: Option<String>,
    duration: Option<i64>,
    result: MatchResult,
    ps: Seq<PostMatchParticipant>,
) -> bool {
    let scored = spec_scored(ps, duration);
    &&& d.game_id == game_id
    &&& d.queue_name == queue_name
    &&& d.played_at == played_at
    &&& d.game_duration_seconds == duration
    &&& d.result == result
    &&& are_teams_of(d.teams@, scored)
    &&& is_comparison_of(d.comparison, scored)
    &&& d.warnings@.len() == (if ps.len() < 2 { 1int } else { 0 })
    &&& ps.len() < 2 ==> d.warnings@[0].section == LeagueDataSection::Participants
        && d.warnings@[0].message@ == partial_participants_message()
}

/// The detail of a match from its participants (with their note summaries).
pub fn post_match_detail(
    game_id: i64,
    queue_name: Option<String>,
    played_at: Option<String>,
    game_duration_seconds: Option<i64>,
    result: MatchResult,
    participants: Vec<PostMatchParticipant>,
) -> (r: PostMatchDetail)
    requires
        team_sums_fit(participants@),
    ensures
        is_post_match_detail(
            r,
            game_id,
            queue_name,
            played_at,
            game_duration_seconds,
            result,
            participants@,
        ),
{
    let ghost ps = participants@;
    let count = participants.len();
    let scored = score_post_match_participants(participants, game_duration_seconds);
    proof {
        assert(scored@ == spec_scored(ps, game_duration_seconds));
        assert forall|i: int, team: i64, m: int|
            0 <= i <= scored@.len() && 0 <= m < 6 implies i64::MIN <= #[trigger] team_sum(
                scored@.take(i),
                team,
                m,
            ) <= i64::MAX by {
            assert forall|k: int, q: int| 0 <= k < scored@.take(i).len() implies #[trigger] metric(
                scored@.take(i)[k],
                q,
            ) == metric(ps.take(i)[k], q) by {
                assert(scored@.take(i)[k] == scored@[k]);
            }
            lemma_team_sum_same_metrics(scored@.take(i), ps.take(i), team, m);
        }
    }
    let teams = post_match_teams(&scored);
    let comparison = post_match_comparison(&scored);
    let mut warnings: Vec<LeagueDataWarning> = Vec::new();
    if count < 2 {
        warnings.push(
            LeagueDataWarning {
                section: LeagueDataSection::Participants,
                message: "Only partial participant details were available from the local client".to_owned(),
            },
        );
    }
    proof {
        reveal_strlit("Only partial participant details were available from the local client");
    }
    PostMatchDetail {
        game_id,
        queue_name,
        played_at,
        game_duration_seconds,
        result,
        teams,
        comparison,
        warnings,
    }
}

// ---------------------------------------------------------------------------
// Reading the match and the notes

/// `p` is participant `c` of the match, unscored.
pub open spec fn is_detail_participant(p: PostMatchParticipant, c: LeagueCompletedParticipant) -> bool {
    &&& p.participant_id == c.participant_id
    &&& p.team_id == c.team_id
    &&& p.display_name == c.display_name
    &&& p.champion_id == c.champion_id
    &&& p.champion_name == c.champion_name
    &&& p.role == c.role
    &&& p.lane == c.lane
    &&& p.profile_icon_id == c.profile_icon_id
    &&& p.result == c.result
    &&& p.kills == c.kills
    &&& p.deaths == c.deaths
    &&& p.assists == c.assists
    &&& p.kda == c.kda
    &&& p.performance_score == 0
    &&& p.cs == c.cs
    &&& p.gold_earned == c.gold_earned
    &&& p.damage_to_champions == c.damage_to_champions
    &&& p.vision_score == c.vision_score
    &&& p.items@ == c.items@
    &&& p.runes@ == c.runes@
    &&& p.spells@ == c.spells@
    &&& c.player_puuid is None ==> !p.note_summary.has_note && p.note_summary.tags@.len() == 0
}

/// The participants of the match, unscored, each with the summary of the
/// note kept on the player; a failed read of the store is reported.
pub fn post_match_participants<S: AppStore>(
    store: &S,
    participants: &Vec<LeagueCompletedParticipant>,
) -> (r: Result<Vec<PostMatchParticipant>, ApplicationError>)
    ensures
        r is Err ==> is_storage_error(r),
        no_player_identities(participants@) ==> r is Ok,
        r matches Ok(v) ==> v@.len() == participants@.len() && forall|i: int|
            0 <= i < v@.len() ==> is_detail_participant(#[trigger] v@[i], participants@[i]),
{
    let mut out: Vec<PostMatchParticipant> = Vec::new();
    let mut i: usize = 0;
    while i < participants.len()
        invariant
            i <= participants@.len(),
            out@.len() == i,
            forall|k: int| 0 <= k < i ==> is_detail_participant(#[trigger] out@[k], participants@[k]),
        decreases participants@.len() - i,
    {
        let c = &participants[i];
        let puuid: Option<&str> = match &c.player_puuid {
            Some(p) => Some(p.as_str()),
            None => None,
        };
        let note_summary = player_note_summary(store, puuid)?;
        out.push(
            PostMatchParticipant {
                participant_id: c.participant_id,
                team_id: c.team_id,
                display_name: c.display_name.clone(),
                champion_id: c.champion_id,
                champion_name: c.champion_name.clone(),
                role: clone_opt_string(&c.role),
                lane: clone_opt_string(&c.lane),
                profile_icon_id: c.profile_icon_id,
                result: c.result,
                kills: c.kills,
                deaths: c.deaths,
                assists: c.assists,
                kda: c.kda,
                performance_score: 0,
                cs: c.cs,
                gold_earned: c.gold_earned,
                damage_to_champions: c.damage_to_champions,
                vision_score: c.vision_score,
                items: clone_i64s(&c.items),
                runes: clone_i64s(&c.runes),
                spells: clone_i64s(&c.spells),
                note_summary,
            },
        );
        i = i + 1;
    }
    Ok(out)
}

/// Metric `m` of a participant of a completed match, numbered as `metric`.
pub open spec fn completed_metric(c: LeagueCompletedParticipant, m: int) -> int {
    if m == 0 {
        c.kills as int
    } else if m == 1 {
        c.deaths as int
    } else if m == 2 {
        c.assists as int
    } else if m == 3 {
        c.gold_earned as int
    } else if m == 4 {
        c.damage_to_champions as int
    } else {
        c.vision_score as int
    }
}

/// The sum of metric `m` over the participants of a completed match in
/// team `team`.
pub open spec fn completed_team_sum(cs: Seq<LeagueCompletedParticipant>, team: i64, m: int) -> int
    decreases cs.len(),
{
    if cs.len() == 0 {
        0
    } else {
        completed_team_sum(cs.drop_last(), team, m) + if cs.last().team_id == team {
            completed_metric(cs.last(), m)
        } else {
            0
        }
    }
}

/// Every running sum of a team's metric over the participants of a
/// completed match stays within `i64`.
pub open spec fn completed_sums_fit(cs: Seq<LeagueCompletedParticipant>) -> bool {
    forall|i: int, team: i64, m: int|
        0 <= i <= cs.len() && 0 <= m < 6 ==> i64::MIN <= #[trigger] completed_team_sum(
            cs.take(i),
            team,
            m,
        ) <= i64::MAX
}

proof fn lemma_detail_team_sum(
    ps: Seq<PostMatchParticipant>,
    cs: Seq<LeagueCompletedParticipant>,
    team: i64,
    m: int,
)
    requires
        ps.len() == cs.len(),
        forall|i: int| 0 <= i < ps.len() ==> is_detail_participant(#[trigger] ps[i], cs[i]),
    ensures
        team_sum(ps, team, m) == completed_team_sum(cs, team, m),
    decreases ps.len(),
{
    if ps.len() > 0 {
        let k = ps.len() - 1;
        assert(is_detail_participant(ps[k], cs[k]));
        assert forall|i: int| 0 <= i < ps.drop_last().len() implies is_detail_participant(
            #[trigger] ps.drop_last()[i],
            cs.drop_last()[i],
        ) by {
            assert(is_detail_participant(ps[i], cs[i]));
        }
        lemma_detail_team_sum(ps.drop_last(), cs.drop_last(), team, m);
    }
}

/// The team sums of the unscored participants fit exactly when those of
/// the completed match do.
proof fn lemma_detail_sums_fit(ps: Seq<PostMatchParticipant>, cs: Seq<LeagueCompletedParticipant>)
    requires
        ps.len() == cs.len(),
        forall|i: int| 0 <= i < ps.len() ==> is_detail_participant(#[trigger] ps[i], cs[i]),
    ensures
        team_sums_fit(ps) == completed_sums_fit(cs),
{
    assert forall|i: int, team: i64, m: int| 0 <= i <= ps.len() implies #[trigger] team_sum(
        ps.take(i),
        team,
        m,
    ) == completed_team_sum(cs.take(i), team, m) by {
        assert forall|j: int| 0 <= j < ps.take(i).len() implies is_detail_participant(
            #[trigger] ps.take(i)[j],
            cs.take(i)[j],
        ) by {
            assert(is_detail_participant(ps[j], cs[j]));
        }
        lemma_detail_team_sum(ps.take(i), cs.take(i), team, m);
    }
    if team_sums_fit(ps) {
        assert forall|i: int, team: i64, m: int|
            0 <= i <= cs.len() && 0 <= m < 6 implies i64::MIN <= #[trigger] completed_team_sum(
            cs.take(i),
            team,
            m,
        ) <= i64::MAX by {
            assert(team_sum(ps.take(i), team, m) == completed_team_sum(cs.take(i), team, m));
        }
    }
    if completed_sums_fit(cs) {
        assert forall|i: int, team: i64, m: int|
            0 <= i <= ps.len() && 0 <= m < 6 implies i64::MIN <= #[trigger] team_sum(
            ps.take(i),
            team,
            m,
        ) <= i64::MAX by {
            assert(team_sum(ps.take(i), team, m) == completed_team_sum(cs.take(i), team, m));
        }
    }
}

/// No participant of the match has a puuid, so no note is read for any.
pub open spec fn no_player_identities(cs: Seq<LeagueCompletedParticipant>) -> bool {
    forall|i: int| 0 <= i < cs.len() ==> (#[trigger] cs[i]).player_puuid is None
}

/// `d` is the detail of completed match `m`: its participants, unscored and
/// each with the summary of its note, scored and summed per team.
pub open spec fn is_detail_of_match(d: PostMatchDetail, m: LeagueCompletedMatch) -> bool {
    exists|ps: Seq<PostMatchParticipant>|
        {
            &&& ps.len() == m.participants@.len()
            &&& forall|i: int|
                0 <= i < ps.len() ==> is_detail_participant(#[trigger] ps[i], m.participants@[i])
            &&& #[trigger] is_post_match_detail(
                d,
                m.game_id,
                m.queue_name,
                m.played_at,
                m.game_duration_seconds,
                m.result,
                ps,
            )
        }
}

pub open spec fn out_of_range_message() -> Seq<char> {
    "Match statistics from the local client are out of range"@
}

/// What the detail of completed match `m` gives: the detail, unless a read
/// of a note fails (a storage error, which needs a participant with a puuid)
/// or a team's sums do not fit in `i64` (an integration error).
pub open spec fn detail_from_match_outcome(
    m: LeagueCompletedMatch,
    r: Result<PostMatchDetail, ApplicationError>,
) -> bool {
    &&& r is Err ==> (is_storage_error(r) || r->Err_0 is Integration)
    &&& (r is Err && r->Err_0 is Integration) ==> (r->Err_0->Integration_0@
        == out_of_range_message() && !completed_sums_fit(m.participants@))
    &&& !completed_sums_fit(m.participants@) ==> r is Err
    &&& no_player_identities(m.participants@) ==> (r is Ok <==> completed_sums_fit(
        m.participants@,
    ))
    &&& r is Ok ==> is_detail_of_match(r->Ok_0, m)
}

/// The detail of a completed match, with the notes kept on its players.
/// Statistics whose team totals overflow are refused.
pub fn post_match_detail_from_completed_match<S: AppStore>(
    store: &S,
    completed_match: LeagueCompletedMatch,
) -> (r: Result<PostMatchDetail, ApplicationError>)
    ensures
        detail_from_match_outcome(completed_match, r),
{
    let participants = post_match_participants(store, &completed_match.participants)?;
    proof {
        lemma_detail_sums_fit(participants@, completed_match.participants@);
    }
    if !check_team_sums_fit(&participants) {
        return Err(
            ApplicationError::Integration(
                "Match statistics from the local client are out of range".to_owned(),
            ),
        );
    }
    let ghost ps = participants@;
    let detail = post_match_detail(
        completed_match.game_id,
        completed_match.queue_name,
        completed_match.played_at,
        completed_match.game_duration_seconds,
        completed_match.result,
        participants,
    );
    Ok(detail)
}

// ---------------------------------------------------------------------------
// Use cases that read the completed match

/// What reading the detail gives for the client's answer: its error, mapped,
/// or the detail of the match it returned.
pub open spec fn read_detail_outcome(
    answer: Result<LeagueCompletedMatch, LeagueClientReadError>,
    r: Result<PostMatchDetail, ApplicationError>,
) -> bool {
    match answer {
        Err(e) => r == Err::<PostMatchDetail, ApplicationError>(ApplicationError::spec_from_read(e)),
        Ok(m) => detail_from_match_outcome(m, r),
    }
}

/// The detail of the completed match `game_id`; a game id below 1 is refused
/// before the client is read.
pub fn get_post_match_detail<S: AppStore, R: LeagueClientReader>(
    store: &S,
    reader: &R,
    input: PostMatchDetailInput,
) -> (r: Result<PostMatchDetail, ApplicationError>)
    ensures
        input.game_id <= 0 ==> validation_err(r, game_id_message()),
        input.game_id > 0 ==> exists|answer: Result<LeagueCompletedMatch, LeagueClientReadError>|
            #[trigger] read_detail_outcome(answer, r),
{
    validate_game_id(input.game_id)?;
    let answer = reader.completed_match(input.game_id);
    let ghost a = answer;
    match client_result(answer) {
        Ok(completed_match) => {
            let r = post_match_detail_from_completed_match(store, completed_match);
            assert(read_detail_outcome(a, r));
            r
        },
        Err(e) => {
            let r = Err(e);
            assert(read_detail_outcome(a, r));
            r
        },
    }
}

/// The first participant of `ps` with id `participant_id`.
pub open spec fn participant_with_id(ps: Seq<LeagueCompletedParticipant>, participant_id: i64) -> Option<
    int,
>
    decreases ps.len(),
{
    if ps.len() == 0 {
        None
    } else {
        match participant_with_id(ps.drop_last(), participant_id) {
            Some(k) => Some(k),
            None => if ps.last().participant_id == participant_id {
                Some(ps.len() - 1)
            } else {
                None
            },
        }
    }
}

pub open spec fn participant_not_found_message() -> Seq<char> {
    "Participant was not found in the completed match"@
}

pub open spec fn participant_unlinked_message() -> Seq<char> {
    "Participant cannot be linked to local notes"@
}

fn find_participant(ps: &Vec<LeagueCompletedParticipant>, participant_id: i64) -> (r: Option<usize>)
    ensures
        r matches Some(i) ==> i < ps@.len() && participant_with_id(ps@, participant_id) == Some(
            i as int,
        ),
        r is None ==> participant_with_id(ps@, participant_id) is None,
{
    let mut i: usize = 0;
    proof {
        assert(ps@.take(0) == Seq::<LeagueCompletedParticipant>::empty());
    }
    while i < ps.len()
        invariant
            i <= ps@.len(),
            participant_with_id(ps@.take(i as int), participant_id) is None,
        decreases ps@.len() - i,
    {
        proof {
            assert(ps@.take(i + 1).drop_last() == ps@.take(i as int));
            assert(ps@.take(i + 1).last() == ps@[i as int]);
        }
        if ps[i].participant_id == participant_id {
            proof {
                lemma_participant_prefix(ps@, i as int + 1, participant_id);
            }
            return Some(i);
        }
        i = i + 1;
    }
    proof {
        assert(ps@.take(ps@.len() as int) == ps@);
    }
    None
}

proof fn lemma_participant_prefix(ps: Seq<LeagueCompletedParticipant>, n: int, participant_id: i64)
    requires
        0 <= n <= ps.len(),
        participant_with_id(ps.take(n), participant_id) is Some,
    ensures
        participant_with_id(ps, participant_id) == participant_with_id(ps.take(n), participant_id),
    decreases ps.len() - n,
{
    if n < ps.len() {
        assert(ps.take(n + 1).drop_last() == ps.take(n));
        lemma_participant_prefix(ps, n + 1, participant_id);
    } else {
        assert(ps.take(n) == ps);
    }
}

/// The puuid and display name of participant `participant_id` of the match,
/// or why the player cannot be linked to a note.
pub open spec fn spec_participant_identity(m: LeagueCompletedMatch, participant_id: i64) -> Result<
    (Seq<char>, Seq<char>),
    Seq<char>,
> {
    match participant_with_id(m.participants@, participant_id) {
        None => Err(participant_not_found_message()),
        Some(k) => match m.participants@[k].player_puuid {
            None => Err(participant_unlinked_message()),
            Some(p) => Ok((p@, m.participants@[k].display_name@)),
        },
    }
}

pub fn participant_identity(m: &LeagueCompletedMatch, participant_id: i64) -> (r: Result<
    (String, String),
    ApplicationError,
>)
    ensures
        match spec_participant_identity(*m, participant_id) {
            Ok((p, n)) => r matches Ok((rp, rn)) && rp@ == p && rn@ == n,
            Err(msg) => validation_err(r, msg),
        },
{
    match find_participant(&m.participants, participant_id) {
        None => Err(
            ApplicationError::Validation("Participant was not found in the completed match".to_owned()),
        ),
        Some(k) => {
            assert(participant_with_id(m.participants@, participant_id) == Some(k as int));
            match &m.participants[k].player_puuid {
                None => Err(
                    ApplicationError::Validation("Participant cannot be linked to local notes".to_owned()),
                ),
                Some(p) => {
                    let id = (p.clone(), m.participants[k].display_name.clone());
                    assert(spec_participant_identity(*m, participant_id) == Ok::<(Seq<char>, Seq<char>), Seq<char>>((id.0@, id.1@)));
                    Ok(id)
                },
            }
        },
    }
}

/// What resolving a participant gives for the client's answer to the read of
/// the match: its error, mapped, or the participant's identity in it.
pub open spec fn identity_outcome(
    participant_id: i64,
    answer: Result<LeagueCompletedMatch, LeagueClientReadError>,
    r: Result<(String, String), ApplicationError>,
) -> bool {
    match answer {
        Err(e) => r == Err::<(String, String), ApplicationError>(ApplicationError::spec_from_read(e)),
        Ok(m) => match spec_participant_identity(m, participant_id) {
            Ok((p, n)) => r matches Ok((rp, rn)) && rp@ == p && rn@ == n,
            Err(msg) => validation_err(r, msg),
        },
    }
}

/// Reads the completed match and finds the participant's puuid and display
/// name; invalid ids are refused before the client is read.
pub fn resolve_post_match_participant_identity<R: LeagueClientReader>(
    reader: &R,
    game_id: i64,
    participant_id: i64,
) -> (r: Result<(String, String), ApplicationError>)
    ensures
        game_and_participant_error(game_id, participant_id) matches Some(msg) ==> validation_err(
            r,
            msg,
        ),
        game_and_participant_error(game_id, participant_id) is None ==> exists|
            answer: Result<LeagueCompletedMatch, LeagueClientReadError>,
        | #[trigger] identity_outcome(participant_id, answer, r),
{
    validate_game_and_participant_ids(game_id, participant_id)?;
    let answer = reader.completed_match(game_id);
    let ghost a = answer;
    let r = match client_result(answer) {
        Ok(completed_match) => participant_identity(&completed_match, participant_id),
        Err(e) => Err(e),
    };
    assert(identity_outcome(participant_id, a, r));
    r
}

/// What saving a note gives for the client's answer to the read of the
/// match and the store's answer to the save: the identity of the
/// participant comes first, then the rules on the note, then the save of the
/// note handed to the store.
pub open spec fn note_update_outcome(
    input: SavePlayerNoteInput,
    answer: Result<LeagueCompletedMatch, LeagueClientReadError>,
    note_answer: Result<StoredPlayerNote, String>,
    r: Result<PlayerNoteView, ApplicationError>,
) -> bool {
    match answer {
        Err(e) => r == Err::<PlayerNoteView, ApplicationError>(ApplicationError::spec_from_read(e)),
        Ok(m) => match spec_participant_identity(m, input.participant_id) {
            Err(msg) => validation_err(r, msg),
            Ok((p, n)) => match save_note_error(input) {
                Some(msg) => validation_err(r, msg),
                None => note_save_outcome(input, p, n, note_answer, r),
            },
        },
    }
}

/// Saves the note on a participant of a completed match.
pub fn save_player_note<S: AppStore, R: LeagueClientReader>(
    store: &S,
    reader: &R,
    input: SavePlayerNoteInput,
) -> (r: Result<PlayerNoteView, ApplicationError>)
    ensures
        game_and_participant_error(input.game_id, input.participant_id) matches Some(msg)
            ==> validation_err(r, msg),
        game_and_participant_error(input.game_id, input.participant_id) is None ==> exists|
            answer: Result<LeagueCompletedMatch, LeagueClientReadError>,
            note_answer: Result<StoredPlayerNote, String>,
        | #[trigger] note_update_outcome(input, answer, note_answer, r),
{
    let ghost no_note: Result<StoredPlayerNote, String> = arbitrary();
    let resolved = resolve_post_match_participant_identity(reader, input.game_id, input.participant_id);
    let (player_puuid, display_name) = match resolved {
        Ok(id) => id,
        Err(e) => {
            let r = Err(e);
            proof {
                if game_and_participant_error(input.game_id, input.participant_id) is None {
                    let answer = choose|answer: Result<LeagueCompletedMatch, LeagueClientReadError>|
                        #[trigger] identity_outcome(input.participant_id, answer, resolved);
                    assert(note_update_outcome(input, answer, no_note, r));
                }
            }
            return r;
        },
    };
    let ghost pv = player_puuid@;
    let ghost nv = display_name@;
    let r = save_player_note_for_resolved_player(store, input, player_puuid, display_name);
    proof {
        let answer = choose|answer: Result<LeagueCompletedMatch, LeagueClientReadError>|
            #[trigger] identity_outcome(input.participant_id, answer, resolved);
        if save_note_error(input) is None {
            let note_answer = choose|note_answer: Result<StoredPlayerNote, String>|
                #[trigger] note_save_outcome(input, pv, nv, note_answer, r);
            assert(note_update_outcome(input, answer, note_answer, r));
        } else {
            assert(note_update_outcome(input, answer, no_note, r));
        }
    }
    r
}

/// What clearing a note gives for the client's answer to the read of the
/// match and the store's answer to the clear.
pub open spec fn note_removal_outcome(
    participant_id: i64,
    answer: Result<LeagueCompletedMatch, LeagueClientReadError>,
    note_answer: Result<bool, String>,
    r: Result<ClearPlayerNoteResult, ApplicationError>,
) -> bool {
    match answer {
        Err(e) => r == Err::<ClearPlayerNoteResult, ApplicationError>(
            ApplicationError::spec_from_read(e),
        ),
        Ok(m) => match spec_participant_identity(m, participant_id) {
            Err(msg) => validation_err(r, msg),
            Ok(_) => note_clear_outcome(note_answer, r),
        },
    }
}

/// Clears the note on a participant of a completed match.
pub fn clear_player_note<S: AppStore, R: LeagueClientReader>(
    store: &S,
    reader: &R,
    input: ClearPlayerNoteInput,
) -> (r: Result<ClearPlayerNoteResult, ApplicationError>)
    ensures
        game_and_participant_error(input.game_id, input.participant_id) matches Some(msg)
            ==> validation_err(r, msg),
        game_and_participant_error(input.game_id, input.participant_id) is None ==> exists|
            answer: Result<LeagueCompletedMatch, LeagueClientReadError>,
            note_answer: Result<bool, String>,
        | #[trigger] note_removal_outcome(input.participant_id, answer, note_answer, r),
{
    let ghost no_note: Result<bool, String> = arbitrary();
    let resolved = resolve_post_match_participant_identity(reader, input.game_id, input.participant_id);
    let (player_puuid, _) = match resolved {
        Ok(id) => id,
        Err(e) => {
            let r = Err(e);
            proof {
                if game_and_participant_error(input.game_id, input.participant_id) is None {
                    let answer = choose|answer: Result<LeagueCompletedMatch, LeagueClientReadError>|
                        #[trigger] identity_outcome(input.participant_id, answer, resolved);
                    assert(note_removal_outcome(input.participant_id, answer, no_note, r));
                }
            }
            return r;
        },
    };
    let r = clear_player_note_for_resolved_player(store, input, player_puuid.as_str());
    proof {
        let answer = choose|answer: Result<LeagueCompletedMatch, LeagueClientReadError>|
            #[trigger] identity_outcome(input.participant_id, answer, resolved);
        let note_answer = choose|note_answer: Result<bool, String>|
            #[trigger] note_clear_outcome(note_answer, r);
        assert(note_removal_outcome(input.participant_id, answer, note_answer, r));
    }
    r
}

pub open spec fn recent_stats_unavailable_message() -> Seq<char> {
    "Participant recent stats are unavailable from the local client"@
}

pub open spec fn identity_unavailable_message() -> Seq<char> {
    "Participant public profile identity is unavailable"@
}

/// `r` is the public profile of participant `c` in game `game_id`, from the
/// note read for it and the answer to its recent statistics (none when it
/// has no puuid).
pub open spec fn is_public_profile(
    r: ParticipantPublicProfile,
    game_id: i64,
    participant_id: i64,
    c: LeagueCompletedParticipant,
    note: Option<StoredPlayerNote>,
    stats: Option<Result<ParticipantRecentStats, LeagueClientReadError>>,
) -> bool {
    &&& r.game_id == game_id
    &&& r.participant_id == participant_id
    &&& r.display_name == c.display_name
    &&& r.profile_icon_id == c.profile_icon_id
    &&& match note {
        Some(n) => r.note matches Some(v) && is_note_view(v, game_id, participant_id, Some(n)),
        None => r.note is None,
    }
    &&& match stats {
        Some(Ok(s)) => r.recent_stats == Some(s) && r.warnings@.len() == 0,
        Some(Err(_)) => r.recent_stats is None && r.warnings@.len() == 1
            && r.warnings@[0].section == LeagueDataSection::RecentStats
            && r.warnings@[0].message@ == recent_stats_unavailable_message(),
        None => r.recent_stats is None && r.warnings@.len() == 1 && r.warnings@[0].section
            == LeagueDataSection::Participants && r.warnings@[0].message@
            == identity_unavailable_message(),
    }
}

/// The public profile of a participant from what was read for it.
pub fn participant_public_profile(
    game_id: i64,
    participant_id: i64,
    c: &LeagueCompletedParticipant,
    note: Option<StoredPlayerNote>,
    stats: Option<Result<ParticipantRecentStats, LeagueClientReadError>>,
) -> (r: ParticipantPublicProfile)
    ensures
        is_public_profile(r, game_id, participant_id, *c, note, stats),
{
    let ghost stats0 = stats;
    let mut warnings: Vec<LeagueDataWarning> = Vec::new();
    let recent_stats = match stats {
        Some(Ok(s)) => Some(s),
        Some(Err(_)) => {
            warnings.push(
                LeagueDataWarning {
                    section: LeagueDataSection::RecentStats,
                    message: "Participant recent stats are unavailable from the local client".to_owned(),
                },
            );
            None
        },
        None => {
            warnings.push(
                LeagueDataWarning {
                    section: LeagueDataSection::Participants,
                    message: "Participant public profile identity is unavailable".to_owned(),
                },
            );
            None
        },
    };
    let note_view = match note {
        Some(n) => Some(player_note_view(game_id, participant_id, Some(n))),
        None => None,
    };
    ParticipantPublicProfile {
        game_id,
        participant_id,
        display_name: c.display_name.clone(),
        profile_icon_id: c.profile_icon_id,
        recent_stats,
        note: note_view,
        warnings,
    }
}

pub open spec fn effective_public_recent_limit(recent_limit: Option<i64>) -> i64 {
    match recent_limit {
        Some(v) => v,
        None => DEFAULT_PUBLIC_RECENT_LIMIT,
    }
}

/// The index of participant `participant_id` in the completed match, or the
/// error that reports it missing.
pub fn completed_participant(m: &LeagueCompletedMatch, participant_id: i64) -> (r: Result<
    usize,
    ApplicationError,
>)
    ensures
        match participant_with_id(m.participants@, participant_id) {
            Some(k) => 0 <= k < m.participants@.len() && r == Ok::<usize, ApplicationError>(k as usize),
            None => validation_err(r, participant_not_found_message()),
        },
{
    match find_participant(&m.participants, participant_id) {
        Some(k) => Ok(k),
        None => Err(
            ApplicationError::Validation("Participant was not found in the completed match".to_owned()),
        ),
    }
}

/// What is asked of the client for the recent statistics of participant
/// `c`: its puuid and the limit, or nothing when it has no puuid.
pub fn recent_stats_request(c: &LeagueCompletedParticipant, limit: i64) -> (r: Option<(String, i64)>)
    ensures
        match c.player_puuid {
            Some(p) => r matches Some((q, l)) && q@ == p@ && l == limit,
            None => r is None,
        },
{
    match &c.player_puuid {
        Some(p) => Some((p.clone(), limit)),
        None => None,
    }
}

/// What the public profile of participant `participant_id` of game
/// `game_id` gives for the client's answer to the read of the match, the
/// store's answer to the read of the note, and the client's answer to the
/// read of the recent statistics (both asked only for a participant with a
/// puuid).
pub open spec fn profile_outcome(
    game_id: i64,
    participant_id: i64,
    answer: Result<LeagueCompletedMatch, LeagueClientReadError>,
    note_answer: Result<Option<StoredPlayerNote>, String>,
    stats: Result<ParticipantRecentStats, LeagueClientReadError>,
    r: Result<ParticipantPublicProfile, ApplicationError>,
) -> bool {
    match answer {
        Err(e) => r == Err::<ParticipantPublicProfile, ApplicationError>(
            ApplicationError::spec_from_read(e),
        ),
        Ok(m) => match participant_with_id(m.participants@, participant_id) {
            None => validation_err(r, participant_not_found_message()),
            Some(k) => {
                let c = m.participants@[k];
                match c.player_puuid {
                    None => r is Ok && is_public_profile(
                        r->Ok_0,
                        game_id,
                        participant_id,
                        c,
                        None,
                        None,
                    ),
                    Some(_) => match note_answer {
                        Err(e) => r matches Err(ApplicationError::Storage(msg)) && msg@ == e@,
                        Ok(note) => r is Ok && is_public_profile(
                            r->Ok_0,
                            game_id,
                            participant_id,
                            c,
                            note,
                            Some(stats),
                        ),
                    },
                }
            },
        },
    }
}

/// The public profile of a participant of a completed match: its name and
/// icon, the note kept on it, and its recent statistics when the client has
/// them. Invalid ids and limits are refused before the client is read.
pub fn get_post_match_participant_profile<S: AppStore, R: LeagueClientReader>(
    store: &S,
    reader: &R,
    input: ParticipantPublicProfileInput,
) -> (r: Result<ParticipantPublicProfile, ApplicationError>)
    ensures
        game_and_participant_error(input.game_id, input.participant_id) matches Some(msg)
            ==> validation_err(r, msg),
        game_and_participant_error(input.game_id, input.participant_id) is None && !valid_match_limit(
            effective_public_recent_limit(input.recent_limit),
        ) ==> validation_err(r, match_limit_message()),
        game_and_participant_error(input.game_id, input.participant_id) is None && valid_match_limit(
            effective_public_recent_limit(input.recent_limit),
        ) ==> exists|
            answer: Result<LeagueCompletedMatch, LeagueClientReadError>,
            note_answer: Result<Option<StoredPlayerNote>, String>,
            stats: Result<ParticipantRecentStats, LeagueClientReadError>,
        |
            #[trigger] profile_outcome(
                input.game_id,
                input.participant_id,
                answer,
                note_answer,
                stats,
                r,
            ),
{
    validate_game_and_participant_ids(input.game_id, input.participant_id)?;
    let limit = match input.recent_limit {
        Some(v) => v,
        None => DEFAULT_PUBLIC_RECENT_LIMIT,
    };
    let recent_limit = normalize_match_limit(limit)?;
    let ghost no_note: Result<Option<StoredPlayerNote>, String> = arbitrary();
    let ghost no_stats: Result<ParticipantRecentStats, LeagueClientReadError> = arbitrary();
    let answer = reader.completed_match(input.game_id);
    let ghost a = answer;
    let completed_match = match client_result(answer) {
        Ok(m) => m,
        Err(e) => {
            let r = Err(e);
            assert(profile_outcome(input.game_id, input.participant_id, a, no_note, no_stats, r));
            return r;
        },
    };
    let k = match completed_participant(&completed_match, input.participant_id) {
        Ok(k) => k,
        Err(e) => {
            let r = Err(e);
            assert(profile_outcome(input.game_id, input.participant_id, a, no_note, no_stats, r));
            return r;
        },
    };
    let participant = &completed_match.participants[k];
    match recent_stats_request(participant, recent_limit) {
        None => {
            let r = Ok(participant_public_profile(input.game_id, input.participant_id, participant, None, None));
            assert(profile_outcome(input.game_id, input.participant_id, a, no_note, no_stats, r));
            r
        },
        Some((player_puuid, stats_limit)) => {
            let note_answer = store.get_player_note(player_puuid.as_str());
            let ghost na = note_answer;
            let note = match plain_storage_result(note_answer) {
                Ok(n) => n,
                Err(e) => {
                    let r = Err(e);
                    assert(profile_outcome(input.game_id, input.participant_id, a, na, no_stats, r));
                    return r;
                },
            };
            let stats = reader.participant_recent_stats(player_puuid.as_str(), stats_limit);
            let ghost sa = stats;
            let r = Ok(participant_public_profile(input.game_id, input.participant_id, participant, note, Some(stats)));
            assert(profile_outcome(input.game_id, input.participant_id, a, na, sa, r));
            r
        },
    }
}

} // verus!
