use std::time::Duration;

use lol_desktop_assistant::constants::{
    CHAMP_SELECT_HYDRATED_RECENT_LIMIT, CHAMP_SELECT_LIGHT_RECENT_LIMIT,
};
use lol_desktop_assistant::domain::{
    ChampSelectPlayer, ChampSelectSnapshot, ChampSelectTeam, MatchResult, ParticipantRecentStats,
    RecentMatchSummary,
};
use lol_desktop_assistant::roster_cache::{
    champ_select_cache_needs_hydration, champ_select_fingerprint,
    champ_select_roster_fingerprint, merge_recent_stats_from_cache, LeagueReconnectBackoff,
};

fn sample_champ_select_snapshot() -> ChampSelectSnapshot {
    ChampSelectSnapshot {
        players: vec![ChampSelectPlayer {
            summoner_id: 7,
            puuid: "puuid-7".to_string(),
            display_name: "Player#NA1".to_string(),
            champion_id: Some(103),
            champion_name: None,
            team: ChampSelectTeam::Ally,
            ranked_queues: Vec::new(),
            recent_stats: None,
        }],
        cached_at: "1770000000".to_string(),
    }
}

#[test]
fn reconnect_backoff_uses_fixed_cap() {
    let mut backoff = LeagueReconnectBackoff::new();

    assert_eq!(Duration::from_secs(backoff.next_delay()), Duration::from_secs(1));
    assert_eq!(Duration::from_secs(backoff.next_delay()), Duration::from_secs(3));
    assert_eq!(Duration::from_secs(backoff.next_delay()), Duration::from_secs(10));
    assert_eq!(Duration::from_secs(backoff.next_delay()), Duration::from_secs(30));
    assert_eq!(Duration::from_secs(backoff.next_delay()), Duration::from_secs(30));

    backoff.reset();
    assert_eq!(Duration::from_secs(backoff.next_delay()), Duration::from_secs(1));
}

#[test]
fn champ_select_fingerprint_ignores_recent_stats() {
    let mut snapshot = sample_champ_select_snapshot();
    let initial = champ_select_fingerprint(&snapshot);
    snapshot.players[0].recent_stats = Some(ParticipantRecentStats {
        match_count: 1,
        average_kda: Some(30),
        recent_champions: vec!["Ahri".to_string()],
        recent_matches: vec![RecentMatchSummary {
            game_id: 100,
            champion_id: Some(103),
            champion_name: "Ahri".to_string(),
            queue_name: Some("Ranked Solo/Duo".to_string()),
            played_at: Some("2026-04-26 00:00:00".to_string()),
            game_duration_seconds: Some(1800),
            result: MatchResult::Win,
            kills: 5,
            deaths: 1,
            assists: 9,
            kda: Some(140),
        }],
    });

    assert_eq!(champ_select_fingerprint(&snapshot), initial);
}

#[test]
fn champ_select_roster_fingerprint_ignores_champion_changes() {
    let mut snapshot = sample_champ_select_snapshot();
    let initial = champ_select_roster_fingerprint(&snapshot);
    let full_initial = champ_select_fingerprint(&snapshot);
    snapshot.players[0].champion_id = Some(99);

    assert_eq!(champ_select_roster_fingerprint(&snapshot), initial);
    assert_ne!(champ_select_fingerprint(&snapshot), full_initial);
}

#[test]
fn champ_select_cache_hydrates_matching_light_roster() {
    assert!(champ_select_cache_needs_hydration(
        Some("same-roster"),
        "same-roster",
        CHAMP_SELECT_LIGHT_RECENT_LIMIT,
    ));
}

#[test]
fn champ_select_cache_skips_hydration_for_matching_hydrated_roster() {
    assert!(!champ_select_cache_needs_hydration(
        Some("same-roster"),
        "same-roster",
        CHAMP_SELECT_HYDRATED_RECENT_LIMIT,
    ));
}

#[test]
fn champ_select_cache_hydrates_new_roster() {
    assert!(champ_select_cache_needs_hydration(
        Some("old-roster"),
        "new-roster",
        CHAMP_SELECT_HYDRATED_RECENT_LIMIT,
    ));
}

#[test]
fn merge_recent_stats_from_cache_preserves_hydrated_rows() {
    let mut cached = sample_champ_select_snapshot();
    cached.players[0].recent_stats = Some(ParticipantRecentStats {
        match_count: 1,
        average_kda: Some(30),
        recent_champions: vec!["Ahri".to_string()],
        recent_matches: Vec::new(),
    });
    let mut snapshot = cached.clone();
    snapshot.players[0].champion_id = Some(99);
    snapshot.players[0].recent_stats = None;

    merge_recent_stats_from_cache(&mut snapshot, &cached);

    assert!(snapshot.players[0].recent_stats.is_some());
}

#[test]
fn fingerprint_lists_players_sorted_and_joined() {
    let mut snapshot = sample_champ_select_snapshot();
    snapshot.players.push(ChampSelectPlayer {
        summoner_id: 3,
        puuid: "puuid-3".to_string(),
        display_name: "Other".to_string(),
        champion_id: None,
        champion_name: None,
        team: ChampSelectTeam::Enemy,
        ranked_queues: Vec::new(),
        recent_stats: None,
    });

    assert_eq!(
        champ_select_fingerprint(&snapshot),
        "3:Other:0:Enemy:puuid-3|7:Player#NA1:103:Ally:puuid-7"
    );
    assert_eq!(
        champ_select_roster_fingerprint(&snapshot),
        "3:Other:Enemy:puuid-3|7:Player#NA1:Ally:puuid-7"
    );
}

#[test]
fn hydration_needed_without_cached_roster() {
    assert!(champ_select_cache_needs_hydration(
        None,
        "roster",
        CHAMP_SELECT_HYDRATED_RECENT_LIMIT,
    ));
}
