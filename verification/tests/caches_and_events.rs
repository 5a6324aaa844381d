use std::collections::HashMap;
use lol_desktop_assistant::champ_select::{
    champ_select_roster, lookup_names, negative_stable_id, sorted_summoner_ids,
    ChampSelectSessionData, SummonerBatchEntry,
};
use lol_desktop_assistant::client_cache::{
    lookup_recent_stats, lookup_recent_stats_batch, lookup_summoners_by_ids,
    lookup_summoners_by_names, recent_stats_cache_is_fresh, recent_stats_cache_key,
    store_recent_stats, store_recent_stats_batch, store_summoners_by_ids,
    store_summoners_by_names, summoner_cache_is_fresh, RecentStatsCacheEntry,
    SummonerCacheEntry,
};
use lol_desktop_assistant::commands::LeagueEventServiceState;
use lol_desktop_assistant::domain::{ChampSelectTeam, ParticipantRecentStats};
use lol_desktop_assistant::errors::{
    ApplicationError, CommandError, LeagueClientReadError,
};
use lol_desktop_assistant::keyed_cache::{IdCache, NameCache};
use lol_desktop_assistant::league_client::{match_history_path, request_error_for_status, LcuRequestError};
use lol_desktop_assistant::league_events::{
    clear_after_session, hydration_is_current, hydration_outcome, phase_change_actions,
    plan_fallback, plan_websocket_event, reconnect_delay_secs, EventPlan, HydrationOutcome,
};
use lol_desktop_assistant::roster_cache::LeagueReconnectBackoff;

fn summoner(id: i64, puuid: &str, name: &str) -> SummonerBatchEntry {
    SummonerBatchEntry {
        summoner_id: id,
        puuid: puuid.to_string(),
        display_name: name.to_string(),
    }
}

fn stats(count: usize) -> ParticipantRecentStats {
    ParticipantRecentStats {
        match_count: count,
        average_kda: Some(25),
        recent_champions: vec!["Ahri".to_string()],
        recent_matches: Vec::new(),
    }
}

#[test]
fn keyed_caches_give_back_the_last_write() {
    let mut ids: IdCache<i64> = IdCache::new();
    assert_eq!(ids.get(1), None);
    ids.insert(1, 10);
    ids.insert(2, 20);
    ids.insert(1, 11);
    assert_eq!(ids.get(1), Some(&11));
    assert_eq!(ids.get(2), Some(&20));

    let mut names: NameCache<i64> = NameCache::new();
    names.insert("a".to_string(), 1);
    names.insert("b".to_string(), 2);
    names.insert("a".to_string(), 3);
    assert_eq!(names.get("a"), Some(&3));
    assert_eq!(names.get("b"), Some(&2));
    assert_eq!(names.get("c"), None);
}

#[test]
fn summoner_entries_stay_fresh_for_their_lifetime() {
    let known = SummonerCacheEntry {
        entry: Some(summoner(1, "p1", "One")),
        cached_at_ms: 1_000,
    };
    let unknown = SummonerCacheEntry {
        entry: None,
        cached_at_ms: 1_000,
    };

    assert!(summoner_cache_is_fresh(&known, 1_000 + 599_999));
    assert!(!summoner_cache_is_fresh(&known, 1_000 + 600_000));
    assert!(summoner_cache_is_fresh(&unknown, 1_000 + 29_999));
    assert!(!summoner_cache_is_fresh(&unknown, 1_000 + 30_000));
    assert!(summoner_cache_is_fresh(&known, 0));
}

#[test]
fn recent_stats_entries_stay_fresh_for_their_lifetime() {
    let ok = RecentStatsCacheEntry {
        result: Ok(stats(1)),
        cached_at_ms: 0,
    };
    let failed = RecentStatsCacheEntry {
        result: Err(LeagueClientReadError::Integration("down".to_string())),
        cached_at_ms: 0,
    };

    assert!(recent_stats_cache_is_fresh(&ok, 599_999));
    assert!(!recent_stats_cache_is_fresh(&ok, 600_000));
    assert!(recent_stats_cache_is_fresh(&failed, 29_999));
    assert!(!recent_stats_cache_is_fresh(&failed, 30_000));
}

#[test]
fn recent_stats_key_joins_puuid_and_limit() {
    assert_eq!(recent_stats_cache_key("puuid-1", 6), "puuid-1:6");
    assert_eq!(recent_stats_cache_key("x", -3), "x:-3");
}

#[test]
fn summoner_lookups_by_id_split_hits_and_misses() {
    let mut id_cache: IdCache<SummonerCacheEntry> = IdCache::new();
    let mut name_cache: NameCache<SummonerCacheEntry> = NameCache::new();

    let (found, missing) = lookup_summoners_by_ids(&id_cache, &[1, 2], 0);
    assert!(found.is_empty());
    assert_eq!(missing, vec![1, 2]);

    let fetched = vec![summoner(1, "p1", " Player One ")];
    let stored = store_summoners_by_ids(&mut id_cache, &mut name_cache, &missing, &fetched, 100);
    assert_eq!(stored.len(), 1);
    assert_eq!(stored[0].puuid, "p1");

    let (found, missing) = lookup_summoners_by_ids(&id_cache, &[1, 2], 200);
    assert_eq!(found.len(), 1);
    assert!(missing.is_empty());

    let (found, missing) = lookup_summoners_by_names(&name_cache, &["player one".to_string()], 200);
    assert_eq!(found.len(), 1);
    assert!(missing.is_empty());

    let (_, missing) = lookup_summoners_by_ids(&id_cache, &[2], 100 + 30_000);
    assert_eq!(missing, vec![2]);
}

#[test]
fn summoner_lookups_by_name_skip_blank_names_and_fill_the_id_cache() {
    let mut id_cache: IdCache<SummonerCacheEntry> = IdCache::new();
    let mut name_cache: NameCache<SummonerCacheEntry> = NameCache::new();
    let names = vec!["  ".to_string(), "Two".to_string()];

    let (found, missing) = lookup_summoners_by_names(&name_cache, &names, 0);
    assert!(found.is_empty());
    assert_eq!(missing, vec!["Two".to_string()]);

    let fetched = vec![summoner(2, "p2", "TWO")];
    let stored = store_summoners_by_names(&mut name_cache, &mut id_cache, &missing, &fetched, 5);
    assert_eq!(stored.len(), 1);

    let (found, missing) = lookup_summoners_by_ids(&id_cache, &[2], 10);
    assert_eq!(found.len(), 1);
    assert!(missing.is_empty());
}

#[test]
fn recent_stats_cache_serves_fresh_answers() {
    let mut cache: NameCache<RecentStatsCacheEntry> = NameCache::new();
    assert!(lookup_recent_stats(&cache, "p1", 6, 0).is_none());

    let result = store_recent_stats(&mut cache, "p1", 6, Ok(stats(6)), 0);
    assert!(result.is_ok());
    let hit = lookup_recent_stats(&cache, "p1", 6, 1_000).expect("fresh hit");
    assert_eq!(hit.unwrap().match_count, 6);
    assert!(lookup_recent_stats(&cache, "p1", 5, 1_000).is_none());
    assert!(lookup_recent_stats(&cache, "p1", 6, 600_000).is_none());
}

#[test]
fn recent_stats_batch_reads_only_what_is_missing() {
    let mut cache: NameCache<RecentStatsCacheEntry> = NameCache::new();
    let puuids = vec!["p1".to_string(), "p2".to_string()];

    let (hits, missing) = lookup_recent_stats_batch(&cache, &puuids, 6, 0);
    assert!(hits.is_empty());
    assert_eq!(missing, puuids);

    let fetched = vec![
        ("p1".to_string(), Ok(stats(6))),
        (
            "p2".to_string(),
            Err(LeagueClientReadError::Integration("down".to_string())),
        ),
    ];
    let stored = store_recent_stats_batch(&mut cache, &missing, 6, &fetched, 0);
    assert_eq!(stored.len(), 2);

    let (hits, missing) = lookup_recent_stats_batch(&cache, &puuids, 6, 10_000);
    assert_eq!(hits.len(), 2);
    assert!(missing.is_empty());

    let (hits, missing) = lookup_recent_stats_batch(&cache, &puuids, 6, 40_000);
    assert_eq!(hits.len(), 1);
    assert_eq!(missing, vec!["p2".to_string()]);
}

#[test]
fn roster_seats_ids_then_unseated_names() {
    let session = ChampSelectSessionData {
        ally_ids: vec![5, 3],
        enemy_ids: vec![9, 3],
        champion_selections: HashMap::from([(3, 1), (3, 2), (9, 7)]),
        ally_names: vec!["Known".to_string(), "  ".to_string(), "Stranger".to_string()],
        enemy_names: vec!["known".to_string(), "Third".to_string()],
        champion_selections_by_name: vec![("stranger".to_string(), 44)],
    };
    let ids = sorted_summoner_ids(&session);
    assert_eq!(ids, vec![3, 5, 9]);
    assert_eq!(
        lookup_names(&session),
        vec![
            "Known".to_string(),
            "Stranger".to_string(),
            "known".to_string(),
            "Third".to_string()
        ]
    );

    let by_id = vec![summoner(3, "p3", "Known")];
    let by_name = vec![summoner(3, "p3", "Known"), summoner(8, "p8", "third")];
    let seats = champ_select_roster(&session, &ids, &by_id, &by_name);

    assert_eq!(seats.len(), 5);
    assert_eq!(seats[0].summoner_id, 3);
    assert_eq!(seats[0].champion_id, Some(2));
    assert_eq!(seats[0].team, ChampSelectTeam::Ally);
    assert_eq!(seats[1].display_name, "Summoner 5");
    assert_eq!(seats[2].summoner_id, 9);
    assert_eq!(seats[2].team, ChampSelectTeam::Enemy);
    assert_eq!(seats[3].display_name, "Stranger");
    assert!(seats[3].summoner_id < 0);
    assert_eq!(seats[3].champion_id, Some(44));
    assert_eq!(seats[3].team, ChampSelectTeam::Ally);
    assert_eq!(seats[4].summoner_id, 8);
    assert_eq!(seats[4].team, ChampSelectTeam::Enemy);
}

#[test]
fn stand_in_ids_are_negative_and_stable() {
    let a = negative_stable_id("Stranger");
    let b = negative_stable_id("Stranger");
    assert_eq!(a, b);
    assert!(a < 0);
    assert!(a >= -0x4000_0000_0000);
    assert_ne!(negative_stable_id("Stranger"), negative_stable_id("Another stranger"));
}

#[test]
fn phases_set_off_their_automation() {
    let ready = phase_change_actions("ReadyCheck");
    assert!(ready.run_ready_check && !ready.run_champ_select && !ready.clear_champ_select);
    let select = phase_change_actions("ChampSelect");
    assert!(select.run_champ_select && select.refresh_champ_select && !select.run_ready_check);
    for phase in ["GameStart", "PreEndOfGame", "None"] {
        assert!(phase_change_actions(phase).clear_champ_select);
    }
    let lobby = phase_change_actions("Lobby");
    assert!(!lobby.run_ready_check && !lobby.run_champ_select && !lobby.clear_champ_select);
}

#[test]
fn websocket_events_are_planned() {
    let phase_uri = "/lol-gameflow/v1/gameflow-phase";
    let session_uri = "/lol-champ-select/v1/session";

    assert_eq!(plan_websocket_event(phase_uri, None, None, None), EventPlan::Ignore);
    assert_eq!(
        plan_websocket_event(phase_uri, Some("Lobby"), Some("None"), None),
        EventPlan::ChangePhase
    );
    assert_eq!(
        plan_websocket_event(phase_uri, Some("Lobby"), Some("Lobby"), None),
        EventPlan::KeepPhase
    );
    assert_eq!(plan_websocket_event(session_uri, None, Some("Lobby"), None), EventPlan::Ignore);
    assert_eq!(
        plan_websocket_event(session_uri, None, None, Some("ChampSelect")),
        EventPlan::RefreshChampSelect
    );
    assert_eq!(plan_websocket_event("/other", Some("x"), None, None), EventPlan::Ignore);
}

#[test]
fn fallback_and_reconnect_plans() {
    let plan = plan_fallback("ChampSelect", Some("Lobby"));
    assert!(plan.change_phase && plan.refresh_champ_select);
    let plan = plan_fallback("Lobby", Some("Lobby"));
    assert!(!plan.change_phase && !plan.refresh_champ_select);

    let mut backoff = LeagueReconnectBackoff::new();
    let waits: Vec<u64> = (0..6).map(|_| reconnect_delay_secs(&mut backoff)).collect();
    assert_eq!(waits, vec![1, 3, 10, 30, 30, 30]);

    assert!(clear_after_session(true, false));
    assert!(!clear_after_session(true, true));
    assert!(!clear_after_session(false, false));
}

#[test]
fn hydration_decisions() {
    assert!(hydration_is_current(Some("r"), false, "r"));
    assert!(!hydration_is_current(Some("r"), true, "r"));
    assert!(!hydration_is_current(None, false, "r"));

    assert_eq!(hydration_outcome(false, None, "r", true, true), HydrationOutcome::ClearIfCurrent);
    assert_eq!(hydration_outcome(false, Some("r"), "r", true, true), HydrationOutcome::Publish);
    assert_eq!(hydration_outcome(false, Some("r"), "r", true, false), HydrationOutcome::Stop);
    assert_eq!(hydration_outcome(false, Some("x"), "r", true, true), HydrationOutcome::ClearIfCurrent);
    assert_eq!(hydration_outcome(true, Some("x"), "r", true, true), HydrationOutcome::Stop);
    assert_eq!(hydration_outcome(false, Some("r"), "r", false, true), HydrationOutcome::ClearIfCurrent);
}

#[test]
fn http_statuses_map_to_request_errors() {
    assert_eq!(request_error_for_status(200), None);
    assert_eq!(request_error_for_status(204), None);
    assert_eq!(request_error_for_status(401), Some(LcuRequestError::Unauthorized));
    assert_eq!(request_error_for_status(403), Some(LcuRequestError::Unauthorized));
    assert_eq!(request_error_for_status(404), Some(LcuRequestError::NotLoggedIn));
    assert_eq!(request_error_for_status(503), Some(LcuRequestError::Patching));
    assert_eq!(request_error_for_status(500), Some(LcuRequestError::Unavailable));
    assert_eq!(request_error_for_status(302), Some(LcuRequestError::Unavailable));
    assert_eq!(
        match_history_path(6),
        "/lol-match-history/v1/products/lol/current-summoner/matches?begIndex=0&endIndex=6"
    );
}

#[test]
fn command_errors_keep_code_and_message() {
    let error = CommandError::from(ApplicationError::Validation("Bad".to_string()));
    assert_eq!(error.code, "validation");
    assert_eq!(error.message, "Bad");
}

#[test]
fn event_service_state_resets() {
    let mut state = LeagueEventServiceState::new();
    state.phase = Some("Lobby".to_string());
    state.fingerprint = "f".to_string();
    state.reset();
    assert_eq!(state, LeagueEventServiceState::new());
}

#[test]
fn validation_errors_serialize_command_shape() {
    let error = CommandError::from(ApplicationError::Validation(
        "Activity note title is required".to_string(),
    ));

    assert_eq!(error.code, "validation");
    assert_eq!(error.message, "Activity note title is required");
}

#[test]
fn league_client_errors_serialize_command_shape() {
    let error = CommandError::from(ApplicationError::ClientAccess(
        "League Client rejected local authentication".to_string(),
    ));

    assert_eq!(error.code, "clientAccess");
    assert_eq!(error.message, "League Client rejected local authentication");
}
