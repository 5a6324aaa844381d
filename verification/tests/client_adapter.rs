use lol_desktop_assistant::domain::{
    LeagueClientConnection, LeagueClientPhase, LeagueDataSection, MatchResult, RankedQueue,
};
use lol_desktop_assistant::errors::LeagueClientReadError;
use lol_desktop_assistant::league_client::{
    map_ranked_queues, read_error_for_request, read_error_for_session_problem,
    discover_lockfile, status_from_request_error, LcuPlayer, LcuRankedQueue, LcuRankedStats,
    LcuRequestError, LcuSummoner, LockfileDiscovery, SessionProblem,
};
use lol_desktop_assistant::matches::{
    compose_self_data, map_recent_matches, LcuChampionSummary, LcuGame, LcuGames,
    LcuMatchHistoryResponse, LcuParticipant, LcuParticipantIdentity, LcuParticipantStats,
};
use lol_desktop_assistant::lockfile::{parse_lockfile, LcuAdapterError};

const TEST_LOCKFILE_VALUE: &str = "not-a-real-test-value";

#[test]
fn parses_valid_lockfile() {
    let credentials =
        parse_lockfile(format!("LeagueClient:1234:2999:{TEST_LOCKFILE_VALUE}:https").as_str())
            .expect("lockfile parses");

    assert_eq!(credentials.port, 2999);
    assert_eq!(credentials.password, TEST_LOCKFILE_VALUE);
}

#[test]
fn lockfile_credentials_debug_redacts_password() {
    let credentials =
        parse_lockfile(format!("LeagueClient:1234:2999:{TEST_LOCKFILE_VALUE}:https").as_str())
            .expect("lockfile parses");
    let message = credentials.debug_text();

    assert!(message.contains("<redacted>"));
    assert!(!message.contains(TEST_LOCKFILE_VALUE));
    assert!(!message.contains("2999"));
}

#[test]
fn rejects_malformed_lockfile_without_exposing_password() {
    let error = parse_lockfile(
        format!("LeagueClient:1234:not-a-port:{TEST_LOCKFILE_VALUE}:https").as_str(),
    )
    .err()
    .expect("lockfile is rejected");
    let message = format!("{error:?}");

    assert!(!message.contains(TEST_LOCKFILE_VALUE));
}

#[test]
fn rejects_non_https_lockfile() {
    let result = parse_lockfile(format!("LeagueClient:1234:2999:{TEST_LOCKFILE_VALUE}:http").as_str());

    assert!(matches!(result, Err(LcuAdapterError::InvalidLockfile)));
}

#[test]
fn request_errors_map_to_specific_safe_statuses() {
    let unauthorized = status_from_request_error(LcuRequestError::Unauthorized);
    let not_logged_in = status_from_request_error(LcuRequestError::NotLoggedIn);
    let patching = status_from_request_error(LcuRequestError::Patching);

    assert_eq!(unauthorized.phase, LeagueClientPhase::Unauthorized);
    assert_eq!(not_logged_in.phase, LeagueClientPhase::NotLoggedIn);
    assert_eq!(patching.phase, LeagueClientPhase::Patching);
    assert!(unauthorized.message.unwrap().contains("authentication"));
    assert!(!format!("{not_logged_in:?}").contains(TEST_LOCKFILE_VALUE));
}

#[test]
fn maps_ranked_solo_and_flex_queues() {
    let queues = map_ranked_queues(&LcuRankedStats {
        queues: vec![
            LcuRankedQueue {
                queue_type: Some("RANKED_SOLO_5x5".to_string()),
                tier: Some("GOLD".to_string()),
                division: Some("II".to_string()),
                league_points: Some(72),
                wins: Some(20),
                losses: Some(10),
            },
            LcuRankedQueue {
                queue_type: Some("RANKED_FLEX_SR".to_string()),
                tier: None,
                division: None,
                league_points: None,
                wins: Some(0),
                losses: Some(0),
            },
        ],
    });

    assert_eq!(queues.len(), 2);
    assert_eq!(queues[0].queue, RankedQueue::SoloDuo);
    assert!(queues[0].is_ranked);
    assert_eq!(queues[1].queue, RankedQueue::Flex);
    assert!(!queues[1].is_ranked);
}

#[test]
fn failed_requests_become_read_errors_with_status_messages() {
    assert_eq!(
        read_error_for_request(LcuRequestError::Unauthorized),
        LeagueClientReadError::ClientAccess("League Client rejected local authentication".to_string())
    );
    assert_eq!(
        read_error_for_request(LcuRequestError::NotLoggedIn),
        LeagueClientReadError::ClientUnavailable("League Client is not logged in yet".to_string())
    );
    assert_eq!(
        read_error_for_request(LcuRequestError::Patching),
        LeagueClientReadError::ClientUnavailable("League Client local API is not ready".to_string())
    );
    assert_eq!(
        read_error_for_request(LcuRequestError::Unexpected),
        LeagueClientReadError::Integration(
            "League Client returned an unexpected response".to_string()
        )
    );
}

#[test]
fn unopened_sessions_become_unavailable_client_errors() {
    assert_eq!(
        read_error_for_session_problem(SessionProblem::NotRunning),
        LeagueClientReadError::ClientUnavailable("League Client is not running".to_string())
    );
    assert_eq!(
        read_error_for_session_problem(SessionProblem::LockfileInvalid),
        LeagueClientReadError::ClientUnavailable(
            "League Client lockfile could not be parsed".to_string()
        )
    );
}

fn sample_summoner() -> LcuSummoner {
    LcuSummoner {
        display_name: Some("Player".to_string()),
        game_name: None,
        tag_line: None,
        summoner_level: Some(100),
        profile_icon_id: Some(1),
        account_id: Some(55),
        summoner_id: Some(99),
        puuid: Some("self-puuid".to_string()),
    }
}

fn empty_match_history() -> LcuMatchHistoryResponse {
    LcuMatchHistoryResponse {
        games: Some(LcuGames { games: Vec::new() }),
    }
}

#[test]
fn maps_recent_match_for_current_summoner_only() {
    let summoner = sample_summoner();
    let champion_names = vec![LcuChampionSummary {
        id: 103,
        name: "Ahri".to_string(),
    }];

    let matches = map_recent_matches(
        &LcuMatchHistoryResponse {
            games: Some(LcuGames {
                games: vec![LcuGame {
                    game_id: Some(10),
                    game_creation_date: Some("2026-04-19T12:00:00Z".to_string()),
                    game_creation: None,
                    queue_id: Some(420),
                    participants: vec![
                        LcuParticipant {
                            participant_id: Some(1),
                            champion_id: Some(266),
                            champion_name: None,
                            stats: Some(LcuParticipantStats {
                                kills: Some(0),
                                deaths: Some(5),
                                assists: Some(1),
                                win: Some(false),
                            }),
                        },
                        LcuParticipant {
                            participant_id: Some(2),
                            champion_id: Some(103),
                            champion_name: None,
                            stats: Some(LcuParticipantStats {
                                kills: Some(7),
                                deaths: Some(1),
                                assists: Some(8),
                                win: Some(true),
                            }),
                        },
                    ],
                    participant_identities: vec![LcuParticipantIdentity {
                        participant_id: Some(2),
                        player: Some(LcuPlayer {
                            summoner_id: Some(99),
                            account_id: Some(55),
                            current_account_id: None,
                            puuid: Some("self-puuid".to_string()),
                        }),
                    }],
                }],
            }),
        },
        &summoner,
        &champion_names,
    );

    assert_eq!(matches.len(), 1);
    assert_eq!(matches[0].champion_name, "Ahri");
    assert_eq!(matches[0].queue_name.as_deref(), Some("Ranked Solo/Duo"));
    assert_eq!(matches[0].kda, Some(150));
    assert_eq!(matches[0].result, MatchResult::Win);
}

#[test]
fn optional_ranked_failure_returns_partial_snapshot() {
    let data = compose_self_data(
        &sample_summoner(),
        Ok(vec![LcuChampionSummary {
            id: 103,
            name: "Ahri".to_string(),
        }]),
        Err(LcuRequestError::Unavailable),
        Ok(empty_match_history()),
    );

    assert_eq!(data.status.phase, LeagueClientPhase::PartialData);
    assert_eq!(data.summoner.unwrap().display_name, "Player");
    assert_eq!(data.data_warnings.len(), 1);
    assert_eq!(data.data_warnings[0].section, LeagueDataSection::Ranked);
}

#[test]
fn malformed_optional_payload_does_not_drop_summoner() {
    let data = compose_self_data(
        &sample_summoner(),
        Err(LcuRequestError::Unexpected),
        Ok(LcuRankedStats { queues: Vec::new() }),
        Err(LcuRequestError::Unexpected),
    );

    assert_eq!(data.status.phase, LeagueClientPhase::PartialData);
    assert!(data.summoner.is_some());
    assert_eq!(data.data_warnings.len(), 2);
    assert!(data
        .data_warnings
        .iter()
        .all(|warning| !warning.message.contains(TEST_LOCKFILE_VALUE)));
}

#[test]
fn missing_override_path_reports_lockfile_missing() {
    let path = "missing-lockfile-for-test".to_string();
    let exists = std::path::Path::new(path.as_str()).exists();

    assert!(matches!(
        discover_lockfile(&Some(path), exists, &Vec::new()),
        LockfileDiscovery::LockfileMissing
    ));
}

#[test]
fn self_data_warnings_follow_section_order() {
    let data = compose_self_data(
        &sample_summoner(),
        Err(LcuRequestError::Unexpected),
        Err(LcuRequestError::Unavailable),
        Err(LcuRequestError::Unauthorized),
    );

    let sections: Vec<LeagueDataSection> =
        data.data_warnings.iter().map(|warning| warning.section).collect();
    assert_eq!(
        sections,
        vec![LeagueDataSection::Champions, LeagueDataSection::Ranked, LeagueDataSection::Matches]
    );
    assert_eq!(data.data_warnings[0].message, "Champion names returned an unexpected response");
    assert_eq!(data.data_warnings[1].message, "Ranked data is temporarily unavailable");
    assert_eq!(data.data_warnings[2].message, "Recent matches could not be read");
    assert_eq!(data.status.connection, LeagueClientConnection::Connected);
    assert_eq!(data.status.message.as_deref(), Some("League Client connected with partial data"));
    assert!(data.ranked_queues.is_empty());
    assert!(data.recent_matches.is_empty());
}
