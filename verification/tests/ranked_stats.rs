use lol_desktop_assistant::application::get_ranked_champion_stats;
use lol_desktop_assistant::errors::{
    ApplicationError, LeagueClientReadError, RankedChampionDataError,
};
use lol_desktop_assistant::ranked::{
    ranked_champion_stat, RankedChampionLane, RankedChampionSort, RankedChampionStat,
    RankedChampionStatsInput,
};
use lol_desktop_assistant::ranked_data::ranked_data_error;

#[test]
fn ranked_champion_stats_filters_lane_and_sorts_by_win_rate() {
    let response = get_ranked_champion_stats(RankedChampionStatsInput {
        lane: Some(RankedChampionLane::Jungle),
        sort_by: Some(RankedChampionSort::WinRate),
    });

    assert_eq!(response.lane, Some(RankedChampionLane::Jungle));
    assert_eq!(response.sort_by, RankedChampionSort::WinRate);
    assert!(response
        .records
        .iter()
        .all(|record| record.lane == RankedChampionLane::Jungle));
    assert!(response
        .records
        .windows(2)
        .all(|records| records[0].win_rate >= records[1].win_rate));
}

#[test]
fn league_client_error_codes_are_stable() {
    let unavailable = ApplicationError::from(LeagueClientReadError::ClientUnavailable(
        "League Client is not running".to_string(),
    ));
    let access = ApplicationError::from(LeagueClientReadError::ClientAccess(
        "League Client rejected local authentication".to_string(),
    ));
    let integration = ApplicationError::from(LeagueClientReadError::Integration(
        "League Client returned an unexpected response".to_string(),
    ));

    assert_eq!(unavailable.code(), "clientUnavailable");
    assert_eq!(access.code(), "clientAccess");
    assert_eq!(integration.code(), "integration");
}

fn sample_row(champion_id: i64, lane: RankedChampionLane) -> RankedChampionStat {
    ranked_champion_stat(champion_id, "Sample", lane, 505, 100, 50, 1000)
}

fn one_row_per_lane() -> Vec<RankedChampionStat> {
    vec![
        sample_row(1, RankedChampionLane::Top),
        sample_row(2, RankedChampionLane::Jungle),
        sample_row(3, RankedChampionLane::Middle),
        sample_row(4, RankedChampionLane::Bottom),
        sample_row(5, RankedChampionLane::Support),
    ]
}

fn invalid_data_message(error: Option<RankedChampionDataError>) -> String {
    match error {
        Some(RankedChampionDataError::InvalidData(message)) => message,
        other => panic!("expected invalid data, got {other:?}"),
    }
}

#[test]
fn ranked_champion_stat_rounds_shares_of_games() {
    let stat = ranked_champion_stat(266, "Aatrox", RankedChampionLane::Top, 508, 89, 124, 184000);
    assert_eq!(stat.overall_score, 326);
    assert_eq!(stat.wins, 93472);
    assert_eq!(stat.bans, 22816);
    assert_eq!(stat.picks, 184000);
    assert_eq!(stat.champion_alias, None);
}

#[test]
fn ranked_data_with_every_lane_passes() {
    assert_eq!(ranked_data_error(1, &one_row_per_lane()), None);
}

#[test]
fn ranked_data_rejects_other_format_versions() {
    assert_eq!(
        invalid_data_message(ranked_data_error(2, &one_row_per_lane())),
        "Ranked champion data uses an unsupported format version"
    );
}

#[test]
fn ranked_data_rejects_percentages_above_one_hundred() {
    let mut rows = one_row_per_lane();
    rows[2].ban_rate = 1001;
    assert_eq!(
        invalid_data_message(ranked_data_error(1, &rows)),
        "Ranked champion data has a percentage outside 0 to 100"
    );
}

#[test]
fn ranked_data_rejects_a_champion_twice_in_one_lane() {
    let mut rows = one_row_per_lane();
    rows.push(sample_row(3, RankedChampionLane::Middle));
    assert_eq!(
        invalid_data_message(ranked_data_error(1, &rows)),
        "Ranked champion data lists a champion twice for one lane"
    );
    rows.pop();
    rows.push(sample_row(3, RankedChampionLane::Top));
    assert_eq!(ranked_data_error(1, &rows), None);
}

#[test]
fn ranked_data_requires_every_lane() {
    let mut rows = one_row_per_lane();
    rows.remove(4);
    assert_eq!(
        invalid_data_message(ranked_data_error(1, &rows)),
        "Ranked champion data has no entry for some lane"
    );
}
