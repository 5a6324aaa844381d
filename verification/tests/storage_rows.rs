use lol_desktop_assistant::domain::{
    ActivityKind, AppLanguagePreference, SettingsValues, StartupPage,
};
use lol_desktop_assistant::ranked::RankedChampionLane;
use lol_desktop_assistant::storage::{
    activity_entry_from_row, bool_to_int, int_to_bool, migrations, pending_migrations,
    player_note_tags_json, ranked_entry_from_row, settings_columns, settings_from_row,
    stored_note_from_row, RankedEntryRow, SettingsRow, SqliteStore, StorageError,
};

fn settings_row(startup_page: &str, language: &str) -> SettingsRow {
    SettingsRow {
        startup_page: startup_page.to_string(),
        language: language.to_string(),
        compact_mode: 1,
        activity_limit: 50,
        auto_accept_enabled: 0,
        auto_pick_enabled: 2,
        auto_pick_champion_id: Some(103),
        auto_ban_enabled: 0,
        auto_ban_champion_id: None,
        updated_at: "2024-01-01 00:00:00".to_string(),
    }
}

fn ranked_row(lane: &str) -> RankedEntryRow {
    RankedEntryRow {
        champion_id: 103,
        champion_name: "Ahri".to_string(),
        champion_alias: Some("Ahri".to_string()),
        lane: lane.to_string(),
        games: 1000,
        wins: 511,
        picks: 1000,
        bans: 83,
        win_rate: 511,
        pick_rate: 96,
        ban_rate: 83,
        overall_score: 321,
    }
}

#[test]
fn store_keeps_its_database_path() {
    let store = SqliteStore::at_path("/tmp/app.sqlite".to_string());
    assert_eq!(store.database_path(), "/tmp/app.sqlite");
}

#[test]
fn migrations_are_listed_in_version_order() {
    let all = migrations();
    let versions: Vec<i64> = all.iter().map(|(version, _)| *version).collect();
    assert_eq!(versions, vec![1, 2, 3, 4, 5, 6]);
    assert_eq!(all[0].1, "initial_schema");
    assert_eq!(all[5].1, "language_preference");
}

#[test]
fn pending_migrations_skip_applied_versions() {
    assert_eq!(pending_migrations(&vec![]).len(), 6);
    let pending = pending_migrations(&vec![1, 2, 4]);
    assert_eq!(
        pending,
        vec![
            (3, "player_notes"),
            (5, "lobby_automation_settings"),
            (6, "language_preference"),
        ]
    );
    assert!(pending_migrations(&vec![6, 5, 4, 3, 2, 1]).is_empty());
}

#[test]
fn flags_are_stored_as_integers() {
    assert_eq!(bool_to_int(true), 1);
    assert_eq!(bool_to_int(false), 0);
    assert!(int_to_bool(2));
    assert!(!int_to_bool(0));
}

#[test]
fn settings_rows_become_settings() {
    let settings = settings_from_row(settings_row("activity", "zh")).expect("valid row");
    assert_eq!(settings.startup_page, StartupPage::Activity);
    assert_eq!(settings.language, AppLanguagePreference::Zh);
    assert!(settings.compact_mode);
    assert_eq!(settings.activity_limit, 50);
    assert!(!settings.auto_accept_enabled);
    assert!(settings.auto_pick_enabled);
    assert_eq!(settings.auto_pick_champion_id, Some(103));
    assert_eq!(settings.auto_ban_champion_id, None);
    assert_eq!(settings.updated_at, "2024-01-01 00:00:00");
}

#[test]
fn settings_rows_with_unknown_values_are_rejected() {
    assert_eq!(
        settings_from_row(settings_row("home", "zh")),
        Err(StorageError::InvalidStartupPage("home".to_string()))
    );
    assert_eq!(
        settings_from_row(settings_row("dashboard", "fr")),
        Err(StorageError::InvalidLanguagePreference("fr".to_string()))
    );
}

#[test]
fn settings_become_columns() {
    let columns = settings_columns(&SettingsValues {
        startup_page: StartupPage::Settings,
        language: AppLanguagePreference::En,
        compact_mode: false,
        activity_limit: 100,
        auto_accept_enabled: true,
        auto_pick_enabled: false,
        auto_pick_champion_id: None,
        auto_ban_enabled: true,
        auto_ban_champion_id: Some(89),
    });
    assert_eq!(columns.startup_page, "settings");
    assert_eq!(columns.language, "en");
    assert_eq!(columns.compact_mode, 0);
    assert_eq!(columns.auto_accept_enabled, 1);
    assert_eq!(columns.auto_ban_enabled, 1);
    assert_eq!(columns.auto_ban_champion_id, Some(89));
}

#[test]
fn activity_rows_need_a_known_kind() {
    let entry = activity_entry_from_row(
        7,
        "note".to_string(),
        "Title".to_string(),
        None,
        "2024-01-01".to_string(),
    )
    .expect("known kind");
    assert_eq!(entry.id, 7);
    assert_eq!(entry.kind, ActivityKind::Note);
    assert_eq!(
        activity_entry_from_row(8, "alert".to_string(), "T".to_string(), None, "d".to_string()),
        Err(StorageError::InvalidActivityKind("alert".to_string()))
    );
}

#[test]
fn ranked_rows_need_a_known_lane() {
    let stat = ranked_entry_from_row(ranked_row("middle")).expect("known lane");
    assert_eq!(stat.lane, RankedChampionLane::Middle);
    assert_eq!(stat.overall_score, 321);
    assert_eq!(stat.champion_alias, Some("Ahri".to_string()));
    assert_eq!(
        ranked_entry_from_row(ranked_row("mid")),
        Err(StorageError::InvalidRankedChampionLane("mid".to_string()))
    );
}

#[test]
fn storage_errors_have_stable_messages() {
    assert_eq!(
        StorageError::InvalidStartupPage("home".to_string()).message(),
        "invalid startup page: home"
    );
    assert_eq!(
        StorageError::MissingSchemaVersion.message(),
        "schema version metadata is missing"
    );
    assert_eq!(
        StorageError::Sqlite("disk I/O error".to_string()).message(),
        "sqlite error: disk I/O error"
    );
}

#[test]
fn note_rows_read_their_tags_from_json() {
    let note = stored_note_from_row(
        "puuid-1".to_string(),
        "Ahri Main".to_string(),
        Some("calm".to_string()),
        "[\"shotcaller\",\"duo\"]".to_string(),
        "2024-01-01".to_string(),
    )
    .expect("tags parse");
    assert_eq!(note.tags, vec!["shotcaller".to_string(), "duo".to_string()]);
    assert_eq!(note.player_puuid, "puuid-1");
    assert_eq!(note.note, Some("calm".to_string()));
}

#[test]
fn note_rows_with_broken_tags_are_rejected() {
    let result = stored_note_from_row(
        "puuid-1".to_string(),
        "Ahri Main".to_string(),
        None,
        "not json".to_string(),
        "2024-01-01".to_string(),
    );
    match result {
        Err(StorageError::InvalidPlayerTags(message)) => assert!(!message.is_empty()),
        other => panic!("expected invalid tags, got {other:?}"),
    }
}

#[test]
fn note_tags_are_written_as_json() {
    assert_eq!(
        player_note_tags_json(&vec!["shotcaller".to_string(), "duo".to_string()]),
        Ok("[\"shotcaller\",\"duo\"]".to_string())
    );
    assert_eq!(player_note_tags_json(&vec![]), Ok("[]".to_string()));
}

#[test]
fn note_tags_json_escapes_quotes_backslashes_and_controls() {
    assert_eq!(
        player_note_tags_json(&vec![
            "a\"b".to_string(),
            "c\\d\n".to_string(),
            "\u{1}\u{1f}é".to_string(),
        ]),
        Ok("[\"a\\\"b\",\"c\\\\d\\n\",\"\\u0001\\u001fé\"]".to_string())
    );
}
