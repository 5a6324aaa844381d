use std::collections::HashMap;
use std::cell::RefCell;
use std::sync::Mutex;

use lol_desktop_assistant::application::{
    app_snapshot, settings_save_step, stamped_snapshot, SaveStep, clear_activity_entries, create_activity_note, export_local_data, get_ranked_champion_stats,
    get_ranked_champion_stats_from_store, import_local_data, list_activity_entries,
    player_note_summary, refresh_ranked_champion_stats, save_player_note_for_resolved_player,
    save_settings, ActivityListInput, AppStore, LeagueChampionIconInput, LeagueGameAssetInput,
    LeagueProfileIconInput, LeagueSelfSnapshotInput, ParticipantPublicProfileInput,
    PostMatchDetailInput, RankedChampionDataProvider, SavePlayerNoteInput, StoredPlayerNote,
    StoredPlayerNoteInput,
};
use lol_desktop_assistant::automation::{
    ready_check_start, ready_check_step, ReadyCheckAction, ReadyCheckEvent,
};
use lol_desktop_assistant::champ_select::{ChampSelectSessionData, SummonerBatchEntry};
use lol_desktop_assistant::domain::{
    ActivityEntry, ActivityKind, AppLanguagePreference, AppSettings, ImportLocalDataResult,
    KdaTag, LeagueChampionAbility, LeagueChampionDetails, LeagueChampionSummary,
    LeagueClientConnection, LeagueClientPhase, LeagueClientStatus, LeagueDataSection,
    LeagueDataWarning, LeagueGameAsset, LeagueGameAssetKind, LeagueImageAsset, LeagueSelfData,
    LocalActivityEntry, LocalDataExport, MatchResult, NewActivityEntry, ParticipantRecentStats,
    RecentMatchSummary, SettingsValues, StartupPage,
};
use lol_desktop_assistant::errors::{
    ApplicationError, LeagueClientReadError, RankedChampionDataError,
};
use lol_desktop_assistant::postmatch::{
    completed_participant, post_match_detail_from_completed_match, recent_stats_request,
    get_post_match_detail, get_post_match_participant_profile, LeagueCompletedMatch,
    LeagueCompletedParticipant,
};
use lol_desktop_assistant::ranked::{
    ranked_sort_value, RankedChampionDataSnapshot, RankedChampionDataStatus, RankedChampionLane,
    RankedChampionRefreshInput, RankedChampionSort, RankedChampionStat, RankedChampionStatsInput,
};
use lol_desktop_assistant::reader::{
    get_champ_select_snapshot, get_league_champion_icon, get_league_game_asset,
    get_league_profile_icon, get_league_self_snapshot, LeagueClientReader,
};
use lol_desktop_assistant::text::normalize_player_name;
use lol_desktop_assistant::validation::{
    validate_activity_note, validate_settings, ActivityNoteInput, SettingsInput,
};

// ---------------------------------------------------------------------------
// Fakes

struct FakeStore {
    settings: RefCell<AppSettings>,
    activity_entries: RefCell<Vec<ActivityEntry>>,
    created_entries: RefCell<Vec<NewActivityEntry>>,
    imported_entries: RefCell<Vec<LocalActivityEntry>>,
    player_notes: RefCell<Vec<StoredPlayerNote>>,
    ranked_snapshot: RefCell<Option<RankedChampionDataSnapshot>>,
    last_activity_query: RefCell<Option<(i64, Option<ActivityKind>)>>,
    import_count: RefCell<usize>,
    clear_count: RefCell<usize>,
}

impl FakeStore {
    fn new(settings: AppSettings) -> Self {
        Self {
            settings: RefCell::new(settings),
            activity_entries: RefCell::new(Vec::new()),
            created_entries: RefCell::new(Vec::new()),
            imported_entries: RefCell::new(Vec::new()),
            player_notes: RefCell::new(Vec::new()),
            ranked_snapshot: RefCell::new(None),
            last_activity_query: RefCell::new(None),
            import_count: RefCell::new(0),
            clear_count: RefCell::new(0),
        }
    }
}

impl AppStore for FakeStore {
    fn schema_version(&self) -> Result<i64, String> {
        Ok(2)
    }

    fn get_settings(&self) -> Result<AppSettings, String> {
        Ok(self.settings.borrow().clone())
    }

    fn save_settings(&self, settings: SettingsValues) -> Result<AppSettings, String> {
        let updated = AppSettings {
            startup_page: settings.startup_page,
            language: settings.language,
            compact_mode: settings.compact_mode,
            activity_limit: settings.activity_limit,
            auto_accept_enabled: settings.auto_accept_enabled,
            auto_pick_enabled: settings.auto_pick_enabled,
            auto_pick_champion_id: settings.auto_pick_champion_id,
            auto_ban_enabled: settings.auto_ban_enabled,
            auto_ban_champion_id: settings.auto_ban_champion_id,
            updated_at: "2026-04-18 00:00:00".to_string(),
        };

        self.settings.replace(updated.clone());
        Ok(updated)
    }

    fn list_activity_entries(
        &self,
        limit: i64,
        kind: Option<ActivityKind>,
    ) -> Result<Vec<ActivityEntry>, String> {
        self.last_activity_query.replace(Some((limit, kind)));

        Ok(self
            .activity_entries
            .borrow()
            .iter()
            .filter(|entry| kind.is_none_or(|value| entry.kind == value))
            .take(limit as usize)
            .cloned()
            .collect())
    }

    fn list_all_activity_entries(&self) -> Result<Vec<ActivityEntry>, String> {
        Ok(self.activity_entries.borrow().clone())
    }

    fn create_activity_entry(&self, entry: NewActivityEntry) -> Result<ActivityEntry, String> {
        self.created_entries.borrow_mut().push(entry.clone());

        Ok(ActivityEntry {
            id: self.created_entries.borrow().len() as i64,
            kind: entry.kind,
            title: entry.title,
            body: entry.body,
            created_at: "2026-04-18 00:00:00".to_string(),
        })
    }

    fn import_local_data(
        &self,
        settings: SettingsValues,
        activity_entries: Vec<LocalActivityEntry>,
    ) -> Result<ImportLocalDataResult, String> {
        *self.import_count.borrow_mut() += 1;
        let imported_activity_count = activity_entries.len();
        self.imported_entries.borrow_mut().extend(activity_entries);

        let settings = self.save_settings(settings)?;

        Ok(ImportLocalDataResult {
            settings,
            imported_activity_count,
        })
    }

    fn clear_activity_entries(&self) -> Result<i64, String> {
        *self.clear_count.borrow_mut() += 1;
        let deleted_count = self.activity_entries.borrow().len() as i64;
        self.activity_entries.borrow_mut().clear();
        Ok(deleted_count)
    }

    fn get_player_note(&self, player_puuid: &str) -> Result<Option<StoredPlayerNote>, String> {
        Ok(self
            .player_notes
            .borrow()
            .iter()
            .find(|note| note.player_puuid == player_puuid)
            .cloned())
    }

    fn save_player_note(&self, note: StoredPlayerNoteInput) -> Result<StoredPlayerNote, String> {
        let saved = StoredPlayerNote {
            player_puuid: note.player_puuid,
            last_display_name: note.last_display_name,
            note: note.note,
            tags: note.tags,
            updated_at: "2026-04-20 00:00:00".to_string(),
        };
        let mut notes = self.player_notes.borrow_mut();

        if let Some(existing) = notes
            .iter_mut()
            .find(|note| note.player_puuid == saved.player_puuid)
        {
            *existing = saved.clone();
        } else {
            notes.push(saved.clone());
        }

        Ok(saved)
    }

    fn clear_player_note(&self, player_puuid: &str) -> Result<bool, String> {
        let mut notes = self.player_notes.borrow_mut();
        let before = notes.len();
        notes.retain(|note| note.player_puuid != player_puuid);

        Ok(before != notes.len())
    }

    fn latest_ranked_champion_snapshot(&self) -> Result<Option<RankedChampionDataSnapshot>, String> {
        Ok(self.ranked_snapshot.borrow().clone())
    }

    fn replace_ranked_champion_snapshot(
        &self,
        snapshot: RankedChampionDataSnapshot,
    ) -> Result<RankedChampionDataSnapshot, String> {
        self.ranked_snapshot.replace(Some(snapshot.clone()));
        Ok(snapshot)
    }
}

struct FakeRankedChampionProvider {
    snapshot: RankedChampionDataSnapshot,
}

impl RankedChampionDataProvider for FakeRankedChampionProvider {
    fn fetch_ranked_champion_snapshot(
        &self,
        _input: RankedChampionRefreshInput,
    ) -> Result<RankedChampionDataSnapshot, RankedChampionDataError> {
        Ok(self.snapshot.clone())
    }
}

struct FailingRankedChampionProvider;

impl RankedChampionDataProvider for FailingRankedChampionProvider {
    fn fetch_ranked_champion_snapshot(
        &self,
        _input: RankedChampionRefreshInput,
    ) -> Result<RankedChampionDataSnapshot, RankedChampionDataError> {
        Err(RankedChampionDataError::Unavailable("remote unavailable".to_string()))
    }
}

fn default_settings() -> AppSettings {
    AppSettings {
        startup_page: StartupPage::Dashboard,
        language: AppLanguagePreference::System,
        compact_mode: false,
        activity_limit: 100,
        auto_accept_enabled: true,
        auto_pick_enabled: false,
        auto_pick_champion_id: None,
        auto_ban_enabled: false,
        auto_ban_champion_id: None,
        updated_at: "2026-04-18 00:00:00".to_string(),
    }
}

fn sample_activity(id: i64) -> ActivityEntry {
    ActivityEntry {
        id,
        kind: ActivityKind::Note,
        title: format!("Activity {id}"),
        body: None,
        created_at: "2026-04-18 00:00:00".to_string(),
    }
}

fn sample_ranked_snapshot(source: &str) -> RankedChampionDataSnapshot {
    RankedChampionDataSnapshot {
        source: source.to_string(),
        patch: Some("26.08".to_string()),
        region: Some("KR".to_string()),
        queue: Some("RANKED_SOLO_5X5".to_string()),
        tier: Some("EMERALD_PLUS".to_string()),
        generated_at: Some("2026-04-25T00:00:00Z".to_string()),
        imported_at: "2026-04-25 00:00:00".to_string(),
        records: vec![
            RankedChampionStat {
                champion_id: 103,
                champion_name: "Ahri".to_string(),
                champion_alias: Some("Ahri".to_string()),
                lane: RankedChampionLane::Middle,
                win_rate: 514,
                pick_rate: 100,
                ban_rate: 80,
                overall_score: 900,
                games: 1000,
                wins: 514,
                picks: 1000,
                bans: 80,
            },
            RankedChampionStat {
                champion_id: 222,
                champion_name: "Jinx".to_string(),
                champion_alias: Some("Jinx".to_string()),
                lane: RankedChampionLane::Bottom,
                win_rate: 521,
                pick_rate: 120,
                ban_rate: 60,
                overall_score: 880,
                games: 1200,
                wins: 625,
                picks: 1200,
                bans: 72,
            },
        ],
    }
}

struct FakeLeagueClientReader {
    champ_select_session: ChampSelectSessionData,
    data: LeagueSelfData,
    completed_match: Mutex<Option<LeagueCompletedMatch>>,
    failed_recent_puuids: Vec<String>,
    gameflow_phase: Mutex<String>,
    last_match_limit: Mutex<Option<i64>>,
    ready_check_accepts: Mutex<i64>,
    ready_check_clears_after: Option<i64>,
    ready_check_next_phase: String,
    ready_check_accept_error: Option<LeagueClientReadError>,
    recent_stats_batch_calls: Mutex<Vec<Vec<String>>>,
    summoners_by_id: Vec<SummonerBatchEntry>,
    summoners_by_name: Vec<SummonerBatchEntry>,
}

fn empty_session() -> ChampSelectSessionData {
    ChampSelectSessionData {
        ally_ids: Vec::new(),
        enemy_ids: Vec::new(),
        champion_selections: HashMap::new(),
        ally_names: Vec::new(),
        enemy_names: Vec::new(),
        champion_selections_by_name: Vec::new(),
    }
}

impl FakeLeagueClientReader {
    fn new(recent_matches: Vec<RecentMatchSummary>) -> Self {
        Self::with_data(LeagueSelfData {
            status: connected_status(),
            summoner: None,
            ranked_queues: Vec::new(),
            recent_matches,
            data_warnings: Vec::new(),
        })
    }

    fn with_data(data: LeagueSelfData) -> Self {
        Self {
            champ_select_session: empty_session(),
            data,
            completed_match: Mutex::new(None),
            failed_recent_puuids: Vec::new(),
            gameflow_phase: Mutex::new("None".to_string()),
            last_match_limit: Mutex::new(None),
            ready_check_accepts: Mutex::new(0),
            ready_check_clears_after: None,
            ready_check_next_phase: "ChampSelect".to_string(),
            ready_check_accept_error: None,
            recent_stats_batch_calls: Mutex::new(Vec::new()),
            summoners_by_id: Vec::new(),
            summoners_by_name: Vec::new(),
        }
    }

    fn with_completed_match(completed_match: LeagueCompletedMatch) -> Self {
        let reader = Self::new(Vec::new());
        *reader.completed_match.lock().unwrap() = Some(completed_match);
        reader
    }

    fn with_champ_select_data(
        champ_select_session: ChampSelectSessionData,
        summoners_by_id: Vec<SummonerBatchEntry>,
        failed_recent_puuids: Vec<String>,
    ) -> Self {
        let mut reader = Self::new(Vec::new());
        reader.champ_select_session = champ_select_session;
        reader.summoners_by_id = summoners_by_id;
        reader.failed_recent_puuids = failed_recent_puuids;
        reader
    }

    fn with_ready_check_phase(self) -> Self {
        *self.gameflow_phase.lock().unwrap() = "ReadyCheck".to_string();
        self
    }

    fn with_phase_transition_after_accepts(mut self, accepts: i64, next_phase: &str) -> Self {
        *self.gameflow_phase.lock().unwrap() = "ReadyCheck".to_string();
        self.ready_check_clears_after = Some(accepts);
        self.ready_check_next_phase = next_phase.to_string();
        if accepts <= 0 {
            *self.gameflow_phase.lock().unwrap() = next_phase.to_string();
        }
        self
    }

    fn with_ready_check_accept_error(mut self, error: LeagueClientReadError) -> Self {
        *self.gameflow_phase.lock().unwrap() = "ReadyCheck".to_string();
        self.ready_check_accept_error = Some(error);
        self
    }

    fn accept_ready_check_count(&self) -> i64 {
        *self.ready_check_accepts.lock().unwrap()
    }

    fn recent_stats_batch_calls(&self) -> Vec<Vec<String>> {
        self.recent_stats_batch_calls.lock().unwrap().clone()
    }
}

impl LeagueClientReader for FakeLeagueClientReader {
    fn status(&self) -> Result<LeagueClientStatus, LeagueClientReadError> {
        Ok(self.data.status.clone())
    }

    fn gameflow_phase(&self) -> Result<String, LeagueClientReadError> {
        Ok(self.gameflow_phase.lock().unwrap().clone())
    }

    fn self_data(&self, match_limit: i64) -> Result<LeagueSelfData, LeagueClientReadError> {
        *self.last_match_limit.lock().unwrap() = Some(match_limit);

        Ok(LeagueSelfData {
            status: self.data.status.clone(),
            summoner: self.data.summoner.clone(),
            ranked_queues: self.data.ranked_queues.clone(),
            recent_matches: self
                .data
                .recent_matches
                .iter()
                .take(match_limit as usize)
                .cloned()
                .collect(),
            data_warnings: self.data.data_warnings.clone(),
        })
    }

    fn profile_icon(&self, profile_icon_id: i64) -> Result<LeagueImageAsset, LeagueClientReadError> {
        Ok(LeagueImageAsset {
            mime_type: "image/jpeg".to_string(),
            bytes: vec![profile_icon_id as u8],
        })
    }

    fn champion_icon(&self, champion_id: i64) -> Result<LeagueImageAsset, LeagueClientReadError> {
        Ok(LeagueImageAsset {
            mime_type: "image/png".to_string(),
            bytes: vec![champion_id as u8],
        })
    }

    fn game_asset(
        &self,
        kind: LeagueGameAssetKind,
        asset_id: i64,
    ) -> Result<LeagueGameAsset, LeagueClientReadError> {
        Ok(LeagueGameAsset {
            kind,
            asset_id,
            name: format!("{kind:?} {asset_id}"),
            description: Some("Local game data asset".to_string()),
            image: LeagueImageAsset {
                mime_type: "image/png".to_string(),
                bytes: vec![asset_id as u8],
            },
        })
    }

    fn completed_match(&self, game_id: i64) -> Result<LeagueCompletedMatch, LeagueClientReadError> {
        self.completed_match
            .lock()
            .unwrap()
            .clone()
            .filter(|completed_match| completed_match.game_id == game_id)
            .ok_or_else(|| {
                LeagueClientReadError::Integration(
                    "Completed match was not found in current user's recent history".to_string(),
                )
            })
    }

    fn participant_recent_stats(
        &self,
        player_puuid: &str,
        limit: i64,
    ) -> Result<ParticipantRecentStats, LeagueClientReadError> {
        if self
            .failed_recent_puuids
            .iter()
            .any(|value| value == player_puuid)
        {
            return Err(LeagueClientReadError::Integration(
                "Recent stats unavailable".to_string(),
            ));
        }

        let recent_matches = (1..=limit)
            .map(|id| sample_match(id, format!("Recent Champion {id}").as_str(), 5, 2, 7))
            .collect();

        Ok(ParticipantRecentStats {
            match_count: limit as usize,
            average_kda: Some(35),
            recent_champions: vec!["Ahri".to_string()],
            recent_matches,
        })
    }

    fn participant_recent_stats_batch(
        &self,
        player_puuids: &[String],
        limit: i64,
    ) -> Vec<(String, Result<ParticipantRecentStats, LeagueClientReadError>)> {
        self.recent_stats_batch_calls
            .lock()
            .unwrap()
            .push(player_puuids.to_vec());

        player_puuids
            .iter()
            .map(|player_puuid| {
                (
                    player_puuid.clone(),
                    self.participant_recent_stats(player_puuid, limit),
                )
            })
            .collect()
    }

    fn champ_select_session(&self) -> Result<ChampSelectSessionData, LeagueClientReadError> {
        Ok(self.champ_select_session.clone())
    }

    fn summoners_by_ids(&self, ids: &[i64]) -> Vec<SummonerBatchEntry> {
        self.summoners_by_id
            .iter()
            .filter(|entry| ids.contains(&entry.summoner_id))
            .cloned()
            .collect()
    }

    fn summoners_by_names(&self, names: &[String]) -> Vec<SummonerBatchEntry> {
        let normalized_names: Vec<String> = names
            .iter()
            .map(|name| normalize_player_name(name.as_str()))
            .collect();
        self.summoners_by_name
            .iter()
            .filter(|entry| {
                normalized_names.contains(&normalize_player_name(entry.display_name.as_str()))
            })
            .cloned()
            .collect()
    }

    fn champion_catalog(&self) -> Result<Vec<LeagueChampionSummary>, LeagueClientReadError> {
        Ok(vec![LeagueChampionSummary {
            champion_id: 103,
            champion_name: "Ahri".to_string(),
        }])
    }

    fn champion_details(
        &self,
        champion_id: i64,
    ) -> Result<LeagueChampionDetails, LeagueClientReadError> {
        Ok(LeagueChampionDetails {
            champion_id,
            champion_name: "Ahri".to_string(),
            title: Some("the Nine-Tailed Fox".to_string()),
            square_portrait: Some(LeagueImageAsset {
                mime_type: "image/png".to_string(),
                bytes: vec![champion_id as u8],
            }),
            abilities: vec![LeagueChampionAbility {
                slot: "Q".to_string(),
                name: "Orb of Deception".to_string(),
                description: "Ahri sends out and pulls back her orb.".to_string(),
                icon: Some(LeagueImageAsset {
                    mime_type: "image/png".to_string(),
                    bytes: vec![1],
                }),
                cooldown: Some("7".to_string()),
                cost: Some("55".to_string()),
                range: Some("880".to_string()),
            }],
        })
    }

    fn accept_ready_check(&self) -> Result<(), LeagueClientReadError> {
        let mut accept_count = self.ready_check_accepts.lock().unwrap();
        *accept_count += 1;

        if let Some(target_accepts) = self.ready_check_clears_after {
            if *accept_count >= target_accepts {
                *self.gameflow_phase.lock().unwrap() = self.ready_check_next_phase.clone();
            }
        }

        if let Some(error) = &self.ready_check_accept_error {
            return Err(error.clone());
        }

        Ok(())
    }

    fn apply_champ_select_preferences(
        &self,
        _pick_champion_id: Option<i64>,
        _ban_champion_id: Option<i64>,
    ) -> Result<(), LeagueClientReadError> {
        Ok(())
    }
}

fn connected_status() -> LeagueClientStatus {
    LeagueClientStatus {
        is_running: true,
        lockfile_found: true,
        connection: LeagueClientConnection::Connected,
        phase: LeagueClientPhase::Connected,
        message: None,
    }
}

fn high_kda_match(id: i64) -> RecentMatchSummary {
    sample_match(id, format!("Champion {id}").as_str(), 6, 1, 4)
}

fn sample_match(
    game_id: i64,
    champion_name: &str,
    kills: i64,
    deaths: i64,
    assists: i64,
) -> RecentMatchSummary {
    RecentMatchSummary {
        game_id,
        champion_id: Some(game_id),
        champion_name: champion_name.to_string(),
        queue_name: Some("Ranked Solo/Duo".to_string()),
        result: MatchResult::Win,
        kills,
        deaths,
        assists,
        kda: None,
        played_at: Some("2026-04-19T12:00:00Z".to_string()),
        game_duration_seconds: Some(1800),
    }
}

fn sample_completed_match() -> LeagueCompletedMatch {
    LeagueCompletedMatch {
        game_id: 10,
        queue_name: Some("Ranked Solo/Duo".to_string()),
        played_at: Some("2026-04-19T12:00:00Z".to_string()),
        game_duration_seconds: Some(1880),
        result: MatchResult::Win,
        participants: vec![
            LeagueCompletedParticipant {
                participant_id: 1,
                team_id: 100,
                display_name: "Player One".to_string(),
                player_puuid: Some("self-puuid".to_string()),
                profile_icon_id: Some(1),
                champion_id: Some(103),
                champion_name: "Ahri".to_string(),
                role: Some("SOLO".to_string()),
                lane: Some("MIDDLE".to_string()),
                result: MatchResult::Win,
                kills: 7,
                deaths: 1,
                assists: 8,
                kda: Some(150),
                cs: 210,
                gold_earned: 12_000,
                damage_to_champions: 22_000,
                vision_score: 18,
                items: vec![1056, 3020],
                runes: vec![8112],
                spells: vec![4, 14],
            },
            LeagueCompletedParticipant {
                participant_id: 2,
                team_id: 200,
                display_name: "Player Two".to_string(),
                player_puuid: Some("enemy-puuid".to_string()),
                profile_icon_id: Some(2),
                champion_id: Some(266),
                champion_name: "Aatrox".to_string(),
                role: Some("SOLO".to_string()),
                lane: Some("TOP".to_string()),
                result: MatchResult::Loss,
                kills: 5,
                deaths: 7,
                assists: 4,
                kda: Some(13),
                cs: 180,
                gold_earned: 10_000,
                damage_to_champions: 25_000,
                vision_score: 12,
                items: vec![1055, 3047],
                runes: vec![8010],
                spells: vec![4, 12],
            },
        ],
    }
}

/// Runs the auto-accept state machine against the fakes, as the desktop
/// shell does (without the waits).
fn run_ready_check_automation(
    store: &FakeStore,
    reader: &FakeLeagueClientReader,
) -> Result<(), ApplicationError> {
    let (mut state, mut action) = ready_check_start(store.get_settings());
    loop {
        let event = match action {
            ReadyCheckAction::ReadPhase => ReadyCheckEvent::Phase {
                phase: reader.gameflow_phase(),
            },
            ReadyCheckAction::Accept => ReadyCheckEvent::Accepted {
                result: reader.accept_ready_check(),
            },
            ReadyCheckAction::Wait { .. } => ReadyCheckEvent::Waited,
            ReadyCheckAction::RecordAndFail { entry, error } => {
                let _ = store.create_activity_entry(entry);
                return Err(error);
            }
            ReadyCheckAction::Finish { result } => return result,
        };
        let (next_state, next_action) = ready_check_step(state, event);
        state = next_state;
        action = next_action;
    }
}

// ---------------------------------------------------------------------------
// Settings and activity

#[test]
fn save_settings_does_not_log_activity_when_values_are_unchanged() {
    let store = FakeStore::new(default_settings());

    let result = save_settings(
        &store,
        SettingsInput {
            startup_page: "dashboard".to_string(),
            language: "system".to_string(),
            compact_mode: false,
            activity_limit: 100,
            auto_accept_enabled: true,
            auto_pick_enabled: false,
            auto_pick_champion_id: None,
            auto_ban_enabled: false,
            auto_ban_champion_id: None,
        },
    )
    .expect("settings save succeeds");

    assert_eq!(result.startup_page, StartupPage::Dashboard);
    assert_eq!(store.created_entries.borrow().len(), 0);
}

#[test]
fn save_settings_logs_activity_when_values_change() {
    let store = FakeStore::new(default_settings());

    let result = save_settings(
        &store,
        SettingsInput {
            startup_page: "activity".to_string(),
            language: "zh".to_string(),
            compact_mode: true,
            activity_limit: 50,
            auto_accept_enabled: false,
            auto_pick_enabled: true,
            auto_pick_champion_id: Some(103),
            auto_ban_enabled: true,
            auto_ban_champion_id: Some(122),
        },
    )
    .expect("settings save succeeds");

    assert_eq!(result.startup_page, StartupPage::Activity);
    assert_eq!(result.language, AppLanguagePreference::Zh);
    assert_eq!(result.activity_limit, 50);
    assert_eq!(store.created_entries.borrow().len(), 1);
    assert_eq!(store.created_entries.borrow()[0].kind, ActivityKind::Settings);
}

#[test]
fn ready_check_automation_respects_auto_accept_setting() {
    let mut settings = default_settings();
    settings.auto_accept_enabled = false;
    let store = FakeStore::new(settings);
    let reader = FakeLeagueClientReader::new(Vec::new()).with_ready_check_phase();

    run_ready_check_automation(&store, &reader).expect("automation runs");

    assert_eq!(reader.accept_ready_check_count(), 0);
}

#[test]
fn ready_check_automation_calls_reader_when_enabled_and_ready_check_is_active() {
    let store = FakeStore::new(default_settings());
    let reader = FakeLeagueClientReader::new(Vec::new())
        .with_phase_transition_after_accepts(1, "ChampSelect");

    run_ready_check_automation(&store, &reader).expect("automation runs");

    assert_eq!(reader.accept_ready_check_count(), 1);
}

#[test]
fn ready_check_automation_retries_until_phase_changes() {
    let store = FakeStore::new(default_settings());
    let reader = FakeLeagueClientReader::new(Vec::new())
        .with_phase_transition_after_accepts(3, "ChampSelect");

    run_ready_check_automation(&store, &reader).expect("automation runs");

    assert_eq!(reader.accept_ready_check_count(), 3);
}

#[test]
fn ready_check_automation_records_system_activity_when_ready_check_stays_active() {
    let store = FakeStore::new(default_settings());
    let reader = FakeLeagueClientReader::new(Vec::new()).with_ready_check_phase();

    let error = run_ready_check_automation(&store, &reader)
        .err()
        .expect("automation should fail");

    assert_eq!(
        error.message(),
        "Auto-accept did not move the client out of ReadyCheck after multiple verification attempts"
    );
    assert_eq!(reader.accept_ready_check_count(), 4);
    assert_eq!(store.created_entries.borrow().len(), 1);
    assert_eq!(store.created_entries.borrow()[0].kind, ActivityKind::System);
}

#[test]
fn ready_check_automation_records_system_activity_when_accept_call_errors() {
    let store = FakeStore::new(default_settings());
    let reader = FakeLeagueClientReader::new(Vec::new()).with_ready_check_accept_error(
        LeagueClientReadError::ClientUnavailable("League Client unavailable".to_string()),
    );

    let error = run_ready_check_automation(&store, &reader)
        .err()
        .expect("automation should fail");

    assert_eq!(error.code(), "clientUnavailable");
    assert_eq!(reader.accept_ready_check_count(), 1);
    assert_eq!(store.created_entries.borrow().len(), 1);
    assert_eq!(store.created_entries.borrow()[0].kind, ActivityKind::System);
}

#[test]
fn ready_check_automation_treats_accept_error_as_success_when_phase_moves() {
    let store = FakeStore::new(default_settings());
    let reader = FakeLeagueClientReader::new(Vec::new())
        .with_phase_transition_after_accepts(1, "ChampSelect")
        .with_ready_check_accept_error(LeagueClientReadError::Integration(
            "Ready check response was unavailable".to_string(),
        ));

    run_ready_check_automation(&store, &reader).expect("phase movement confirms accept");

    assert_eq!(reader.accept_ready_check_count(), 1);
    assert!(store.created_entries.borrow().is_empty());
}

#[test]
fn create_activity_note_trims_input() {
    let store = FakeStore::new(default_settings());

    let result = create_activity_note(
        &store,
        ActivityNoteInput {
            title: "  First note  ".to_string(),
            body: Some("  Body  ".to_string()),
        },
    )
    .expect("activity note is created");

    assert_eq!(result.title, "First note");
    assert_eq!(result.body.as_deref(), Some("Body"));
}

#[test]
fn list_activity_entries_passes_filter_to_store() {
    let store = FakeStore::new(default_settings());

    let _ = list_activity_entries(
        &store,
        ActivityListInput {
            limit: Some(25),
            kind: Some(ActivityKind::Note),
        },
    )
    .expect("activity entries list");

    assert_eq!(
        *store.last_activity_query.borrow(),
        Some((25, Some(ActivityKind::Note)))
    );
}

#[test]
fn export_local_data_includes_defaults_shape() {
    let store = FakeStore::new(default_settings());
    store.activity_entries.borrow_mut().push(sample_activity(1));

    let data = export_local_data(&store).expect("local data export");

    assert_eq!(data.format_version, 1);
    assert_eq!(data.settings.activity_limit, 100);
    assert_eq!(data.activity_entries.len(), 1);
    assert_eq!(data.activity_entries[0].created_at, "2026-04-18 00:00:00");
}

fn imported_settings(startup_page: StartupPage, compact_mode: bool, activity_limit: i64) -> SettingsValues {
    SettingsValues {
        startup_page,
        language: AppLanguagePreference::System,
        compact_mode,
        activity_limit,
        auto_accept_enabled: true,
        auto_pick_enabled: false,
        auto_pick_champion_id: None,
        auto_ban_enabled: false,
        auto_ban_champion_id: None,
    }
}

#[test]
fn import_local_data_rejects_invalid_json_without_writing() {
    let store = FakeStore::new(default_settings());

    let result = import_local_data(
        &store,
        LocalDataExport {
            format_version: 1,
            settings: imported_settings(StartupPage::Dashboard, false, 999),
            activity_entries: Vec::new(),
        },
    );

    assert!(matches!(result, Err(ApplicationError::Validation(_))));
    assert_eq!(*store.import_count.borrow(), 0);
}

#[test]
fn import_local_data_validates_then_writes() {
    let store = FakeStore::new(default_settings());

    let result = import_local_data(
        &store,
        LocalDataExport {
            format_version: 1,
            settings: imported_settings(StartupPage::Activity, true, 50),
            activity_entries: vec![LocalActivityEntry {
                kind: ActivityKind::Note,
                title: "Imported".to_string(),
                body: None,
                created_at: "2026-04-19 00:00:00".to_string(),
            }],
        },
    )
    .expect("local data import");

    assert_eq!(result.imported_activity_count, 1);
    assert_eq!(result.settings.startup_page, StartupPage::Activity);
    assert_eq!(*store.import_count.borrow(), 1);
}

#[test]
fn clear_activity_requires_confirmation() {
    let store = FakeStore::new(default_settings());

    let result = clear_activity_entries(&store, false);

    assert!(matches!(result, Err(ApplicationError::Validation(_))));
    assert_eq!(*store.clear_count.borrow(), 0);
}

#[test]
fn clear_activity_returns_deleted_count() {
    let store = FakeStore::new(default_settings());
    store.activity_entries.borrow_mut().push(sample_activity(1));
    store.activity_entries.borrow_mut().push(sample_activity(2));

    let result = clear_activity_entries(&store, true).expect("activity clears");

    assert_eq!(result.deleted_count, 2);
    assert_eq!(*store.clear_count.borrow(), 1);
}

// ---------------------------------------------------------------------------
// The current summoner and champion select

#[test]
fn league_self_snapshot_defaults_to_six_matches_and_summarizes_performance() {
    let reader = FakeLeagueClientReader::new((1..=7).map(high_kda_match).collect());

    let result = get_league_self_snapshot(&reader, LeagueSelfSnapshotInput { match_limit: None })
        .expect("league self snapshot");

    assert_eq!(*reader.last_match_limit.lock().unwrap(), Some(6));
    assert_eq!(result.recent_matches.len(), 6);
    assert_eq!(result.recent_performance.match_count, 6);
    assert_eq!(result.recent_performance.average_kda, Some(100));
    assert_eq!(result.recent_performance.kda_tag, KdaTag::High);
    assert_eq!(result.recent_performance.recent_champions.len(), 6);
    assert_eq!(result.recent_performance.top_champions.len(), 3);
}

#[test]
fn champ_select_snapshot_batches_recent_stats() {
    let reader = FakeLeagueClientReader::with_champ_select_data(
        ChampSelectSessionData {
            ally_ids: vec![1, 2],
            enemy_ids: Vec::new(),
            champion_selections: HashMap::from([(1, 103), (2, 222)]),
            ally_names: Vec::new(),
            enemy_names: Vec::new(),
            champion_selections_by_name: Vec::new(),
        },
        vec![
            SummonerBatchEntry {
                summoner_id: 1,
                puuid: "puuid-1".to_string(),
                display_name: "Player One".to_string(),
            },
            SummonerBatchEntry {
                summoner_id: 2,
                puuid: "puuid-2".to_string(),
                display_name: "Player Two".to_string(),
            },
        ],
        Vec::new(),
    );

    let snapshot = get_champ_select_snapshot(&reader, 6).expect("champ select snapshot reads");

    assert_eq!(snapshot.players.len(), 2);
    assert!(snapshot
        .players
        .iter()
        .all(|player| player.recent_stats.is_some()));
    assert_eq!(
        reader.recent_stats_batch_calls(),
        vec![vec!["puuid-1".to_string(), "puuid-2".to_string()]]
    );
}

#[test]
fn champ_select_recent_stats_failure_keeps_other_players() {
    let reader = FakeLeagueClientReader::with_champ_select_data(
        ChampSelectSessionData {
            ally_ids: vec![1, 2],
            enemy_ids: Vec::new(),
            champion_selections: HashMap::new(),
            ally_names: Vec::new(),
            enemy_names: Vec::new(),
            champion_selections_by_name: Vec::new(),
        },
        vec![
            SummonerBatchEntry {
                summoner_id: 1,
                puuid: "puuid-1".to_string(),
                display_name: "Player One".to_string(),
            },
            SummonerBatchEntry {
                summoner_id: 2,
                puuid: "puuid-2".to_string(),
                display_name: "Player Two".to_string(),
            },
        ],
        vec!["puuid-2".to_string()],
    );

    let snapshot = get_champ_select_snapshot(&reader, 6).expect("champ select snapshot reads");
    let player_one = snapshot
        .players
        .iter()
        .find(|player| player.display_name == "Player One")
        .expect("player one is present");
    let player_two = snapshot
        .players
        .iter()
        .find(|player| player.display_name == "Player Two")
        .expect("player two is present");

    assert!(player_one.recent_stats.is_some());
    assert!(player_two.recent_stats.is_none());
}

// ---------------------------------------------------------------------------
// Ranked statistics

#[test]
fn ranked_champion_stats_supports_all_sort_modes() {
    for sort_by in [
        RankedChampionSort::Overall,
        RankedChampionSort::WinRate,
        RankedChampionSort::BanRate,
        RankedChampionSort::PickRate,
    ] {
        let response = get_ranked_champion_stats(RankedChampionStatsInput {
            lane: None,
            sort_by: Some(sort_by),
        });

        assert_eq!(response.sort_by, sort_by);
        assert_eq!(response.records.len(), 25);
        assert!(response.records.windows(2).all(|records| {
            ranked_sort_value(&records[0], sort_by) >= ranked_sort_value(&records[1], sort_by)
        }));
    }
}

#[test]
fn ranked_champion_stats_reads_cached_snapshot_when_available() {
    let store = FakeStore::new(default_settings());
    store
        .ranked_snapshot
        .replace(Some(sample_ranked_snapshot("cached-json")));

    let response = get_ranked_champion_stats_from_store(
        &store,
        RankedChampionStatsInput {
            lane: Some(RankedChampionLane::Middle),
            sort_by: Some(RankedChampionSort::Overall),
        },
    )
    .expect("ranked champion stats reads");

    assert_eq!(response.source, "cached-json");
    assert_eq!(response.patch.as_deref(), Some("26.08"));
    assert!(response.is_cached);
    assert_eq!(response.data_status, RankedChampionDataStatus::Cached);
    assert_eq!(response.records.len(), 1);
    assert_eq!(response.records[0].champion_name, "Ahri");
}

#[test]
fn ranked_champion_refresh_persists_provider_snapshot() {
    let store = FakeStore::new(default_settings());
    let provider = FakeRankedChampionProvider {
        snapshot: sample_ranked_snapshot("remote-json"),
    };

    let response = refresh_ranked_champion_stats(
        &store,
        &provider,
        RankedChampionRefreshInput { url: None },
        RankedChampionStatsInput {
            lane: Some(RankedChampionLane::Middle),
            sort_by: Some(RankedChampionSort::WinRate),
        },
    )
    .expect("ranked champion stats refreshes");

    assert_eq!(response.source, "remote-json");
    assert!(response.is_cached);
    assert_eq!(response.data_status, RankedChampionDataStatus::Fresh);
    assert!(store.ranked_snapshot.borrow().is_some());
    assert_eq!(
        store.ranked_snapshot.borrow().as_ref().unwrap().source,
        "remote-json"
    );
}

#[test]
fn ranked_champion_refresh_returns_stale_cache_when_remote_fails() {
    let store = FakeStore::new(default_settings());
    store
        .ranked_snapshot
        .replace(Some(sample_ranked_snapshot("cached-json")));
    let provider = FailingRankedChampionProvider;

    let response = refresh_ranked_champion_stats(
        &store,
        &provider,
        RankedChampionRefreshInput { url: None },
        RankedChampionStatsInput {
            lane: Some(RankedChampionLane::Middle),
            sort_by: Some(RankedChampionSort::Overall),
        },
    )
    .expect("stale cache is returned");

    assert_eq!(response.source, "cached-json");
    assert_eq!(response.data_status, RankedChampionDataStatus::StaleCache);
    assert_eq!(response.records.len(), 1);
    assert!(response.status_message.unwrap().contains("cached data"));
}

#[test]
fn ranked_champion_refresh_errors_without_cache_when_remote_fails() {
    let store = FakeStore::new(default_settings());
    let provider = FailingRankedChampionProvider;

    let error = refresh_ranked_champion_stats(
        &store,
        &provider,
        RankedChampionRefreshInput { url: None },
        RankedChampionStatsInput {
            lane: None,
            sort_by: None,
        },
    )
    .err()
    .expect("refresh fails without cache");

    assert_eq!(error.code(), "integration");
}

#[test]
fn league_self_snapshot_rejects_invalid_match_limit() {
    let reader = FakeLeagueClientReader::new(Vec::new());

    let result = get_league_self_snapshot(
        &reader,
        LeagueSelfSnapshotInput {
            match_limit: Some(0),
        },
    );

    assert!(matches!(result, Err(ApplicationError::Validation(_))));
    assert_eq!(*reader.last_match_limit.lock().unwrap(), None);
}

#[test]
fn league_self_snapshot_handles_zero_death_matches() {
    let reader = FakeLeagueClientReader::new(vec![sample_match(1, "Ahri", 7, 0, 5)]);

    let result = get_league_self_snapshot(
        &reader,
        LeagueSelfSnapshotInput {
            match_limit: Some(1),
        },
    )
    .expect("league self snapshot");

    assert_eq!(result.recent_performance.average_kda, Some(120));
    assert_eq!(result.recent_performance.kda_tag, KdaTag::High);
}

#[test]
fn league_self_snapshot_marks_empty_performance_unavailable() {
    let reader = FakeLeagueClientReader::new(Vec::new());

    let result = get_league_self_snapshot(
        &reader,
        LeagueSelfSnapshotInput {
            match_limit: Some(6),
        },
    )
    .expect("league self snapshot");

    assert_eq!(result.recent_performance.match_count, 0);
    assert_eq!(result.recent_performance.average_kda, None);
    assert_eq!(result.recent_performance.kda_tag, KdaTag::Unavailable);
}

#[test]
fn league_self_snapshot_preserves_unavailable_status() {
    let reader = FakeLeagueClientReader::with_data(LeagueSelfData {
        status: LeagueClientStatus {
            is_running: false,
            lockfile_found: false,
            connection: LeagueClientConnection::Unavailable,
            phase: LeagueClientPhase::NotRunning,
            message: Some("League Client is not running".to_string()),
        },
        summoner: None,
        ranked_queues: Vec::new(),
        recent_matches: Vec::new(),
        data_warnings: Vec::new(),
    });

    let result = get_league_self_snapshot(
        &reader,
        LeagueSelfSnapshotInput {
            match_limit: Some(6),
        },
    )
    .expect("league self snapshot");

    assert_eq!(result.status.phase, LeagueClientPhase::NotRunning);
    assert!(result.summoner.is_none());
    assert!(result.data_warnings.is_empty());
}

#[test]
fn league_self_snapshot_accepts_partial_data_without_error() {
    let reader = FakeLeagueClientReader::with_data(LeagueSelfData {
        status: LeagueClientStatus {
            is_running: true,
            lockfile_found: true,
            connection: LeagueClientConnection::Connected,
            phase: LeagueClientPhase::PartialData,
            message: Some("League Client connected with partial data".to_string()),
        },
        summoner: None,
        ranked_queues: Vec::new(),
        recent_matches: vec![sample_match(1, "Ahri", 1, 1, 1)],
        data_warnings: vec![LeagueDataWarning {
            section: LeagueDataSection::Ranked,
            message: "Ranked data is temporarily unavailable".to_string(),
        }],
    });

    let result = get_league_self_snapshot(
        &reader,
        LeagueSelfSnapshotInput {
            match_limit: Some(6),
        },
    )
    .expect("league self snapshot");

    assert_eq!(result.status.phase, LeagueClientPhase::PartialData);
    assert_eq!(result.data_warnings.len(), 1);
    assert_eq!(result.data_warnings[0].section, LeagueDataSection::Ranked);
}

// ---------------------------------------------------------------------------
// Icons and assets

#[test]
fn league_profile_icon_validates_id_before_reader_call() {
    let reader = FakeLeagueClientReader::new(Vec::new());

    let result = get_league_profile_icon(&reader, LeagueProfileIconInput { profile_icon_id: 0 });

    assert!(matches!(result, Err(ApplicationError::Validation(_))));
}

#[test]
fn league_champion_icon_returns_image_bytes() {
    let reader = FakeLeagueClientReader::new(Vec::new());

    let result = get_league_champion_icon(&reader, LeagueChampionIconInput { champion_id: 103 })
        .expect("champion icon reads");

    assert_eq!(result.mime_type, "image/png");
    assert_eq!(result.bytes, vec![103]);
}

#[test]
fn league_game_asset_validates_id_before_reader_call() {
    let reader = FakeLeagueClientReader::new(Vec::new());

    let result = get_league_game_asset(
        &reader,
        LeagueGameAssetInput {
            kind: LeagueGameAssetKind::Item,
            asset_id: 0,
        },
    );

    assert!(matches!(result, Err(ApplicationError::Validation(_))));
}

#[test]
fn league_game_asset_returns_metadata_and_image_bytes() {
    let reader = FakeLeagueClientReader::new(Vec::new());

    let result = get_league_game_asset(
        &reader,
        LeagueGameAssetInput {
            kind: LeagueGameAssetKind::Spell,
            asset_id: 4,
        },
    )
    .expect("game asset reads");

    assert_eq!(result.kind, LeagueGameAssetKind::Spell);
    assert_eq!(result.asset_id, 4);
    assert_eq!(result.name, "Spell 4");
    assert_eq!(result.image.bytes, vec![4]);
}

// ---------------------------------------------------------------------------
// Notes and post-match detail

#[test]
fn player_note_validation_trims_and_deduplicates() {
    let store = FakeStore::new(default_settings());

    let result = save_player_note_for_resolved_player(
        &store,
        SavePlayerNoteInput {
            game_id: 10,
            participant_id: 2,
            note: Some("  Watch roams  ".to_string()),
            tags: vec![
                " mid ".to_string(),
                "mid".to_string(),
                "shotcaller".to_string(),
            ],
        },
        "internal-puuid".to_string(),
        "Visible Player".to_string(),
    )
    .expect("player note saves");

    assert_eq!(result.note.as_deref(), Some("Watch roams"));
    assert_eq!(result.tags, vec!["mid", "shotcaller"]);
    assert_eq!(result.game_id, 10);
    assert_eq!(result.participant_id, 2);
}

#[test]
fn player_note_summary_does_not_require_puuid() {
    let store = FakeStore::new(default_settings());

    let summary = player_note_summary(&store, None).expect("summary reads");

    assert!(!summary.has_note);
    assert!(summary.tags.is_empty());
}

#[test]
fn post_match_detail_groups_teams_and_hydrates_notes() {
    let store = FakeStore::new(default_settings());
    store
        .save_player_note(StoredPlayerNoteInput {
            player_puuid: "self-puuid".to_string(),
            last_display_name: "Player One".to_string(),
            note: Some("Played well".to_string()),
            tags: vec!["carry".to_string()],
        })
        .expect("note saves");
    let reader = FakeLeagueClientReader::with_completed_match(sample_completed_match());

    let detail = get_post_match_detail(&store, &reader, PostMatchDetailInput { game_id: 10 })
        .expect("post-match detail reads");

    assert_eq!(detail.teams.len(), 2);
    assert_eq!(detail.teams[0].participants.len(), 1);
    assert_eq!(detail.teams[0].totals.kills, 7);
    assert_eq!(detail.comparison.most_damage.unwrap().participant_id, 2);
    assert!(detail.teams[0].participants[0].performance_score > 80);
    assert!(detail.teams[0].participants[0].note_summary.has_note);
    assert_eq!(detail.teams[0].participants[0].note_summary.tags, vec!["carry"]);
}

#[test]
fn post_match_detail_scores_participants_from_available_stats() {
    let store = FakeStore::new(default_settings());
    let reader = FakeLeagueClientReader::with_completed_match(sample_completed_match());

    let detail = get_post_match_detail(&store, &reader, PostMatchDetailInput { game_id: 10 })
        .expect("post-match detail reads");
    let first_score = detail.teams[0].participants[0].performance_score;
    let second_score = detail.teams[1].participants[0].performance_score;

    assert!((0..=100).contains(&first_score));
    assert!((0..=100).contains(&second_score));
    assert!(first_score > second_score);
}

#[test]
fn post_match_detail_warns_when_only_partial_participants_are_available() {
    let store = FakeStore::new(default_settings());
    let mut completed_match = sample_completed_match();
    completed_match.participants.truncate(1);
    let reader = FakeLeagueClientReader::with_completed_match(completed_match);

    let detail = get_post_match_detail(&store, &reader, PostMatchDetailInput { game_id: 10 })
        .expect("post-match detail reads");

    assert_eq!(detail.teams.len(), 1);
    assert_eq!(detail.warnings.len(), 1);
    assert_eq!(detail.warnings[0].section, LeagueDataSection::Participants);
}

#[test]
fn participant_profile_uses_completed_match_context_without_exposing_puuid() {
    let store = FakeStore::new(default_settings());
    let reader = FakeLeagueClientReader::with_completed_match(sample_completed_match());

    let profile = get_post_match_participant_profile(
        &store,
        &reader,
        ParticipantPublicProfileInput {
            game_id: 10,
            participant_id: 2,
            recent_limit: Some(3),
        },
    )
    .expect("participant profile reads");

    assert_eq!(profile.display_name, "Player Two");
    assert_eq!(profile.recent_stats.as_ref().unwrap().match_count, 3);
    assert_eq!(profile.recent_stats.as_ref().unwrap().recent_matches.len(), 3);
    assert!(format!("{profile:?}").contains("Player Two"));
    assert!(!format!("{profile:?}").contains("enemy-puuid"));
}

// ---------------------------------------------------------------------------
// Scores, exactly

#[test]
fn performance_scores_follow_the_weighted_shares() {
    let store = FakeStore::new(default_settings());
    let reader = FakeLeagueClientReader::with_completed_match(sample_completed_match());

    let detail = get_post_match_detail(&store, &reader, PostMatchDetailInput { game_id: 10 })
        .expect("post-match detail reads");

    assert_eq!(detail.teams[0].participants[0].performance_score, 91);
    assert_eq!(detail.teams[1].participants[0].performance_score, 63);
    assert_eq!(detail.comparison.highest_kda.as_ref().unwrap().value, 150);
    assert_eq!(detail.comparison.most_cs.as_ref().unwrap().participant_id, 1);
}

#[test]
fn post_match_detail_refuses_invalid_game_id() {
    let store = FakeStore::new(default_settings());
    let reader = FakeLeagueClientReader::with_completed_match(sample_completed_match());

    let result = get_post_match_detail(&store, &reader, PostMatchDetailInput { game_id: 0 });

    assert!(matches!(result, Err(ApplicationError::Validation(message)) if message == "Game id must be greater than 0"));
}

#[test]
fn accepted_settings_and_notes_import_back() {
    let values = validate_settings(SettingsInput {
        startup_page: "activity".to_string(),
        language: "en".to_string(),
        compact_mode: true,
        activity_limit: 40,
        auto_accept_enabled: false,
        auto_pick_enabled: false,
        auto_pick_champion_id: None,
        auto_ban_enabled: false,
        auto_ban_champion_id: None,
    })
    .expect("settings are accepted");
    let note = validate_activity_note(ActivityNoteInput {
        title: "  Scrim review  ".to_string(),
        body: Some(" Ward the river ".to_string()),
    })
    .expect("note is accepted");
    let store = FakeStore::new(default_settings());

    let result = import_local_data(
        &store,
        LocalDataExport {
            format_version: 1,
            settings: values,
            activity_entries: vec![LocalActivityEntry {
                kind: note.kind,
                title: note.title,
                body: note.body,
                created_at: "2026-04-19 00:00:00".to_string(),
            }],
        },
    )
    .expect("the export imports back");

    assert_eq!(result.imported_activity_count, 1);
    assert_eq!(*store.import_count.borrow(), 1);
}

// ---------------------------------------------------------------------------
// Decisions one call below the use cases

#[test]
fn settings_save_step_keeps_unchanged_values_and_records_changes() {
    let current = default_settings();
    let same = current.values();
    assert_eq!(settings_save_step(&current, &same), SaveStep::KeepCurrent);

    let mut changed = current.values();
    changed.compact_mode = !changed.compact_mode;
    match settings_save_step(&current, &changed) {
        SaveStep::SaveAndRecord(entry) => {
            assert_eq!(entry.kind, ActivityKind::Settings);
            assert_eq!(entry.title, "Settings updated");
            assert_eq!(entry.body.as_deref(), Some("Application preferences changed"));
        }
        SaveStep::KeepCurrent => panic!("a change must be saved"),
    }
}

#[test]
fn app_snapshot_lists_as_many_entries_as_the_settings_ask() {
    let store = FakeStore::new(default_settings());
    store.activity_entries.replace(vec![sample_activity(1), sample_activity(2)]);

    let snapshot = app_snapshot(&store).expect("snapshot reads");

    assert_eq!(snapshot.health.schema_version, Some(2));
    assert_eq!(snapshot.settings, default_settings());
    assert_eq!(snapshot.recent_activity.len(), 2);
    assert_eq!(*store.last_activity_query.borrow(), Some((100, None)));
}

#[test]
fn participant_profile_reports_a_missing_participant() {
    let store = FakeStore::new(default_settings());
    let reader = FakeLeagueClientReader::with_completed_match(sample_completed_match());

    let result = get_post_match_participant_profile(
        &store,
        &reader,
        ParticipantPublicProfileInput { game_id: 10, participant_id: 9, recent_limit: None },
    );

    assert!(matches!(result, Err(ApplicationError::Validation(message)) if message == "Participant was not found in the completed match"));
}

#[test]
fn completed_participant_finds_the_participant_by_id() {
    let m = sample_completed_match();

    assert_eq!(completed_participant(&m, 2), Ok(1));
    assert!(matches!(completed_participant(&m, 3), Err(ApplicationError::Validation(_))));
}

#[test]
fn recent_stats_request_asks_for_the_participant_puuid() {
    let m = sample_completed_match();
    let mut anonymous = m.participants[0].clone();
    anonymous.player_puuid = None;

    assert_eq!(recent_stats_request(&m.participants[1], 4), Some(("enemy-puuid".to_string(), 4)));
    assert_eq!(recent_stats_request(&anonymous, 4), None);
}

#[test]
fn post_match_detail_without_identities_needs_no_store() {
    let mut m = sample_completed_match();
    for p in m.participants.iter_mut() {
        p.player_puuid = None;
    }
    let store = FakeStore::new(default_settings());

    let detail = post_match_detail_from_completed_match(&store, m).expect("detail builds");

    assert_eq!(detail.teams.len(), 2);
    assert!(!detail.teams[0].participants[0].note_summary.has_note);
}

#[test]
fn post_match_detail_refuses_team_sums_out_of_range() {
    let mut m = sample_completed_match();
    for p in m.participants.iter_mut() {
        p.player_puuid = None;
        p.team_id = 100;
        p.gold_earned = i64::MAX;
    }
    let store = FakeStore::new(default_settings());

    let result = post_match_detail_from_completed_match(&store, m);

    assert!(matches!(result, Err(ApplicationError::Integration(message)) if message == "Match statistics from the local client are out of range"));
}

#[test]
fn ranked_refresh_stores_the_fetched_snapshot_stamped_with_its_import_time() {
    let store = FakeStore::new(default_settings());
    let fetched = sample_ranked_snapshot("remote-json");
    let provider = FakeRankedChampionProvider { snapshot: fetched.clone() };

    refresh_ranked_champion_stats(
        &store,
        &provider,
        RankedChampionRefreshInput { url: None },
        RankedChampionStatsInput { lane: None, sort_by: None },
    )
    .expect("ranked champion stats refreshes");

    let stored = store.ranked_snapshot.borrow().clone().expect("a snapshot is stored");
    assert_eq!(stored.source, fetched.source);
    assert_eq!(stored.records, fetched.records);
    assert!(!stored.imported_at.is_empty());
    assert!(stored.imported_at.chars().all(|c| c.is_ascii_digit()));
}

#[test]
fn stamped_snapshot_changes_only_the_import_time() {
    let fetched = sample_ranked_snapshot("remote-json");
    let stamped = stamped_snapshot(fetched.clone(), "1700000000".to_string());

    assert_eq!(stamped.imported_at, "1700000000");
    assert_eq!(stamped.source, fetched.source);
    assert_eq!(stamped.records, fetched.records);
}

#[test]
fn note_save_hands_the_normalized_note_to_the_store() {
    let store = FakeStore::new(default_settings());

    let view = save_player_note_for_resolved_player(
        &store,
        SavePlayerNoteInput {
            game_id: 10,
            participant_id: 2,
            note: Some("  tilted  ".to_string()),
            tags: vec![" aggressive ".to_string(), "aggressive".to_string()],
        },
        "enemy-puuid".to_string(),
        "Player Two".to_string(),
    )
    .expect("note saves");

    let notes = store.player_notes.borrow();
    assert_eq!(notes.len(), 1);
    assert_eq!(notes[0].player_puuid, "enemy-puuid");
    assert_eq!(notes[0].last_display_name, "Player Two");
    assert_eq!(notes[0].note.as_deref(), Some("tilted"));
    assert_eq!(notes[0].tags, vec!["aggressive".to_string()]);
    assert_eq!(view.note.as_deref(), Some("tilted"));
}

#[test]
fn champ_select_snapshot_without_statistics_asks_for_none() {
    let reader = FakeLeagueClientReader::with_champ_select_data(
        ChampSelectSessionData {
            ally_ids: vec![1],
            enemy_ids: Vec::new(),
            champion_selections: HashMap::new(),
            ally_names: Vec::new(),
            enemy_names: Vec::new(),
            champion_selections_by_name: Vec::new(),
        },
        vec![SummonerBatchEntry {
            summoner_id: 1,
            puuid: "puuid-1".to_string(),
            display_name: "Player One".to_string(),
        }],
        Vec::new(),
    );

    let snapshot = get_champ_select_snapshot(&reader, 0).expect("champ select snapshot reads");

    assert_eq!(snapshot.players.len(), 1);
    assert!(snapshot.players[0].recent_stats.is_none());
    assert!(reader.recent_stats_batch_calls().is_empty());
}

#[test]
fn create_activity_note_hands_the_store_a_trimmed_note() {
    let store = FakeStore::new(default_settings());

    let entry = create_activity_note(
        &store,
        ActivityNoteInput { title: "  First note  ".to_string(), body: Some("   ".to_string()) },
    )
    .expect("note is created");

    assert_eq!(entry.kind, ActivityKind::Note);
    assert_eq!(entry.title, "First note");
    assert_eq!(entry.body, None);
    let created = store.created_entries.borrow();
    assert_eq!(created.len(), 1);
    assert_eq!(created[0].title, "First note");
    assert_eq!(created[0].body, None);
}

#[test]
fn import_reports_the_settings_and_count_it_was_handed() {
    let store = FakeStore::new(default_settings());
    let settings = imported_settings(StartupPage::Settings, true, 25);

    let result = import_local_data(
        &store,
        LocalDataExport {
            format_version: 1,
            settings,
            activity_entries: vec![
                LocalActivityEntry {
                    kind: ActivityKind::Note,
                    title: "One".to_string(),
                    body: None,
                    created_at: "2026-04-19 00:00:00".to_string(),
                },
                LocalActivityEntry {
                    kind: ActivityKind::System,
                    title: "Two".to_string(),
                    body: Some("b".to_string()),
                    created_at: "2026-04-19 00:00:01".to_string(),
                },
            ],
        },
    )
    .expect("import succeeds");

    assert_eq!(result.imported_activity_count, 2);
    assert_eq!(result.settings.values(), settings);
    assert_eq!(store.imported_entries.borrow().len(), 2);
}

#[test]
fn post_match_teams_hold_every_participant_once() {
    let mut m = sample_completed_match();
    let mut third = m.participants[0].clone();
    third.participant_id = 3;
    third.player_puuid = None;
    m.participants.push(third);
    let store = FakeStore::new(default_settings());
    let reader = FakeLeagueClientReader::with_completed_match(m);

    let detail = get_post_match_detail(&store, &reader, PostMatchDetailInput { game_id: 10 })
        .expect("post-match detail reads");

    let sizes: usize = detail.teams.iter().map(|team| team.participants.len()).sum();
    assert_eq!(sizes, 3);
    assert_eq!(detail.teams[0].team_id, 100);
    assert_eq!(detail.teams[0].participants.len(), 2);
    assert_eq!(detail.teams[0].totals.kills, 14);
}
