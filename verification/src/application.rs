//! The assistant's use cases over the local store: settings, the activity
//! log, local data export and import, player notes and ranked statistics.

use vstd::prelude::*;

use crate::constants::{DEFAULT_ACTIVITY_LIMIT, LOCAL_DATA_FORMAT_VERSION};
use crate::decimal::{decimal_of, i64_to_decimal};
use crate::domain::{
    ActivityEntry, ActivityKind, AppLanguagePreference, AppSettings, AppSnapshot,
    ClearActivityResult, ClearPlayerNoteResult, DatabaseStatus, HealthReport,
    ImportLocalDataResult, LeagueGameAssetKind, LocalActivityEntry, LocalDataExport,
    NewActivityEntry, PlayerNoteSummary, PlayerNoteView, ServiceStatus, SettingsValues,
    StartupPage,
};
use crate::errors::{ranked_provider_error, validation_err, ApplicationError, RankedChampionDataError};
use crate::ranked::{
    clone_opt_string, filter_by_lane, is_permutation, is_seed_records, is_stable_rank_sort, lane_filter, same_rank, sorted_by_rank,
    ranked_champion_seeds, sort_ranked_records, RankedChampionDataSnapshot,
    RankedChampionDataStatus, RankedChampionLane, RankedChampionRefreshInput, RankedChampionSort,
    RankedChampionStat, RankedChampionStatsInput, RankedChampionStatsResponse,
};
use crate::text::concat_strs;
use crate::validation::{
    activity_limit_message, game_and_participant_error, local_activity_entry_error,
    normalize_activity_limit, normalize_player_note, normalize_player_tags, opt_string_view,
    settings_values_error, settings_values_valid, spec_normalize_player_note,
    spec_normalize_player_tags, spec_validate_activity_note, spec_validate_settings,
    strings_view, valid_activity_limit, validate_activity_note, validate_game_and_participant_ids,
    validate_local_activity_entry, validate_settings, validate_settings_values, ActivityNoteInput,
    SettingsInput,
};

verus! {

#[derive(Debug, Clone, PartialEq, Eq)]
pub struct ActivityListInput {
    pub limit: Option<i64>,
    pub kind: Option<ActivityKind>,
}

#[derive(Debug, Clone, PartialEq, Eq)]
pub struct ActivityEntries {
    pub records: Vec<ActivityEntry>,
}

#[derive(Debug, Clone, PartialEq, Eq)]
pub struct LeagueSelfSnapshotInput {
    pub match_limit: Option<i64>,
}

#[derive(Debug, Clone, PartialEq, Eq)]
pub struct LeagueProfileIconInput {
    pub profile_icon_id: i64,
}

#[derive(Debug, Clone, PartialEq, Eq)]
pub struct LeagueChampionIconInput {
    pub champion_id: i64,
}

#[derive(Debug, Clone, PartialEq, Eq)]
pub struct LeagueChampionDetailsInput {
    pub champion_id: i64,
}

#[derive(Debug, Clone, PartialEq, Eq)]
pub struct LeagueGameAssetInput {
    pub kind: LeagueGameAssetKind,
    pub asset_id: i64,
}

#[derive(Debug, Clone, PartialEq, Eq)]
pub struct PostMatchDetailInput {
    pub game_id: i64,
}

#[derive(Debug, Clone, PartialEq, Eq)]
pub struct ParticipantPublicProfileInput {
    pub game_id: i64,
    pub participant_id: i64,
    pub recent_limit: Option<i64>,
}

#[derive(Debug, Clone, PartialEq, Eq)]
pub struct SavePlayerNoteInput {
    pub game_id: i64,
    pub participant_id: i64,
    pub note: Option<String>,
    pub tags: Vec<String>,
}

#[derive(Debug, Clone, PartialEq, Eq)]
pub struct ClearPlayerNoteInput {
    pub game_id: i64,
    pub participant_id: i64,
}

#[derive(Debug, Clone, PartialEq, Eq)]
pub struct StoredPlayerNote {
    pub player_puuid: String,
    pub last_display_name: String,
    pub note: Option<String>,
    pub tags: Vec<String>,
    pub updated_at: String,
}

#[derive(Debug, Clone, PartialEq, Eq)]
pub struct StoredPlayerNoteInput {
    pub player_puuid: String,
    pub last_display_name: String,
    pub note: Option<String>,
    pub tags: Vec<String>,
}

/// `entries` answer a listing of at most `limit` entries of kind `kind`.
pub open spec fn is_activity_listing(entries: Seq<ActivityEntry>, limit: i64, kind: Option<ActivityKind>) -> bool {
    &&& entries.len() <= limit
    &&& kind matches Some(k) ==> forall|i: int| 0 <= i < entries.len() ==> (#[trigger] entries[i]).kind == k
}

/// `created` holds the kind, title and body of `entry`.
pub open spec fn is_created_copy(created: ActivityEntry, entry: NewActivityEntry) -> bool {
    &&& created.kind == entry.kind
    &&& created.title@ == entry.title@
    &&& opt_string_view(created.body) == opt_string_view(entry.body)
}

/// `result` reports an import of `settings` and of `count` entries.
pub open spec fn is_import_result(result: ImportLocalDataResult, settings: SettingsValues, count: nat) -> bool {
    &&& result.settings.spec_values() == settings
    &&& result.imported_activity_count == count
}

/// `saved` holds the player, name, note and tags of `note`.
pub open spec fn is_stored_copy(saved: StoredPlayerNote, note: StoredPlayerNoteInput) -> bool {
    &&& saved.player_puuid@ == note.player_puuid@
    &&& saved.last_display_name@ == note.last_display_name@
    &&& opt_string_view(saved.note) == opt_string_view(note.note)
    &&& strings_view(saved.tags@) == strings_view(note.tags@)
}

/// `a` and `b` have the same source, patch, region, queue, tier and times.
pub open spec fn same_snapshot_metadata(a: RankedChampionDataSnapshot, b: RankedChampionDataSnapshot) -> bool {
    &&& a.source@ == b.source@
    &&& opt_string_view(a.patch) == opt_string_view(b.patch)
    &&& opt_string_view(a.region) == opt_string_view(b.region)
    &&& opt_string_view(a.queue) == opt_string_view(b.queue)
    &&& opt_string_view(a.tier) == opt_string_view(b.tier)
    &&& opt_string_view(a.generated_at) == opt_string_view(b.generated_at)
    &&& a.imported_at@ == b.imported_at@
}

/// The local store of settings, activity, notes and ranked data. Its
/// implementations live outside this library; the `requires` clauses say what
/// the use cases hand to it, and the `ensures` clauses what every
/// implementation gives back: a listing within its limit and kind, and a
/// saved note or snapshot that holds what was handed in.
pub trait AppStore {
    fn schema_version(&self) -> Result<i64, String>;

    fn get_settings(&self) -> Result<AppSettings, String>;

    /// The settings as stored: the values handed in, with the time of the
    /// save.
    fn save_settings(&self, settings: SettingsValues) -> (r: Result<AppSettings, String>)
        requires
            settings_values_valid(settings),
        ensures
            r matches Ok(saved) ==> saved.spec_values() == settings,
    ;

    /// At most `limit` entries, each of kind `kind` when one is given.
    fn list_activity_entries(&self, limit: i64, kind: Option<ActivityKind>) -> (r: Result<
        Vec<ActivityEntry>,
        String,
    >)
        requires
            valid_activity_limit(limit),
        ensures
            r matches Ok(entries) ==> is_activity_listing(entries@, limit, kind),
    ;

    fn list_all_activity_entries(&self) -> Result<Vec<ActivityEntry>, String>;

    /// The entry as stored: the kind, title and body handed in, with its id
    /// and creation time.
    fn create_activity_entry(&self, entry: NewActivityEntry) -> (r: Result<ActivityEntry, String>)
        ensures
            r matches Ok(created) ==> is_created_copy(created, entry),
    ;

    fn import_local_data(
        &self,
        settings: SettingsValues,
        activity_entries: Vec<LocalActivityEntry>,
    ) -> (r: Result<ImportLocalDataResult, String>)
        requires
            settings_values_valid(settings),
            forall|i: int|
                0 <= i < activity_entries@.len() ==> local_activity_entry_error(
                    #[trigger] activity_entries@[i],
                ) is None,
        ensures
            r matches Ok(result) ==> is_import_result(result, settings, activity_entries@.len()),
    ;

    fn clear_activity_entries(&self) -> Result<i64, String>;

    fn get_player_note(&self, player_puuid: &str) -> Result<Option<StoredPlayerNote>, String>;

    /// The note as stored: the player, name, note and tags handed in, with
    /// the time of the save.
    fn save_player_note(&self, note: StoredPlayerNoteInput) -> (r: Result<StoredPlayerNote, String>)
        requires
            spec_normalize_player_note(opt_string_view(note.note)) == Ok::<
                Option<Seq<char>>,
                Seq<char>,
            >(opt_string_view(note.note)),
            spec_normalize_player_tags(strings_view(note.tags@)) == Ok::<
                Seq<Seq<char>>,
                Seq<char>,
            >(strings_view(note.tags@)),
        ensures
            r matches Ok(saved) ==> is_stored_copy(saved, note),
    ;

    fn clear_player_note(&self, player_puuid: &str) -> Result<bool, String>;

    fn latest_ranked_champion_snapshot(&self) -> Result<Option<RankedChampionDataSnapshot>, String>;

    /// The snapshot as stored: the source, patch, region, queue, tier and
    /// times handed in, with its records in the store's order.
    fn replace_ranked_champion_snapshot(&self, snapshot: RankedChampionDataSnapshot) -> (r: Result<
        RankedChampionDataSnapshot,
        String,
    >)
        ensures
            r matches Ok(saved) ==> same_snapshot_metadata(saved, snapshot),
    ;
}

/// A source of ranked champion data, implemented outside this library.
pub trait RankedChampionDataProvider {
    fn fetch_ranked_champion_snapshot(&self, input: RankedChampionRefreshInput) -> Result<
        RankedChampionDataSnapshot,
        RankedChampionDataError,
    >;
}

// ---------------------------------------------------------------------------
// Health and defaults

pub open spec fn spec_health_report(database_status: DatabaseStatus, schema_version: Option<i64>) -> HealthReport {
    HealthReport {
        status: match database_status {
            DatabaseStatus::Okay => ServiceStatus::Okay,
            DatabaseStatus::Unavailable => ServiceStatus::Degraded,
        },
        database_status,
        schema_version,
    }
}

pub fn health_report(database_status: DatabaseStatus, schema_version: Option<i64>) -> (r: HealthReport)
    ensures
        r == spec_health_report(database_status, schema_version),
{
    let status = match database_status {
        DatabaseStatus::Okay => ServiceStatus::Okay,
        DatabaseStatus::Unavailable => ServiceStatus::Degraded,
    };
    HealthReport { status, database_status, schema_version }
}

pub open spec fn spec_settings_defaults() -> SettingsValues {
    SettingsValues {
        startup_page: StartupPage::Dashboard,
        language: AppLanguagePreference::System,
        compact_mode: false,
        activity_limit: DEFAULT_ACTIVITY_LIMIT,
        auto_accept_enabled: true,
        auto_pick_enabled: false,
        auto_pick_champion_id: None,
        auto_ban_enabled: false,
        auto_ban_champion_id: None,
    }
}

/// The settings a new store starts with.
pub fn get_settings_defaults() -> (r: SettingsValues)
    ensures
        r == spec_settings_defaults(),
{
    settings_defaults()
}

pub fn settings_defaults() -> (r: SettingsValues)
    ensures
        r == spec_settings_defaults(),
{
    SettingsValues {
        startup_page: StartupPage::Dashboard,
        language: AppLanguagePreference::System,
        compact_mode: false,
        activity_limit: DEFAULT_ACTIVITY_LIMIT,
        auto_accept_enabled: true,
        auto_pick_enabled: false,
        auto_pick_champion_id: None,
        auto_ban_enabled: false,
        auto_ban_champion_id: None,
    }
}

/// The default settings meet every settings rule.
pub proof fn lemma_settings_defaults_are_valid()
    ensures
        settings_values_valid(spec_settings_defaults()),
{
}

// ---------------------------------------------------------------------------
// Storage errors

pub open spec fn storage_message(operation: Seq<char>, error: Seq<char>) -> Seq<char> {
    operation + " failed: "@ + error
}

pub fn storage_failure(operation: &str, error: String) -> (r: ApplicationError)
    ensures
        r matches ApplicationError::Storage(m) && m@ == storage_message(operation@, error@),
{
    let prefix = concat_strs(operation, " failed: ");
    ApplicationError::Storage(concat_strs(prefix.as_str(), error.as_str()))
}

/// A store result with its error, if any, reported as a failed `operation`.
pub open spec fn spec_storage_result<T>(operation: Seq<char>, res: Result<T, String>, r: Result<
    T,
    ApplicationError,
>) -> bool {
    match res {
        Ok(v) => r == Ok::<T, ApplicationError>(v),
        Err(e) => r matches Err(ApplicationError::Storage(m)) && m@ == storage_message(
            operation,
            e@,
        ),
    }
}

pub fn storage_result<T>(operation: &str, res: Result<T, String>) -> (r: Result<T, ApplicationError>)
    ensures
        spec_storage_result(operation@, res, r),
{
    match res {
        Ok(v) => Ok(v),
        Err(e) => Err(storage_failure(operation, e)),
    }
}

/// A store result with its error, if any, as a storage error with the
/// store's own message.
pub fn plain_storage_result<T>(res: Result<T, String>) -> (r: Result<T, ApplicationError>)
    ensures
        match res {
            Ok(v) => r == Ok::<T, ApplicationError>(v),
            Err(e) => r matches Err(ApplicationError::Storage(m)) && m@ == e@,
        },
{
    match res {
        Ok(v) => Ok(v),
        Err(e) => Err(ApplicationError::Storage(e)),
    }
}

pub open spec fn is_storage_error<T>(r: Result<T, ApplicationError>) -> bool {
    r matches Err(ApplicationError::Storage(_))
}

// ---------------------------------------------------------------------------
// Settings and activity

/// What the snapshot gives for the store's answers: to the schema version,
/// to the settings, and to the listing of recent activity, which asks for as
/// many entries as the settings say.
pub open spec fn app_snapshot_outcome(
    version: Result<i64, String>,
    settings: Result<AppSettings, String>,
    recent: Result<Vec<ActivityEntry>, String>,
    r: Result<AppSnapshot, ApplicationError>,
) -> bool {
    match version {
        Err(e) => r matches Err(ApplicationError::Storage(m)) && m@ == storage_message(
            "read schema version"@,
            e@,
        ),
        Ok(v) => match settings {
            Err(e) => r matches Err(ApplicationError::Storage(m)) && m@ == storage_message(
                "load settings"@,
                e@,
            ),
            Ok(s) => if !valid_activity_limit(s.activity_limit) {
                validation_err(r, activity_limit_message())
            } else {
                match recent {
                    Err(e) => r matches Err(ApplicationError::Storage(m)) && m@ == storage_message(
                        "list activity entries"@,
                        e@,
                    ),
                    Ok(records) => is_activity_listing(records@, s.activity_limit, None) && r
                        == Ok::<AppSnapshot, ApplicationError>(
                        AppSnapshot {
                            health: spec_health_report(DatabaseStatus::Okay, Some(v)),
                            settings: s,
                            settings_defaults: spec_settings_defaults(),
                            recent_activity: records,
                        },
                    ),
                }
            },
        },
    }
}

pub fn app_snapshot<S: AppStore>(store: &S) -> (r: Result<AppSnapshot, ApplicationError>)
    ensures
        exists|
            version: Result<i64, String>,
            settings: Result<AppSettings, String>,
            recent: Result<Vec<ActivityEntry>, String>,
        | #[trigger] app_snapshot_outcome(version, settings, recent, r),
{
    let ghost no_settings: Result<AppSettings, String> = arbitrary();
    let ghost no_recent: Result<Vec<ActivityEntry>, String> = arbitrary();
    let version = store.schema_version();
    let ghost va = version;
    let schema_version = match storage_result("read schema version", version) {
        Ok(v) => v,
        Err(e) => {
            let r = Err(e);
            assert(app_snapshot_outcome(va, no_settings, no_recent, r));
            return r;
        },
    };
    let answer = store.get_settings();
    let ghost sa = answer;
    let settings = match storage_result("load settings", answer) {
        Ok(s) => s,
        Err(e) => {
            proof {
                reveal_strlit("load settings");
            }
            let r = Err(e);
            assert(app_snapshot_outcome(va, sa, no_recent, r));
            return r;
        },
    };
    let limit = match normalize_activity_limit(settings.activity_limit) {
        Ok(l) => l,
        Err(e) => {
            let r = Err(e);
            assert(app_snapshot_outcome(va, sa, no_recent, r));
            return r;
        },
    };
    let recent = store.list_activity_entries(limit, None);
    let ghost ra = recent;
    let r = match storage_result("list activity entries", recent) {
        Ok(recent_activity) => Ok(
            AppSnapshot {
                health: health_report(DatabaseStatus::Okay, Some(schema_version)),
                settings,
                settings_defaults: settings_defaults(),
                recent_activity,
            },
        ),
        Err(e) => Err(e),
    };
    assert(app_snapshot_outcome(va, sa, ra, r));
    r
}

pub fn get_settings<S: AppStore>(store: &S) -> (r: Result<AppSettings, ApplicationError>)
    ensures
        exists|answer: Result<AppSettings, String>|
            #[trigger] spec_storage_result("load settings"@, answer, r),
{
    let res = store.get_settings();
    let ghost read = res;
    let r = storage_result("load settings", res);
    proof {
        reveal_strlit("load settings");
        assert(spec_storage_result("load settings"@, read, r));
    }
    r
}

/// Whether saving `next` would change nothing.
pub fn settings_unchanged(current: &AppSettings, next: &SettingsValues) -> (r: bool)
    ensures
        r == (current.spec_values() == *next),
{
    current.values() == *next
}

pub open spec fn settings_updated_entry(entry: NewActivityEntry) -> bool {
    &&& entry.kind == ActivityKind::Settings
    &&& entry.title@ == "Settings updated"@
    &&& opt_string_view(entry.body) == Some("Application preferences changed"@)
}

pub fn settings_updated_activity() -> (r: NewActivityEntry)
    ensures
        settings_updated_entry(r),
{
    NewActivityEntry {
        kind: ActivityKind::Settings,
        title: "Settings updated".to_owned(),
        body: Some("Application preferences changed".to_owned()),
    }
}

/// What saving settings does once the current ones are known: keep them
/// when nothing changes, or save the new values and record the change.
#[derive(Debug, Clone, PartialEq, Eq)]
pub enum SaveStep {
    KeepCurrent,
    SaveAndRecord(NewActivityEntry),
}

pub fn settings_save_step(current: &AppSettings, next: &SettingsValues) -> (r: SaveStep)
    ensures
        current.spec_values() == *next <==> r is KeepCurrent,
        r matches SaveStep::SaveAndRecord(entry) ==> settings_updated_entry(entry),
{
    if settings_unchanged(current, next) {
        SaveStep::KeepCurrent
    } else {
        SaveStep::SaveAndRecord(settings_updated_activity())
    }
}

/// What `save_settings` gives for validated values `next`, given the
/// store's answers: to the read of the current settings, to the save, and
/// to the record of the change.
/// `entry` is the stored record of a settings change.
pub open spec fn settings_updated_entry_copy(entry: ActivityEntry) -> bool {
    &&& entry.kind == ActivityKind::Settings
    &&& entry.title@ == "Settings updated"@
    &&& opt_string_view(entry.body) == Some("Application preferences changed"@)
}

pub open spec fn save_settings_outcome(
    next: SettingsValues,
    current: Result<AppSettings, String>,
    saved: Result<AppSettings, String>,
    recorded: Result<ActivityEntry, String>,
    r: Result<AppSettings, ApplicationError>,
) -> bool {
    match current {
        Err(e) => r matches Err(ApplicationError::Storage(m)) && m@ == storage_message(
            "load current settings"@,
            e@,
        ),
        Ok(c) => if c.spec_values() == next {
            r == Ok::<AppSettings, ApplicationError>(c)
        } else {
            match saved {
                Err(e) => r matches Err(ApplicationError::Storage(m)) && m@ == storage_message(
                    "save settings"@,
                    e@,
                ),
                Ok(s) => s.spec_values() == next && match recorded {
                    Err(e) => r matches Err(ApplicationError::Storage(m)) && m@
                        == storage_message("create settings activity entry"@, e@),
                    Ok(entry) => settings_updated_entry_copy(entry) && r == Ok::<
                        AppSettings,
                        ApplicationError,
                    >(s),
                },
            }
        },
    }
}

/// Saves validated settings. When they equal the stored ones nothing is
/// written and the stored settings come back; otherwise they are saved and a
/// settings entry is added to the activity log.
pub fn save_settings<S: AppStore>(store: &S, input: SettingsInput) -> (r: Result<
    AppSettings,
    ApplicationError,
>)
    ensures
        spec_validate_settings(input) matches Err(m) ==> validation_err(r, m),
        spec_validate_settings(input) matches Ok(next) ==> (r matches Ok(s) ==> s.spec_values()
            == next),
        spec_validate_settings(input) matches Ok(next) ==> exists|
            current: Result<AppSettings, String>,
            saved: Result<AppSettings, String>,
            recorded: Result<ActivityEntry, String>,
        | #[trigger] save_settings_outcome(next, current, saved, recorded, r),
{
    let next_settings = validate_settings(input)?;
    let current = store.get_settings();
    let ghost current_answer = current;
    let ghost no_save: Result<AppSettings, String> = arbitrary();
    let ghost no_record: Result<ActivityEntry, String> = arbitrary();
    let current_settings = match storage_result("load current settings", current) {
        Ok(c) => c,
        Err(e) => {
            let r = Err(e);
            proof {
                assert(save_settings_outcome(next_settings, current_answer, no_save, no_record, r));
            }
            return r;
        },
    };
    match settings_save_step(&current_settings, &next_settings) {
        SaveStep::KeepCurrent => {
            let r = Ok(current_settings);
            proof {
                assert(save_settings_outcome(next_settings, current_answer, no_save, no_record, r));
            }
            r
        },
        SaveStep::SaveAndRecord(entry) => {
            let saved = store.save_settings(next_settings);
            let ghost saved_answer = saved;
            let saved_settings = match storage_result("save settings", saved) {
                Ok(s) => s,
                Err(e) => {
                    let r = Err(e);
                    proof {
                        assert(save_settings_outcome(next_settings, current_answer, saved_answer, no_record, r));
                    }
                    return r;
                },
            };
            let recorded = store.create_activity_entry(entry);
            let ghost recorded_answer = recorded;
            let r = match storage_result("create settings activity entry", recorded) {
                Ok(_) => Ok(saved_settings),
                Err(e) => Err(e),
            };
            proof {
                assert(save_settings_outcome(next_settings, current_answer, saved_answer, recorded_answer, r));
            }
            r
        },
    }
}

pub open spec fn effective_activity_limit(input: ActivityListInput) -> i64 {
    match input.limit {
        Some(l) => l,
        None => DEFAULT_ACTIVITY_LIMIT,
    }
}

/// What listing gives for the store's answer: its entries as they are (at
/// most the limit asked for, of the kind asked for), or its error as a
/// failed listing.
pub open spec fn activity_list_outcome(
    input: ActivityListInput,
    answer: Result<Vec<ActivityEntry>, String>,
    r: Result<ActivityEntries, ApplicationError>,
) -> bool {
    match answer {
        Ok(records) => is_activity_listing(records@, effective_activity_limit(input), input.kind)
            && r == Ok::<ActivityEntries, ApplicationError>(ActivityEntries { records }),
        Err(e) => r matches Err(ApplicationError::Storage(m)) && m@ == storage_message(
            "list activity entries"@,
            e@,
        ),
    }
}

pub fn list_activity_entries<S: AppStore>(store: &S, input: ActivityListInput) -> (r: Result<
    ActivityEntries,
    ApplicationError,
>)
    ensures
        !valid_activity_limit(effective_activity_limit(input)) ==> validation_err(
            r,
            activity_limit_message(),
        ),
        valid_activity_limit(effective_activity_limit(input)) ==> exists|
            answer: Result<Vec<ActivityEntry>, String>,
        | #[trigger] activity_list_outcome(input, answer, r),
{
    let requested = match input.limit {
        Some(l) => l,
        None => DEFAULT_ACTIVITY_LIMIT,
    };
    let limit = normalize_activity_limit(requested)?;
    let answer = store.list_activity_entries(limit, input.kind);
    let ghost a = answer;
    let r = match storage_result("list activity entries", answer) {
        Ok(records) => Ok(ActivityEntries { records }),
        Err(e) => Err(e),
    };
    assert(activity_list_outcome(input, a, r));
    r
}

pub fn create_activity_note<S: AppStore>(store: &S, input: ActivityNoteInput) -> (r: Result<
    ActivityEntry,
    ApplicationError,
>)
    ensures
        spec_validate_activity_note(input) matches Err(m) ==> validation_err(r, m),
        spec_validate_activity_note(input) is Ok ==> exists|answer: Result<ActivityEntry, String>|
            #[trigger] spec_storage_result("create activity note"@, answer, r),
        spec_validate_activity_note(input) matches Ok((title, body)) ==> (r matches Ok(e) ==> (
        e.kind == ActivityKind::Note && e.title@ == title && opt_string_view(e.body) == body)),
{
    let entry = validate_activity_note(input)?;
    let answer = store.create_activity_entry(entry);
    let ghost a = answer;
    let r = storage_result("create activity note", answer);
    proof {
        reveal_strlit("create activity note");
        assert(spec_storage_result("create activity note"@, a, r));
    }
    r
}

/// The export of an activity entry: everything but its id.
pub open spec fn is_local_copy(local: LocalActivityEntry, entry: ActivityEntry) -> bool {
    &&& local.kind == entry.kind
    &&& local.title == entry.title
    &&& local.body == entry.body
    &&& local.created_at == entry.created_at
}

/// `data` is the export of `settings` and `entries`, in order.
pub open spec fn is_export_of(data: LocalDataExport, settings: AppSettings, entries: Seq<ActivityEntry>) -> bool {
    &&& data.format_version == LOCAL_DATA_FORMAT_VERSION
    &&& data.settings == settings.spec_values()
    &&& data.activity_entries@.len() == entries.len()
    &&& forall|i: int|
        0 <= i < entries.len() ==> is_local_copy(#[trigger] data.activity_entries@[i], entries[i])
}

pub fn local_data_export(settings: &AppSettings, entries: Vec<ActivityEntry>) -> (r: LocalDataExport)
    ensures
        is_export_of(r, *settings, entries@),
{
    let mut activity_entries: Vec<LocalActivityEntry> = Vec::new();
    let mut i: usize = 0;
    while i < entries.len()
        invariant
            i <= entries.len(),
            activity_entries@.len() == i,
            forall|j: int|
                0 <= j < i ==> is_local_copy(#[trigger] activity_entries@[j], entries@[j]),
        decreases entries.len() - i,
    {
        let entry = &entries[i];
        activity_entries.push(
            LocalActivityEntry {
                kind: entry.kind,
                title: entry.title.clone(),
                body: clone_opt_string(&entry.body),
                created_at: entry.created_at.clone(),
            },
        );
        i = i + 1;
    }
    LocalDataExport {
        format_version: LOCAL_DATA_FORMAT_VERSION,
        settings: settings.values(),
        activity_entries,
    }
}

/// What the export gives for the store's answers: to the read of the
/// settings, then to the listing of every activity entry.
pub open spec fn export_outcome(
    settings: Result<AppSettings, String>,
    entries: Result<Vec<ActivityEntry>, String>,
    r: Result<LocalDataExport, ApplicationError>,
) -> bool {
    match settings {
        Err(e) => r matches Err(ApplicationError::Storage(m)) && m@ == storage_message(
            "load settings for export"@,
            e@,
        ),
        Ok(s) => match entries {
            Err(e) => r matches Err(ApplicationError::Storage(m)) && m@ == storage_message(
                "list activity entries for export"@,
                e@,
            ),
            Ok(list) => r is Ok && is_export_of(r->Ok_0, s, list@),
        },
    }
}

pub fn export_local_data<S: AppStore>(store: &S) -> (r: Result<LocalDataExport, ApplicationError>)
    ensures
        exists|settings: Result<AppSettings, String>, entries: Result<Vec<ActivityEntry>, String>|
            #[trigger] export_outcome(settings, entries, r),
{
    let ghost no_entries: Result<Vec<ActivityEntry>, String> = arbitrary();
    let answer = store.get_settings();
    let ghost sa = answer;
    let settings = match storage_result("load settings for export", answer) {
        Ok(s) => s,
        Err(e) => {
            let r = Err(e);
            assert(export_outcome(sa, no_entries, r));
            return r;
        },
    };
    let listed = store.list_all_activity_entries();
    let ghost la = listed;
    let r = match storage_result("list activity entries for export", listed) {
        Ok(entries) => Ok(local_data_export(&settings, entries)),
        Err(e) => Err(e),
    };
    assert(export_outcome(sa, la, r));
    r
}

/// The first rule an import breaks, as the message that reports it.
pub open spec fn import_error(data: LocalDataExport) -> Option<Seq<char>> {
    if data.format_version != LOCAL_DATA_FORMAT_VERSION {
        Some("Unsupported import format version: "@ + decimal_of(data.format_version as int))
    } else if settings_values_error(data.settings) is Some {
        settings_values_error(data.settings)
    } else if exists|i: int|
        0 <= i < data.activity_entries@.len() && local_activity_entry_error(
            #[trigger] data.activity_entries@[i],
        ) is Some {
        local_activity_entry_error(
            data.activity_entries@[first_bad_entry(data.activity_entries@)],
        )
    } else {
        None
    }
}

/// The position of the first entry that breaks a rule.
pub open spec fn first_bad_entry(entries: Seq<LocalActivityEntry>) -> int {
    choose|i: int|
        0 <= i < entries.len() && local_activity_entry_error(#[trigger] entries[i]) is Some && (
        forall|j: int| 0 <= j < i ==> local_activity_entry_error(#[trigger] entries[j]) is None)
}

/// Imports already decoded local data: checks the format version, the
/// settings and every entry, then writes them in one step.
pub fn import_local_data<S: AppStore>(store: &S, data: LocalDataExport) -> (r: Result<
    ImportLocalDataResult,
    ApplicationError,
>)
    ensures
        import_error(data) matches Some(m) ==> validation_err(r, m),
        import_error(data) is None ==> exists|answer: Result<ImportLocalDataResult, String>|
            #[trigger] spec_storage_result("import local data"@, answer, r),
        r matches Ok(result) ==> is_import_result(
            result,
            data.settings,
            data.activity_entries@.len(),
        ),
{
    if data.format_version != LOCAL_DATA_FORMAT_VERSION {
        let version = i64_to_decimal(data.format_version);
        return Err(
            ApplicationError::Validation(
                concat_strs("Unsupported import format version: ", version.as_str()),
            ),
        );
    }
    validate_settings_values(&data.settings)?;
    let mut i: usize = 0;
    while i < data.activity_entries.len()
        invariant
            i <= data.activity_entries@.len(),
            data.format_version == LOCAL_DATA_FORMAT_VERSION,
            settings_values_error(data.settings) is None,
            forall|j: int|
                0 <= j < i ==> local_activity_entry_error(#[trigger] data.activity_entries@[j])
                    is None,
        decreases data.activity_entries@.len() - i,
    {
        let checked = validate_local_activity_entry(&data.activity_entries[i]);
        if checked.is_err() {
            proof {
                let entries = data.activity_entries@;
                assert(local_activity_entry_error(entries[i as int]) is Some);
                assert(0 <= i < entries.len() && local_activity_entry_error(entries[i as int])
                    is Some && (forall|j: int|
                    0 <= j < i ==> local_activity_entry_error(#[trigger] entries[j]) is None));
                let k = first_bad_entry(entries);
                assert(0 <= k < entries.len() && local_activity_entry_error(entries[k]) is Some
                    && (forall|j: int|
                    0 <= j < k ==> local_activity_entry_error(#[trigger] entries[j]) is None));
                if k < i {
                    assert(local_activity_entry_error(entries[k]) is None);
                } else if k > i {
                    assert(local_activity_entry_error(entries[i as int]) is None);
                }
                assert(k == i);
            }
            return match checked {
                Err(e) => Err(e),
                Ok(_) => Err(ApplicationError::Validation("".to_owned())),
            };
        }
        i = i + 1;
    }
    let answer = store.import_local_data(data.settings, data.activity_entries);
    let ghost a = answer;
    let r = storage_result("import local data", answer);
    proof {
        reveal_strlit("import local data");
        assert(spec_storage_result("import local data"@, a, r));
    }
    r
}

/// What saving and note creation accept, an import accepts back: an export
/// of settings that saving accepted and of notes that note creation accepted
/// (each with the creation time the store gave it) passes every check of the
/// import.
pub proof fn lemma_accepted_data_imports_back(
    settings_input: SettingsInput,
    notes: Seq<ActivityNoteInput>,
    data: LocalDataExport,
)
    requires
        spec_validate_settings(settings_input) is Ok,
        data.format_version == LOCAL_DATA_FORMAT_VERSION,
        data.settings == spec_validate_settings(settings_input)->Ok_0,
        data.activity_entries@.len() == notes.len(),
        forall|i: int|
            0 <= i < notes.len() ==> {
                let entry = #[trigger] data.activity_entries@[i];
                &&& spec_validate_activity_note(notes[i]) matches Ok((title, body))
                &&& entry.title@ == title
                &&& opt_string_view(entry.body) == body
                &&& crate::text::trimmed(entry.created_at@).len() > 0
            },
    ensures
        import_error(data) is None,
{
    assert forall|i: int| 0 <= i < data.activity_entries@.len() implies local_activity_entry_error(
        #[trigger] data.activity_entries@[i],
    ) is None by {
        let entry = data.activity_entries@[i];
        crate::validation::lemma_trimmed_idempotent(notes[i].title@);
        if let Some(b) = notes[i].body {
            crate::validation::lemma_trimmed_idempotent(b@);
        }
    }
}

pub open spec fn clear_confirmation_message() -> Seq<char> {
    "Activity clear confirmation is required"@
}

/// What clearing gives for the store's answer: the number of entries it
/// deleted, or its error as a failed clear.
pub open spec fn clear_outcome(answer: Result<i64, String>, r: Result<ClearActivityResult, ApplicationError>) -> bool {
    match answer {
        Ok(deleted_count) => r == Ok::<ClearActivityResult, ApplicationError>(
            ClearActivityResult { deleted_count },
        ),
        Err(e) => r matches Err(ApplicationError::Storage(m)) && m@ == storage_message(
            "clear activity entries"@,
            e@,
        ),
    }
}

pub fn clear_activity_entries<S: AppStore>(store: &S, confirm: bool) -> (r: Result<
    ClearActivityResult,
    ApplicationError,
>)
    ensures
        !confirm ==> validation_err(r, clear_confirmation_message()),
        confirm ==> exists|answer: Result<i64, String>| #[trigger] clear_outcome(answer, r),
{
    if !confirm {
        return Err(
            ApplicationError::Validation("Activity clear confirmation is required".to_owned()),
        );
    }
    let answer = store.clear_activity_entries();
    let ghost a = answer;
    let r = match storage_result("clear activity entries", answer) {
        Ok(deleted_count) => Ok(ClearActivityResult { deleted_count }),
        Err(e) => Err(e),
    };
    assert(clear_outcome(a, r));
    r
}

// ---------------------------------------------------------------------------
// Player notes

pub fn clone_strings(v: &Vec<String>) -> (r: Vec<String>)
    ensures
        r@ == v@,
{
    let mut out: Vec<String> = Vec::new();
    let mut i: usize = 0;
    while i < v.len()
        invariant
            i <= v.len(),
            out@ == v@.take(i as int),
        decreases v.len() - i,
    {
        out.push(v[i].clone());
        proof {
            assert(v@.take(i + 1) == v@.take(i as int).push(v@[i as int]));
        }
        i = i + 1;
    }
    proof {
        assert(v@.take(v@.len() as int) == v@);
    }
    out
}

/// What the match screens show of a player's note: whether there is note
/// text, and its tags.
pub open spec fn spec_note_summary(note: Option<StoredPlayerNote>) -> (bool, Seq<String>) {
    match note {
        Some(n) => (n.note is Some, n.tags@),
        None => (false, Seq::empty()),
    }
}

pub fn note_summary_of(note: Option<StoredPlayerNote>) -> (r: PlayerNoteSummary)
    ensures
        (r.has_note, r.tags@) == spec_note_summary(note),
{
    match note {
        Some(n) => PlayerNoteSummary { has_note: n.note.is_some(), tags: n.tags },
        None => PlayerNoteSummary { has_note: false, tags: Vec::new() },
    }
}

/// What the note summary gives for the store's answer: the summary of the
/// note it found, or its error as it stands.
pub open spec fn note_summary_outcome(
    answer: Result<Option<StoredPlayerNote>, String>,
    r: Result<PlayerNoteSummary, ApplicationError>,
) -> bool {
    match answer {
        Ok(note) => r matches Ok(summary) && (summary.has_note, summary.tags@) == spec_note_summary(
            note,
        ),
        Err(e) => r matches Err(ApplicationError::Storage(m)) && m@ == e@,
    }
}

/// The note summary of a player; a player without an identity has none.
pub fn player_note_summary<S: AppStore>(store: &S, player_puuid: Option<&str>) -> (r: Result<
    PlayerNoteSummary,
    ApplicationError,
>)
    ensures
        player_puuid is None ==> (r matches Ok(summary) && !summary.has_note
            && summary.tags@.len() == 0),
        player_puuid is Some ==> exists|answer: Result<Option<StoredPlayerNote>, String>|
            #[trigger] note_summary_outcome(answer, r),
{
    match player_puuid {
        None => {
            let summary = PlayerNoteSummary { has_note: false, tags: Vec::new() };
            assert(spec_note_summary(None) == (summary.has_note, summary.tags@));
            Ok(summary)
        },
        Some(puuid) => {
            let answer = store.get_player_note(puuid);
            let ghost a = answer;
            let r = match plain_storage_result(answer) {
                Ok(note) => Ok(note_summary_of(note)),
                Err(e) => Err(e),
            };
            assert(note_summary_outcome(a, r));
            r
        },
    }
}

pub open spec fn is_note_view(
    view: PlayerNoteView,
    game_id: i64,
    participant_id: i64,
    note: Option<StoredPlayerNote>,
) -> bool {
    &&& view.game_id == game_id
    &&& view.participant_id == participant_id
    &&& match note {
        Some(n) => view.note == n.note && view.tags == n.tags && view.updated_at == Some(
            n.updated_at,
        ),
        None => view.note is None && view.tags@.len() == 0 && view.updated_at is None,
    }
}

pub fn player_note_view(game_id: i64, participant_id: i64, note: Option<StoredPlayerNote>) -> (r:
    PlayerNoteView)
    ensures
        is_note_view(r, game_id, participant_id, note),
{
    match note {
        Some(note) => PlayerNoteView {
            game_id,
            participant_id,
            note: note.note,
            tags: note.tags,
            updated_at: Some(note.updated_at),
        },
        None => PlayerNoteView {
            game_id,
            participant_id,
            note: None,
            tags: Vec::new(),
            updated_at: None,
        },
    }
}

/// The first rule a note save breaks, as the message that reports it.
pub open spec fn save_note_error(input: SavePlayerNoteInput) -> Option<Seq<char>> {
    if game_and_participant_error(input.game_id, input.participant_id) is Some {
        game_and_participant_error(input.game_id, input.participant_id)
    } else {
        match spec_normalize_player_note(opt_string_view(input.note)) {
            Err(m) => Some(m),
            Ok(_) => match spec_normalize_player_tags(strings_view(input.tags@)) {
                Err(m) => Some(m),
                Ok(_) => None,
            },
        }
    }
}

/// `saved` is the note of `input` for the player: the trimmed note (none
/// when blank) and the trimmed tags without repeats.
pub open spec fn is_saved_note(
    saved: StoredPlayerNote,
    input: SavePlayerNoteInput,
    player_puuid: Seq<char>,
    display_name: Seq<char>,
) -> bool {
    &&& saved.player_puuid@ == player_puuid
    &&& saved.last_display_name@ == display_name
    &&& spec_normalize_player_note(opt_string_view(input.note)) == Ok::<
        Option<Seq<char>>,
        Seq<char>,
    >(opt_string_view(saved.note))
    &&& spec_normalize_player_tags(strings_view(input.tags@)) == Ok::<Seq<Seq<char>>, Seq<char>>(
        strings_view(saved.tags@),
    )
}

/// What a note save gives for the store's answer: the view of the note it
/// saved, which is the note handed to it, or its error as it stands.
pub open spec fn note_save_outcome(
    input: SavePlayerNoteInput,
    player_puuid: Seq<char>,
    display_name: Seq<char>,
    answer: Result<StoredPlayerNote, String>,
    r: Result<PlayerNoteView, ApplicationError>,
) -> bool {
    match answer {
        Ok(saved) => is_saved_note(saved, input, player_puuid, display_name) && (r matches Ok(view)
            && is_note_view(view, input.game_id, input.participant_id, Some(saved))),
        Err(e) => r matches Err(ApplicationError::Storage(m)) && m@ == e@,
    }
}

/// Saves a note for a player already identified from the match: the note is
/// trimmed (a blank one is dropped) and the tags are trimmed and deduplicated.
pub fn save_player_note_for_resolved_player<S: AppStore>(
    store: &S,
    input: SavePlayerNoteInput,
    player_puuid: String,
    display_name: String,
) -> (r: Result<PlayerNoteView, ApplicationError>)
    ensures
        save_note_error(input) matches Some(m) ==> validation_err(r, m),
        save_note_error(input) is None ==> exists|answer: Result<StoredPlayerNote, String>|
            #[trigger] note_save_outcome(input, player_puuid@, display_name@, answer, r),
{
    validate_game_and_participant_ids(input.game_id, input.participant_id)?;
    let note = normalize_player_note(input.note)?;
    let tags = normalize_player_tags(input.tags)?;
    proof {
        crate::validation::lemma_normalized_note_is_normal(opt_string_view(note));
        crate::validation::lemma_normalized_tags_are_normal(strings_view(input.tags@));
    }
    let ghost puuid_view = player_puuid@;
    let ghost name_view = display_name@;
    let answer = store.save_player_note(
        StoredPlayerNoteInput { player_puuid, last_display_name: display_name, note, tags },
    );
    let ghost a = answer;
    let r = match plain_storage_result(answer) {
        Ok(saved) => Ok(player_note_view(input.game_id, input.participant_id, Some(saved))),
        Err(e) => Err(e),
    };
    assert(note_save_outcome(input, puuid_view, name_view, a, r));
    r
}

/// What clearing a note gives for the store's answer: whether it removed
/// one, or its error as it stands.
pub open spec fn note_clear_outcome(answer: Result<bool, String>, r: Result<ClearPlayerNoteResult, ApplicationError>) -> bool {
    match answer {
        Ok(cleared) => r == Ok::<ClearPlayerNoteResult, ApplicationError>(
            ClearPlayerNoteResult { cleared },
        ),
        Err(e) => r matches Err(ApplicationError::Storage(m)) && m@ == e@,
    }
}

pub fn clear_player_note_for_resolved_player<S: AppStore>(
    store: &S,
    input: ClearPlayerNoteInput,
    player_puuid: &str,
) -> (r: Result<ClearPlayerNoteResult, ApplicationError>)
    ensures
        game_and_participant_error(input.game_id, input.participant_id) matches Some(m)
            ==> validation_err(r, m),
        game_and_participant_error(input.game_id, input.participant_id) is None ==> exists|
            answer: Result<bool, String>,
        | #[trigger] note_clear_outcome(answer, r),
{
    validate_game_and_participant_ids(input.game_id, input.participant_id)?;
    let answer = store.clear_player_note(player_puuid);
    let ghost a = answer;
    let r = match plain_storage_result(answer) {
        Ok(cleared) => Ok(ClearPlayerNoteResult { cleared }),
        Err(e) => Err(e),
    };
    assert(note_clear_outcome(a, r));
    r
}

// ---------------------------------------------------------------------------
// Ranked champion statistics

pub open spec fn effective_sort(input: RankedChampionStatsInput) -> RankedChampionSort {
    match input.sort_by {
        Some(s) => s,
        None => RankedChampionSort::Overall,
    }
}

/// `response` lists the records of `source` in the requested lane, in rank
/// order.
pub open spec fn lists_ranked(
    response: RankedChampionStatsResponse,
    source: Seq<RankedChampionStat>,
    input: RankedChampionStatsInput,
) -> bool {
    &&& response.lane == input.lane
    &&& response.sort_by == effective_sort(input)
    &&& is_stable_rank_sort(
        response.records@,
        lane_filter(source, input.lane),
        effective_sort(input),
    )
}

/// The records of a ranked response are in descending order of the field
/// chosen to sort by, read on the records themselves: the overall score, the
/// win rate, the ban rate or the pick rate.
pub proof fn lemma_ranked_response_follows_field(
    response: RankedChampionStatsResponse,
    source: Seq<RankedChampionStat>,
    input: RankedChampionStatsInput,
)
    requires
        lists_ranked(response, source, input),
    ensures
        forall|i: int, j: int|
            0 <= i < j < response.records@.len() ==> {
                let (a, b) = (#[trigger] response.records@[i], #[trigger] response.records@[j]);
                &&& effective_sort(input) == RankedChampionSort::Overall ==> a.overall_score
                    >= b.overall_score
                &&& effective_sort(input) == RankedChampionSort::WinRate ==> a.win_rate >= b.win_rate
                &&& effective_sort(input) == RankedChampionSort::BanRate ==> a.ban_rate >= b.ban_rate
                &&& effective_sort(input) == RankedChampionSort::PickRate ==> a.pick_rate
                    >= b.pick_rate
            },
        input.lane matches Some(l) ==> forall|i: int|
            0 <= i < response.records@.len() ==> (#[trigger] response.records@[i]).lane == l,
{
    let out = response.records@;
    let sort_by = effective_sort(input);
    assert(sorted_by_rank(out, sort_by));
    crate::ranked::lemma_rank_order_follows_field(out, sort_by);
    assert forall|i: int, j: int| 0 <= i < j < out.len() implies {
        let (a, b) = (#[trigger] out[i], #[trigger] out[j]);
        &&& sort_by == RankedChampionSort::Overall ==> a.overall_score >= b.overall_score
        &&& sort_by == RankedChampionSort::WinRate ==> a.win_rate >= b.win_rate
        &&& sort_by == RankedChampionSort::BanRate ==> a.ban_rate >= b.ban_rate
        &&& sort_by == RankedChampionSort::PickRate ==> a.pick_rate >= b.pick_rate
    } by {
        let (a, b) = (out[i], out[j]);
    }
    let inp = lane_filter(source, input.lane);
    crate::ranked::lemma_lane_filter_keeps_the_lane(source, input.lane);
    if input.lane is Some {
        let perm = choose|perm: Seq<int>|
            {
                &&& is_permutation(perm, inp.len() as int)
                &&& out.len() == inp.len()
                &&& forall|i: int| 0 <= i < out.len() ==> #[trigger] out[i] == inp[perm[i]]
                &&& sorted_by_rank(out, sort_by)
                &&& forall|i: int, j: int|
                    0 <= i < j < out.len() && same_rank(#[trigger] out[i], #[trigger] out[j], sort_by)
                        ==> perm[i] < perm[j]
            };
        assert forall|i: int| 0 <= i < out.len() implies (#[trigger] out[i]).lane == input.lane->0 by {
            assert(out[i] == inp[perm[i]]);
        }
    }
}

/// `response` shows the built-in sample.
pub open spec fn is_sample_response(
    response: RankedChampionStatsResponse,
    input: RankedChampionStatsInput,
) -> bool {
    &&& exists|seeds: Seq<RankedChampionStat>|
        is_seed_records(seeds) && #[trigger] lists_ranked(response, seeds, input)
    &&& response.source@ == "Local ranked data sample"@
    &&& response.updated_at@ == "2026-04-24"@
    &&& response.generated_at is None
    &&& response.imported_at is None
    &&& response.patch is None
    &&& response.region is None
    &&& opt_string_view(response.queue) == Some("RANKED_SOLO_5x5"@)
    &&& opt_string_view(response.tier) == Some("sample"@)
    &&& !response.is_cached
    &&& response.data_status == RankedChampionDataStatus::Sample
    &&& opt_string_view(response.status_message) == Some(
        "Sample data is shown until ranked champion data is refreshed"@,
    )
}

/// `response` shows `snapshot` with the given cache flag, status and message.
pub open spec fn is_snapshot_response(
    response: RankedChampionStatsResponse,
    snapshot: RankedChampionDataSnapshot,
    input: RankedChampionStatsInput,
    is_cached: bool,
    data_status: RankedChampionDataStatus,
    status_message: Option<Seq<char>>,
) -> bool {
    &&& lists_ranked(response, snapshot.records@, input)
    &&& response.source == snapshot.source
    &&& response.updated_at == match snapshot.generated_at {
        Some(g) => g,
        None => snapshot.imported_at,
    }
    &&& response.generated_at == snapshot.generated_at
    &&& response.imported_at == Some(snapshot.imported_at)
    &&& response.patch == snapshot.patch
    &&& response.region == snapshot.region
    &&& response.queue == snapshot.queue
    &&& response.tier == snapshot.tier
    &&& response.is_cached == is_cached
    &&& response.data_status == data_status
    &&& opt_string_view(response.status_message) == status_message
}

pub fn get_ranked_champion_stats(input: RankedChampionStatsInput) -> (r: RankedChampionStatsResponse)
    ensures
        is_sample_response(r, input),
{
    let sort_by = match input.sort_by {
        Some(s) => s,
        None => RankedChampionSort::Overall,
    };
    let seeds = ranked_champion_seeds();
    let filtered = filter_by_lane(&seeds, input.lane);
    let records = sort_ranked_records(&filtered, sort_by);
    let r = RankedChampionStatsResponse {
        lane: input.lane,
        sort_by,
        records,
        source: "Local ranked data sample".to_owned(),
        updated_at: "2026-04-24".to_owned(),
        generated_at: None,
        imported_at: None,
        patch: None,
        region: None,
        queue: Some("RANKED_SOLO_5x5".to_owned()),
        tier: Some("sample".to_owned()),
        is_cached: false,
        data_status: RankedChampionDataStatus::Sample,
        status_message: Some("Sample data is shown until ranked champion data is refreshed".to_owned()),
    };
    proof {
        assert(lists_ranked(r, seeds@, input));
    }
    r
}

pub fn ranked_response_from_snapshot(
    snapshot: RankedChampionDataSnapshot,
    input: RankedChampionStatsInput,
    is_cached: bool,
    data_status: RankedChampionDataStatus,
    status_message: Option<String>,
) -> (r: RankedChampionStatsResponse)
    ensures
        is_snapshot_response(
            r,
            snapshot,
            input,
            is_cached,
            data_status,
            opt_string_view(status_message),
        ),
{
    let sort_by = match input.sort_by {
        Some(s) => s,
        None => RankedChampionSort::Overall,
    };
    let filtered = filter_by_lane(&snapshot.records, input.lane);
    let records = sort_ranked_records(&filtered, sort_by);
    let updated_at = match &snapshot.generated_at {
        Some(g) => g.clone(),
        None => snapshot.imported_at.clone(),
    };
    RankedChampionStatsResponse {
        lane: input.lane,
        sort_by,
        records,
        source: snapshot.source,
        updated_at,
        generated_at: snapshot.generated_at,
        imported_at: Some(snapshot.imported_at),
        patch: snapshot.patch,
        region: snapshot.region,
        queue: snapshot.queue,
        tier: snapshot.tier,
        is_cached,
        data_status,
        status_message,
    }
}

/// The statistics shown for what the store held: the cached snapshot, or the
/// sample when there is none.
pub fn ranked_stats_from_cache(
    cached: Result<Option<RankedChampionDataSnapshot>, String>,
    input: RankedChampionStatsInput,
) -> (r: Result<RankedChampionStatsResponse, ApplicationError>)
    ensures
        match cached {
            Err(e) => r matches Err(ApplicationError::Storage(m)) && m@ == e@,
            Ok(Some(snapshot)) => r matches Ok(response) && is_snapshot_response(
                response,
                snapshot,
                input,
                true,
                RankedChampionDataStatus::Cached,
                None,
            ),
            Ok(None) => r matches Ok(response) && is_sample_response(response, input),
        },
{
    match plain_storage_result(cached)? {
        Some(snapshot) => Ok(
            ranked_response_from_snapshot(
                snapshot,
                input,
                true,
                RankedChampionDataStatus::Cached,
                None,
            ),
        ),
        None => Ok(get_ranked_champion_stats(input)),
    }
}

/// What the statistics give for the store's answer to the read of the
/// cached snapshot: the snapshot's records, the sample when there is none,
/// or the store's error as it stands.
pub open spec fn cached_stats_outcome(
    cached: Result<Option<RankedChampionDataSnapshot>, String>,
    input: RankedChampionStatsInput,
    r: Result<RankedChampionStatsResponse, ApplicationError>,
) -> bool {
    match cached {
        Err(e) => r matches Err(ApplicationError::Storage(m)) && m@ == e@,
        Ok(Some(snapshot)) => r matches Ok(response) && is_snapshot_response(
            response,
            snapshot,
            input,
            true,
            RankedChampionDataStatus::Cached,
            None,
        ),
        Ok(None) => r matches Ok(response) && is_sample_response(response, input),
    }
}

pub fn get_ranked_champion_stats_from_store<S: AppStore>(
    store: &S,
    input: RankedChampionStatsInput,
) -> (r: Result<RankedChampionStatsResponse, ApplicationError>)
    ensures
        exists|cached: Result<Option<RankedChampionDataSnapshot>, String>|
            #[trigger] cached_stats_outcome(cached, input, r),
{
    let cached = store.latest_ranked_champion_snapshot();
    let ghost c = cached;
    let r = ranked_stats_from_cache(cached, input);
    assert(cached_stats_outcome(c, input, r));
    r
}

pub open spec fn stale_cache_message() -> Seq<char> {
    "Remote ranked champion data could not be refreshed; showing cached data"@
}

pub open spec fn refreshed_message() -> Seq<char> {
    "Ranked champion data refreshed"@
}

/// What a failed refresh shows: the cached snapshot marked stale, or the
/// provider's error when nothing is cached.
/// What a refresh whose fetch failed with `error` shows for the store's
/// answer to the read of the cached snapshot.
pub open spec fn fallback_outcome(
    error: RankedChampionDataError,
    cached: Result<Option<RankedChampionDataSnapshot>, String>,
    stats_input: RankedChampionStatsInput,
    r: Result<RankedChampionStatsResponse, ApplicationError>,
) -> bool {
    match cached {
        Err(e) => r matches Err(ApplicationError::Storage(m)) && m@ == e@,
        Ok(Some(snapshot)) => r matches Ok(response) && is_snapshot_response(
            response,
            snapshot,
            stats_input,
            true,
            RankedChampionDataStatus::StaleCache,
            Some(stale_cache_message()),
        ),
        Ok(None) => r matches Err(ApplicationError::Integration(m)) && m@ == error.spec_message(),
    }
}

/// What a refresh shows for the store's answer to the save of the fetched
/// snapshot.
pub open spec fn saved_outcome(
    saved: Result<RankedChampionDataSnapshot, String>,
    stats_input: RankedChampionStatsInput,
    r: Result<RankedChampionStatsResponse, ApplicationError>,
) -> bool {
    match saved {
        Err(e) => r matches Err(ApplicationError::Storage(m)) && m@ == e@,
        Ok(snapshot) => r matches Ok(response) && is_snapshot_response(
            response,
            snapshot,
            stats_input,
            true,
            RankedChampionDataStatus::Fresh,
            Some(refreshed_message()),
        ),
    }
}

/// What a refresh shows for the provider's answer, the store's answer to
/// the read of the cached snapshot (after a failed fetch) and the store's
/// answer to the save (after a fetch).
pub open spec fn refresh_outcome(
    fetched: Result<RankedChampionDataSnapshot, RankedChampionDataError>,
    cached: Result<Option<RankedChampionDataSnapshot>, String>,
    saved: Result<RankedChampionDataSnapshot, String>,
    stats_input: RankedChampionStatsInput,
    r: Result<RankedChampionStatsResponse, ApplicationError>,
) -> bool {
    match fetched {
        Err(error) => fallback_outcome(error, cached, stats_input, r),
        Ok(f) => (saved matches Ok(s) ==> is_import_of(s, f)) && saved_outcome(saved, stats_input, r),
    }
}

/// `saved` is the fetched snapshot as stored with the time of its import:
/// the source, patch, region, queue, tier and generation time of `fetched`,
/// and a Unix time in decimal.
pub open spec fn is_import_of(saved: RankedChampionDataSnapshot, fetched: RankedChampionDataSnapshot) -> bool {
    &&& saved.source@ == fetched.source@
    &&& opt_string_view(saved.patch) == opt_string_view(fetched.patch)
    &&& opt_string_view(saved.region) == opt_string_view(fetched.region)
    &&& opt_string_view(saved.queue) == opt_string_view(fetched.queue)
    &&& opt_string_view(saved.tier) == opt_string_view(fetched.tier)
    &&& opt_string_view(saved.generated_at) == opt_string_view(fetched.generated_at)
    &&& exists|secs: nat| saved.imported_at@ == #[trigger] crate::decimal::decimal_digits(secs)
}

/// The fetched snapshot stamped with the time of its import.
pub fn stamped_snapshot(snapshot: RankedChampionDataSnapshot, imported_at: String) -> (r:
    RankedChampionDataSnapshot)
    ensures
        r == (RankedChampionDataSnapshot { imported_at, ..snapshot }),
{
    let mut snapshot = snapshot;
    snapshot.imported_at = imported_at;
    snapshot
}

pub fn ranked_refresh_fallback(
    error: RankedChampionDataError,
    cached: Result<Option<RankedChampionDataSnapshot>, String>,
    stats_input: RankedChampionStatsInput,
) -> (r: Result<RankedChampionStatsResponse, ApplicationError>)
    ensures
        fallback_outcome(error, cached, stats_input, r),
{
    match plain_storage_result(cached)? {
        None => Err(ranked_provider_error(error)),
        Some(snapshot) => Ok(
            ranked_response_from_snapshot(
                snapshot,
                stats_input,
                true,
                RankedChampionDataStatus::StaleCache,
                Some(
                    "Remote ranked champion data could not be refreshed; showing cached data".to_owned(),
                ),
            ),
        ),
    }
}

/// What a refresh shows once the new snapshot is stored.
pub fn ranked_refresh_saved(
    saved: Result<RankedChampionDataSnapshot, String>,
    stats_input: RankedChampionStatsInput,
) -> (r: Result<RankedChampionStatsResponse, ApplicationError>)
    ensures
        saved_outcome(saved, stats_input, r),
{
    let saved = plain_storage_result(saved)?;
    Ok(
        ranked_response_from_snapshot(
            saved,
            stats_input,
            true,
            RankedChampionDataStatus::Fresh,
            Some("Ranked champion data refreshed".to_owned()),
        ),
    )
}

/// Fetches fresh ranked data and stores it stamped with the import time; when
/// the fetch fails, falls back to the cached snapshot.
pub fn refresh_ranked_champion_stats<S: AppStore, P: RankedChampionDataProvider>(
    store: &S,
    provider: &P,
    input: RankedChampionRefreshInput,
    stats_input: RankedChampionStatsInput,
) -> (r: Result<RankedChampionStatsResponse, ApplicationError>)
    ensures
        r matches Err(e) ==> (e is Storage || e is Integration),
        r matches Ok(response) ==> response.is_cached && response.lane == stats_input.lane
            && response.sort_by == effective_sort(stats_input) && (response.data_status
            == RankedChampionDataStatus::Fresh || response.data_status
            == RankedChampionDataStatus::StaleCache),
        exists|
            fetched: Result<RankedChampionDataSnapshot, RankedChampionDataError>,
            cached: Result<Option<RankedChampionDataSnapshot>, String>,
            saved: Result<RankedChampionDataSnapshot, String>,
        | #[trigger] refresh_outcome(fetched, cached, saved, stats_input, r),
{
    let ghost no_cache: Result<Option<RankedChampionDataSnapshot>, String> = arbitrary();
    let ghost no_save: Result<RankedChampionDataSnapshot, String> = arbitrary();
    let fetched = provider.fetch_ranked_champion_snapshot(input);
    let ghost fa = fetched;
    match fetched {
        Err(error) => {
            let cached = store.latest_ranked_champion_snapshot();
            let ghost ca = cached;
            let r = ranked_refresh_fallback(error, cached, stats_input);
            assert(refresh_outcome(fa, ca, no_save, stats_input, r));
            r
        },
        Ok(snapshot) => {
            let snapshot = stamped_snapshot(snapshot, crate::clock::unix_timestamp_seconds());
            let saved = store.replace_ranked_champion_snapshot(snapshot);
            let ghost sa = saved;
            let r = ranked_refresh_saved(saved, stats_input);
            assert(refresh_outcome(fa, no_cache, sa, stats_input, r));
            r
        },
    }
}

} // verus!
