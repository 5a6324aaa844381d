//! The values the assistant reads, stores and shows.
//!
//! Decimal quantities (KDA ratios, averages, scores and percentages) are
//! always shown rounded to one decimal place; they are held here as whole
//! numbers of tenths (`15.0` is `150`, `51.6` is `516`).

use vstd::prelude::*;

use crate::text::str_eq;

verus! {

#[derive(Debug, Clone, PartialEq, Eq)]
pub struct HealthReport {
    pub status: ServiceStatus,
    pub database_status: DatabaseStatus,
    pub schema_version: Option<i64>,
}

#[derive(Debug, Clone, Copy, PartialEq, Eq, Structural)]
pub enum ServiceStatus {
    Okay,
    Degraded,
}

#[derive(Debug, Clone, Copy, PartialEq, Eq, Structural)]
pub enum DatabaseStatus {
    Okay,
    Unavailable,
}

#[derive(Debug, Clone, PartialEq, Eq)]
pub struct AppSnapshot {
    pub health: HealthReport,
    pub settings: AppSettings,
    pub settings_defaults: SettingsValues,
    pub recent_activity: Vec<ActivityEntry>,
}

#[derive(Debug, Clone, PartialEq, Eq)]
pub struct AppSettings {
    pub startup_page: StartupPage,
    pub language: AppLanguagePreference,
    pub compact_mode: bool,
    pub activity_limit: i64,
    pub auto_accept_enabled: bool,
    pub auto_pick_enabled: bool,
    pub auto_pick_champion_id: Option<i64>,
    pub auto_ban_enabled: bool,
    pub auto_ban_champion_id: Option<i64>,
    pub updated_at: String,
}

#[derive(Debug, Clone, Copy, PartialEq, Eq, Structural)]
pub struct SettingsValues {
    pub startup_page: StartupPage,
    pub language: AppLanguagePreference,
    pub compact_mode: bool,
    pub activity_limit: i64,
    pub auto_accept_enabled: bool,
    pub auto_pick_enabled: bool,
    pub auto_pick_champion_id: Option<i64>,
    pub auto_ban_enabled: bool,
    pub auto_ban_champion_id: Option<i64>,
}

impl AppSettings {
    /// The preference values of these settings, without the timestamp.
    pub open spec fn spec_values(&self) -> SettingsValues {
        SettingsValues {
            startup_page: self.startup_page,
            language: self.language,
            compact_mode: self.compact_mode,
            activity_limit: self.activity_limit,
            auto_accept_enabled: self.auto_accept_enabled,
            auto_pick_enabled: self.auto_pick_enabled,
            auto_pick_champion_id: self.auto_pick_champion_id,
            auto_ban_enabled: self.auto_ban_enabled,
            auto_ban_champion_id: self.auto_ban_champion_id,
        }
    }

    pub fn values(&self) -> (r: SettingsValues)
        ensures
            r == self.spec_values(),
    {
        SettingsValues {
            startup_page: self.startup_page,
            language: self.language,
            compact_mode: self.compact_mode,
            activity_limit: self.activity_limit,
            auto_accept_enabled: self.auto_accept_enabled,
            auto_pick_enabled: self.auto_pick_enabled,
            auto_pick_champion_id: self.auto_pick_champion_id,
            auto_ban_enabled: self.auto_ban_enabled,
            auto_ban_champion_id: self.auto_ban_champion_id,
        }
    }
}

#[derive(Debug, Clone, Copy, PartialEq, Eq, Structural)]
pub enum StartupPage {
    Dashboard,
    Activity,
    Settings,
}

impl StartupPage {
    pub open spec fn spec_as_str(self) -> Seq<char> {
        match self {
            StartupPage::Dashboard => "dashboard"@,
            StartupPage::Activity => "activity"@,
            StartupPage::Settings => "settings"@,
        }
    }

    pub open spec fn spec_parse(value: Seq<char>) -> Option<StartupPage> {
        if value == "dashboard"@ {
            Some(StartupPage::Dashboard)
        } else if value == "activity"@ {
            Some(StartupPage::Activity)
        } else if value == "settings"@ {
            Some(StartupPage::Settings)
        } else {
            None
        }
    }

    pub fn as_str(self) -> (r: &'static str)
        ensures
            r@ == self.spec_as_str(),
    {
        match self {
            StartupPage::Dashboard => "dashboard",
            StartupPage::Activity => "activity",
            StartupPage::Settings => "settings",
        }
    }

    pub fn parse(value: &str) -> (r: Option<StartupPage>)
        ensures
            r == StartupPage::spec_parse(value@),
    {
        if str_eq(value, "dashboard") {
            Some(StartupPage::Dashboard)
        } else if str_eq(value, "activity") {
            Some(StartupPage::Activity)
        } else if str_eq(value, "settings") {
            Some(StartupPage::Settings)
        } else {
            None
        }
    }
}

#[derive(Debug, Clone, Copy, PartialEq, Eq, Structural)]
pub enum AppLanguagePreference {
    System,
    Zh,
    En,
}

impl AppLanguagePreference {
    pub open spec fn spec_as_str(self) -> Seq<char> {
        match self {
            AppLanguagePreference::System => "system"@,
            AppLanguagePreference::Zh => "zh"@,
            AppLanguagePreference::En => "en"@,
        }
    }

    pub open spec fn spec_parse(value: Seq<char>) -> Option<AppLanguagePreference> {
        if value == "system"@ {
            Some(AppLanguagePreference::System)
        } else if value == "zh"@ {
            Some(AppLanguagePreference::Zh)
        } else if value == "en"@ {
            Some(AppLanguagePreference::En)
        } else {
            None
        }
    }

    pub fn as_str(self) -> (r: &'static str)
        ensures
            r@ == self.spec_as_str(),
    {
        match self {
            AppLanguagePreference::System => "system",
            AppLanguagePreference::Zh => "zh",
            AppLanguagePreference::En => "en",
        }
    }

    pub fn parse(value: &str) -> (r: Option<AppLanguagePreference>)
        ensures
            r == AppLanguagePreference::spec_parse(value@),
    {
        if str_eq(value, "system") {
            Some(AppLanguagePreference::System)
        } else if str_eq(value, "zh") {
            Some(AppLanguagePreference::Zh)
        } else if str_eq(value, "en") {
            Some(AppLanguagePreference::En)
        } else {
            None
        }
    }
}

#[derive(Debug, Clone, PartialEq, Eq)]
pub struct ActivityEntry {
    pub id: i64,
    pub kind: ActivityKind,
    pub title: String,
    pub body: Option<String>,
    pub created_at: String,
}

#[derive(Debug, Clone, PartialEq, Eq)]
pub struct NewActivityEntry {
    pub kind: ActivityKind,
    pub title: String,
    pub body: Option<String>,
}

#[derive(Debug, Clone, Copy, PartialEq, Eq, Structural)]
pub enum ActivityKind {
    Note,
    Settings,
    System,
}

impl ActivityKind {
    pub open spec fn spec_as_str(self) -> Seq<char> {
        match self {
            ActivityKind::Note => "note"@,
            ActivityKind::Settings => "settings"@,
            ActivityKind::System => "system"@,
        }
    }

    pub open spec fn spec_parse(value: Seq<char>) -> Option<ActivityKind> {
        if value == "note"@ {
            Some(ActivityKind::Note)
        } else if value == "settings"@ {
            Some(ActivityKind::Settings)
        } else if value == "system"@ {
            Some(ActivityKind::System)
        } else {
            None
        }
    }

    pub fn as_str(self) -> (r: &'static str)
        ensures
            r@ == self.spec_as_str(),
    {
        match self {
            ActivityKind::Note => "note",
            ActivityKind::Settings => "settings",
            ActivityKind::System => "system",
        }
    }

    pub fn parse(value: &str) -> (r: Option<ActivityKind>)
        ensures
            r == ActivityKind::spec_parse(value@),
    {
        if str_eq(value, "note") {
            Some(ActivityKind::Note)
        } else if str_eq(value, "settings") {
            Some(ActivityKind::Settings)
        } else if str_eq(value, "system") {
            Some(ActivityKind::System)
        } else {
            None
        }
    }
}

#[derive(Debug, Clone, PartialEq, Eq)]
pub struct LocalActivityEntry {
    pub kind: ActivityKind,
    pub title: String,
    pub body: Option<String>,
    pub created_at: String,
}

#[derive(Debug, Clone, PartialEq, Eq)]
pub struct LocalDataExport {
    pub format_version: i64,
    pub settings: SettingsValues,
    pub activity_entries: Vec<LocalActivityEntry>,
}

#[derive(Debug, Clone, PartialEq, Eq)]
pub struct ImportLocalDataResult {
    pub settings: AppSettings,
    pub imported_activity_count: usize,
}

#[derive(Debug, Clone, PartialEq, Eq)]
pub struct ClearActivityResult {
    pub deleted_count: i64,
}

#[derive(Debug, Clone, PartialEq, Eq)]
pub struct PlayerNoteSummary {
    pub has_note: bool,
    pub tags: Vec<String>,
}

#[derive(Debug, Clone, PartialEq, Eq)]
pub struct PlayerNoteView {
    pub game_id: i64,
    pub participant_id: i64,
    pub note: Option<String>,
    pub tags: Vec<String>,
    pub updated_at: Option<String>,
}

#[derive(Debug, Clone, PartialEq, Eq)]
pub struct ClearPlayerNoteResult {
    pub cleared: bool,
}

#[derive(Debug, Clone, Copy, PartialEq, Eq, Structural)]
pub enum LeagueGameAssetKind {
    Item,
    Rune,
    Spell,
}

impl LeagueGameAssetKind {
    pub open spec fn spec_as_str(self) -> Seq<char> {
        match self {
            LeagueGameAssetKind::Item => "item"@,
            LeagueGameAssetKind::Rune => "rune"@,
            LeagueGameAssetKind::Spell => "spell"@,
        }
    }

    /// The kind's name as the asset labels show it (`Item`, `Rune`, `Spell`).
    pub open spec fn spec_label(self) -> Seq<char> {
        match self {
            LeagueGameAssetKind::Item => "Item"@,
            LeagueGameAssetKind::Rune => "Rune"@,
            LeagueGameAssetKind::Spell => "Spell"@,
        }
    }

    pub fn as_str(self) -> (r: &'static str)
        ensures
            r@ == self.spec_as_str(),
    {
        match self {
            LeagueGameAssetKind::Item => "item",
            LeagueGameAssetKind::Rune => "rune",
            LeagueGameAssetKind::Spell => "spell",
        }
    }

    pub fn label(self) -> (r: &'static str)
        ensures
            r@ == self.spec_label(),
    {
        match self {
            LeagueGameAssetKind::Item => "Item",
            LeagueGameAssetKind::Rune => "Rune",
            LeagueGameAssetKind::Spell => "Spell",
        }
    }
}

#[derive(Debug, Clone, PartialEq, Eq)]
pub struct LeagueImageAsset {
    pub mime_type: String,
    pub bytes: Vec<u8>,
}

#[derive(Debug, Clone, PartialEq, Eq)]
pub struct LeagueGameAsset {
    pub kind: LeagueGameAssetKind,
    pub asset_id: i64,
    pub name: String,
    pub description: Option<String>,
    pub image: LeagueImageAsset,
}

#[derive(Debug, Clone, PartialEq, Eq)]
pub struct LeagueChampionSummary {
    pub champion_id: i64,
    pub champion_name: String,
}

#[derive(Debug, Clone, PartialEq, Eq)]
pub struct LeagueChampionAbility {
    pub slot: String,
    pub name: String,
    pub description: String,
    pub icon: Option<LeagueImageAsset>,
    pub cooldown: Option<String>,
    pub cost: Option<String>,
    pub range: Option<String>,
}

#[derive(Debug, Clone, PartialEq, Eq)]
pub struct LeagueChampionDetails {
    pub champion_id: i64,
    pub champion_name: String,
    pub title: Option<String>,
    pub square_portrait: Option<LeagueImageAsset>,
    pub abilities: Vec<LeagueChampionAbility>,
}

#[derive(Debug, Clone, PartialEq, Eq)]
pub struct LeagueClientStatus {
    pub is_running: bool,
    pub lockfile_found: bool,
    pub connection: LeagueClientConnection,
    pub phase: LeagueClientPhase,
    pub message: Option<String>,
}

impl LeagueClientStatus {
    /// The status of a client that cannot be reached, with its reason.
    pub fn unavailable(phase: LeagueClientPhase, message: String) -> (r: LeagueClientStatus)
        ensures
            !r.is_running,
            !r.lockfile_found,
            r.connection == LeagueClientConnection::Unavailable,
            r.phase == phase,
            r.message == Some(message),
    {
        LeagueClientStatus {
            is_running: false,
            lockfile_found: false,
            connection: LeagueClientConnection::Unavailable,
            phase,
            message: Some(message),
        }
    }
}

#[derive(Debug, Clone, Copy, PartialEq, Eq, Structural)]
pub enum LeagueClientConnection {
    Connected,
    Unavailable,
}

#[derive(Debug, Clone, Copy, PartialEq, Eq, Structural)]
pub enum LeagueClientPhase {
    NotRunning,
    LockfileMissing,
    Connecting,
    Connected,
    Unauthorized,
    NotLoggedIn,
    Patching,
    PartialData,
    Unavailable,
}

#[derive(Debug, Clone, PartialEq, Eq)]
pub struct LeagueSelfSnapshot {
    pub status: LeagueClientStatus,
    pub summoner: Option<CurrentSummonerProfile>,
    pub ranked_queues: Vec<RankedQueueSummary>,
    pub recent_matches: Vec<RecentMatchSummary>,
    pub recent_performance: RecentPerformanceSummary,
    pub data_warnings: Vec<LeagueDataWarning>,
    pub refreshed_at: String,
}

#[derive(Debug, Clone, PartialEq, Eq)]
pub struct LeagueSelfData {
    pub status: LeagueClientStatus,
    pub summoner: Option<CurrentSummonerProfile>,
    pub ranked_queues: Vec<RankedQueueSummary>,
    pub recent_matches: Vec<RecentMatchSummary>,
    pub data_warnings: Vec<LeagueDataWarning>,
}

#[derive(Debug, Clone, PartialEq, Eq)]
pub struct LeagueDataWarning {
    pub section: LeagueDataSection,
    pub message: String,
}

#[derive(Debug, Clone, Copy, PartialEq, Eq, Structural)]
pub enum LeagueDataSection {
    Champions,
    Ranked,
    Matches,
    Participants,
    RecentStats,
}

#[derive(Debug, Clone, PartialEq, Eq)]
pub struct CurrentSummonerProfile {
    pub display_name: String,
    pub summoner_level: i64,
    pub profile_icon_id: Option<i64>,
}

#[derive(Debug, Clone, PartialEq, Eq)]
pub struct RankedQueueSummary {
    pub queue: RankedQueue,
    pub tier: Option<String>,
    pub division: Option<String>,
    pub league_points: Option<i64>,
    pub wins: i64,
    pub losses: i64,
    pub is_ranked: bool,
}

#[derive(Debug, Clone, Copy, PartialEq, Eq, Structural)]
pub enum RankedQueue {
    SoloDuo,
    Flex,
    Other,
}

#[derive(Debug, Clone, PartialEq, Eq)]
pub struct RecentMatchSummary {
    pub game_id: i64,
    pub champion_id: Option<i64>,
    pub champion_name: String,
    pub queue_name: Option<String>,
    pub result: MatchResult,
    pub kills: i64,
    pub deaths: i64,
    pub assists: i64,
    /// In tenths.
    pub kda: Option<i64>,
    pub played_at: Option<String>,
    pub game_duration_seconds: Option<i64>,
}

#[derive(Debug, Clone, Copy, PartialEq, Eq, Structural)]
pub enum MatchResult {
    Win,
    Loss,
    Unknown,
}

#[derive(Debug, Clone, PartialEq, Eq)]
pub struct RecentPerformanceSummary {
    pub match_count: usize,
    /// In tenths.
    pub average_kda: Option<i64>,
    pub kda_tag: KdaTag,
    pub recent_champions: Vec<String>,
    pub top_champions: Vec<RecentChampionSummary>,
}

#[derive(Debug, Clone, PartialEq, Eq)]
pub struct RecentChampionSummary {
    pub champion_id: Option<i64>,
    pub champion_name: String,
    pub games: usize,
}

#[derive(Debug, Clone, PartialEq, Eq)]
pub struct PostMatchDetail {
    pub game_id: i64,
    pub queue_name: Option<String>,
    pub played_at: Option<String>,
    pub game_duration_seconds: Option<i64>,
    pub result: MatchResult,
    pub teams: Vec<PostMatchTeam>,
    pub comparison: PostMatchComparison,
    pub warnings: Vec<LeagueDataWarning>,
}

#[derive(Debug, Clone, PartialEq, Eq)]
pub struct PostMatchTeam {
    pub team_id: i64,
    pub result: MatchResult,
    pub participants: Vec<PostMatchParticipant>,
    pub totals: PostMatchTeamTotals,
}

#[derive(Debug, Clone, PartialEq, Eq)]
pub struct PostMatchParticipant {
    pub participant_id: i64,
    pub team_id: i64,
    pub display_name: String,
    pub champion_id: Option<i64>,
    pub champion_name: String,
    pub role: Option<String>,
    pub lane: Option<String>,
    pub profile_icon_id: Option<i64>,
    pub result: MatchResult,
    pub kills: i64,
    pub deaths: i64,
    pub assists: i64,
    /// In tenths.
    pub kda: Option<i64>,
    /// From 0 to 10, in tenths.
    pub performance_score: i64,
    pub cs: i64,
    pub gold_earned: i64,
    pub damage_to_champions: i64,
    pub vision_score: i64,
    pub items: Vec<i64>,
    pub runes: Vec<i64>,
    pub spells: Vec<i64>,
    pub note_summary: PlayerNoteSummary,
}

#[derive(Debug, Clone, Copy, PartialEq, Eq, Structural)]
pub struct PostMatchTeamTotals {
    pub kills: i64,
    pub deaths: i64,
    pub assists: i64,
    pub gold_earned: i64,
    pub damage_to_champions: i64,
    pub vision_score: i64,
}

#[derive(Debug, Clone, PartialEq, Eq)]
pub struct PostMatchComparison {
    pub highest_kda: Option<ParticipantMetricLeader>,
    pub most_cs: Option<ParticipantMetricLeader>,
    pub most_gold: Option<ParticipantMetricLeader>,
    pub most_damage: Option<ParticipantMetricLeader>,
    pub highest_vision: Option<ParticipantMetricLeader>,
}

#[derive(Debug, Clone, PartialEq, Eq)]
pub struct ParticipantMetricLeader {
    pub participant_id: i64,
    pub display_name: String,
    /// The leading value; for the KDA ratio, in tenths.
    pub value: i64,
}

#[derive(Debug, Clone, PartialEq, Eq)]
pub struct ParticipantPublicProfile {
    pub game_id: i64,
    pub participant_id: i64,
    pub display_name: String,
    pub profile_icon_id: Option<i64>,
    pub recent_stats: Option<ParticipantRecentStats>,
    pub note: Option<PlayerNoteView>,
    pub warnings: Vec<LeagueDataWarning>,
}

#[derive(Debug, Clone, PartialEq, Eq)]
pub struct ParticipantRecentStats {
    pub match_count: usize,
    /// In tenths.
    pub average_kda: Option<i64>,
    pub recent_champions: Vec<String>,
    pub recent_matches: Vec<RecentMatchSummary>,
}

#[derive(Debug, Clone, Copy, PartialEq, Eq, Structural)]
pub enum KdaTag {
    High,
    Standard,
    Unavailable,
}

#[derive(Debug, Clone, Copy, PartialEq, Eq, Structural)]
pub enum ChampSelectTeam {
    Ally,
    Enemy,
}

#[derive(Debug, Clone, PartialEq, Eq)]
pub struct ChampSelectPlayer {
    pub summoner_id: i64,
    pub puuid: String,
    pub display_name: String,
    pub champion_id: Option<i64>,
    pub champion_name: Option<String>,
    pub team: ChampSelectTeam,
    pub ranked_queues: Vec<RankedQueueSummary>,
    pub recent_stats: Option<ParticipantRecentStats>,
}

#[derive(Debug, Clone, PartialEq, Eq)]
pub struct ChampSelectSnapshot {
    pub players: Vec<ChampSelectPlayer>,
    pub cached_at: String,
}

/// Parsing the name of a startup page gives the page back.
pub proof fn lemma_startup_page_round_trip(page: StartupPage)
    ensures
        StartupPage::spec_parse(page.spec_as_str()) == Some(page),
{
    reveal_strlit("dashboard");
    reveal_strlit("activity");
    reveal_strlit("settings");
    assert("activity"@[0] != "dashboard"@[0]);
    assert("settings"@[0] != "dashboard"@[0]);
    assert("settings"@[0] != "activity"@[0]);
}

/// Parsing the name of a language preference gives the preference back.
pub proof fn lemma_language_round_trip(language: AppLanguagePreference)
    ensures
        AppLanguagePreference::spec_parse(language.spec_as_str()) == Some(language),
{
    reveal_strlit("system");
    reveal_strlit("zh");
    reveal_strlit("en");
    assert("zh"@.len() != "system"@.len());
    assert("en"@.len() != "system"@.len());
    assert("en"@[0] != "zh"@[0]);
}

/// Parsing the name of an activity kind gives the kind back.
pub proof fn lemma_activity_kind_round_trip(kind: ActivityKind)
    ensures
        ActivityKind::spec_parse(kind.spec_as_str()) == Some(kind),
{
    reveal_strlit("note");
    reveal_strlit("settings");
    reveal_strlit("system");
    assert("settings"@.len() != "note"@.len());
    assert("system"@.len() != "note"@.len());
    assert("system"@[1] != "settings"@[1]);
}

} // verus!
