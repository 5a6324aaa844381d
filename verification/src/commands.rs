//! The desktop command boundary: what each command takes and gives back.

use vstd::prelude::*;

use crate::domain::{ActivityEntry, ActivityKind, LeagueGameAssetKind};
use crate::ranked::{RankedChampionLane, RankedChampionSort};

verus! {

#[derive(Debug, Clone, PartialEq, Eq)]
pub struct SaveSettingsCommand {
    pub settings: SettingsPayload,
}

#[derive(Debug, Clone, PartialEq, Eq)]
pub struct SettingsPayload {
    pub startup_page: String,
    pub language: String,
    pub compact_mode: bool,
    pub activity_limit: i64,
    pub auto_accept_enabled: bool,
    pub auto_pick_enabled: bool,
    pub auto_pick_champion_id: Option<i64>,
    pub auto_ban_enabled: bool,
    pub auto_ban_champion_id: Option<i64>,
}

#[derive(Debug, Clone, PartialEq, Eq)]
pub struct ListActivityEntriesCommand {
    pub limit: Option<i64>,
    pub kind: Option<ActivityKind>,
}

#[derive(Debug, Clone, PartialEq, Eq)]
pub struct CreateActivityNoteCommand {
    pub title: String,
    pub body: Option<String>,
}

#[derive(Debug, Clone, PartialEq, Eq)]
pub struct ImportLocalDataCommand {
    pub json: String,
}

#[derive(Debug, Clone, PartialEq, Eq)]
pub struct ClearActivityEntriesCommand {
    pub confirm: bool,
}

#[derive(Debug, Clone, PartialEq, Eq)]
pub struct LeagueSelfSnapshotCommand {
    pub match_limit: Option<i64>,
}

#[derive(Debug, Clone, PartialEq, Eq)]
pub struct ChampSelectSnapshotCommand {
    pub recent_limit: Option<i64>,
}

#[derive(Debug, Clone, PartialEq, Eq)]
pub struct RankedChampionStatsCommand {
    pub lane: Option<RankedChampionLane>,
    pub sort_by: Option<RankedChampionSort>,
}

#[derive(Debug, Clone, PartialEq, Eq)]
pub struct RefreshRankedChampionStatsCommand {
    pub url: Option<String>,
    pub lane: Option<RankedChampionLane>,
    pub sort_by: Option<RankedChampionSort>,
}

#[derive(Debug, Clone, PartialEq, Eq)]
pub struct LeagueProfileIconCommand {
    pub profile_icon_id: i64,
}

#[derive(Debug, Clone, PartialEq, Eq)]
pub struct LeagueChampionIconCommand {
    pub champion_id: i64,
}

#[derive(Debug, Clone, PartialEq, Eq)]
pub struct LeagueChampionDetailsCommand {
    pub champion_id: i64,
}

#[derive(Debug, Clone, PartialEq, Eq)]
pub struct LeagueGameAssetCommand {
    pub kind: LeagueGameAssetKind,
    pub asset_id: i64,
}

#[derive(Debug, Clone, PartialEq, Eq)]
pub struct PostMatchDetailCommand {
    pub game_id: i64,
}

#[derive(Debug, Clone, PartialEq, Eq)]
pub struct ParticipantPublicProfileCommand {
    pub game_id: i64,
    pub participant_id: i64,
    pub recent_limit: Option<i64>,
}

#[derive(Debug, Clone, PartialEq, Eq)]
pub struct SavePlayerNoteCommand {
    pub game_id: i64,
    pub participant_id: i64,
    pub note: Option<String>,
    pub tags: Vec<String>,
}

#[derive(Debug, Clone, PartialEq, Eq)]
pub struct ClearPlayerNoteCommand {
    pub game_id: i64,
    pub participant_id: i64,
}

#[derive(Debug, Clone, PartialEq, Eq)]
pub struct ActivityEntriesResponse {
    pub records: Vec<ActivityEntry>,
}

/// How often the cached roster and the cached statistics were used.
#[derive(Debug, Clone, Copy, PartialEq, Eq)]
pub struct CacheMetricsSnapshot {
    pub champ_select_cache_hits: u64,
    pub champ_select_cache_misses: u64,
    pub recent_stats_cache_hits: u64,
    pub recent_stats_cache_misses: u64,
}

/// What the event service remembers: the last phase it acted on and the
/// fingerprint of the last roster it saw.
#[derive(Debug, Clone, PartialEq, Eq)]
pub struct LeagueEventServiceState {
    pub phase: Option<String>,
    pub fingerprint: String,
}

impl LeagueEventServiceState {
    pub fn new() -> (r: LeagueEventServiceState)
        ensures
            r.phase is None,
            r.fingerprint@.len() == 0,
    {
        LeagueEventServiceState { phase: None, fingerprint: String::new() }
    }

    /// Forgets the phase and the roster, as after a lost connection.
    pub fn reset(&mut self)
        ensures
            final(self).phase is None,
            final(self).fingerprint@.len() == 0,
    {
        self.phase = None;
        self.fingerprint = String::new();
    }
}

} // verus!
