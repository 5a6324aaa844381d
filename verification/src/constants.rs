//! Limits and defaults that the assistant's rules use.

use vstd::prelude::*;

verus! {

pub const DEFAULT_ACTIVITY_LIMIT: i64 = 100;
pub const MIN_ACTIVITY_LIMIT: i64 = 1;
pub const MAX_ACTIVITY_LIMIT: i64 = 500;
pub const DEFAULT_MATCH_LIMIT: i64 = 6;
pub const MAX_MATCH_LIMIT: i64 = 20;
pub const DEFAULT_PUBLIC_RECENT_LIMIT: i64 = 6;
pub const MAX_LEAGUE_ASSET_ID: i64 = 1000000;
pub const MAX_PLAYER_NOTE_LEN: usize = 500;
pub const MAX_PLAYER_TAG_LEN: usize = 24;
pub const MAX_PLAYER_TAGS: usize = 8;
pub const MAX_ACTIVITY_TITLE_LEN: usize = 120;
pub const MAX_ACTIVITY_BODY_LEN: usize = 2000;
pub const LOCAL_DATA_FORMAT_VERSION: i64 = 1;
pub const PERFORMANCE_MATCH_COUNT: usize = 6;
pub const TOP_CHAMPION_COUNT: usize = 3;
/// An average KDA of 4.0 or more is tagged as high (in tenths).
pub const HIGH_KDA_THRESHOLD_TENTHS: i64 = 40;
/// Recent matches read for a champion-select roster before it is hydrated.
pub const CHAMP_SELECT_LIGHT_RECENT_LIMIT: i64 = 0;
/// Recent matches read for a hydrated champion-select roster.
pub const CHAMP_SELECT_HYDRATED_RECENT_LIMIT: i64 = 6;
/// How long a champion-select snapshot is served from the cache.
pub const CHAMP_SELECT_CACHE_TTL_MS: u64 = 8_000;
/// How long recent statistics are served from the cache.
pub const RECENT_STATS_CACHE_TTL_MS: u64 = 600_000;
/// How long a failed recent-statistics read is served from the cache.
pub const RECENT_STATS_FAILURE_CACHE_TTL_MS: u64 = 30_000;
/// How long a summoner lookup is served from the cache.
pub const SUMMONER_CACHE_TTL_MS: u64 = 600_000;
/// How long a failed summoner lookup is served from the cache.
pub const SUMMONER_FAILURE_CACHE_TTL_MS: u64 = 30_000;
/// The longest wait before the event service reconnects, in seconds.
pub const LEAGUE_EVENT_FALLBACK_POLL_SECS: u64 = 30;

} // verus!
