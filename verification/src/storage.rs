//! The local SQLite store's rules, apart from the database itself: which
//! migrations to apply, how stored rows become settings, activity entries
//! and ranked records, and how its errors read.

use vstd::prelude::*;

use crate::domain::{
    ActivityEntry, ActivityKind, AppLanguagePreference, AppSettings, SettingsValues, StartupPage,
};
use crate::application::StoredPlayerNote;
use crate::ranked::{RankedChampionLane, RankedChampionStat};
use crate::validation::strings_view;
use crate::text::concat_strs;

verus! {

/// Where the store keeps its database.
#[derive(Debug, Clone)]
pub struct SqliteStore {
    database_path: String,
}

impl SqliteStore {
    pub closed spec fn path(&self) -> Seq<char> {
        self.database_path@
    }

    /// A store whose database file is `database_path`.
    pub fn at_path(database_path: String) -> (r: SqliteStore)
        ensures
            r.path() == database_path@,
    {
        SqliteStore { database_path }
    }

    pub fn database_path(&self) -> (r: &str)
        ensures
            r@ == self.path(),
    {
        self.database_path.as_str()
    }
}

#[derive(Debug, Clone, PartialEq, Eq)]
pub struct StorageHealth {
    pub schema_version: i64,
}

/// A failure of the store. The I/O and SQLite failures carry the text of
/// the underlying error.
#[derive(Debug, Clone, PartialEq, Eq)]
pub enum StorageError {
    Io(String),
    Sqlite(String),
    InvalidActivityKind(String),
    InvalidStartupPage(String),
    InvalidLanguagePreference(String),
    MissingSchemaVersion,
    MissingPlayerNote,
    InvalidPlayerTags(String),
    InvalidRankedChampionLane(String),
    MissingRankedChampionSnapshot,
}

impl StorageError {
    pub open spec fn spec_message(&self) -> Seq<char> {
        match self {
            StorageError::Io(e) => "storage I/O error: "@ + e@,
            StorageError::Sqlite(e) => "sqlite error: "@ + e@,
            StorageError::InvalidActivityKind(v) => "invalid activity kind: "@ + v@,
            StorageError::InvalidStartupPage(v) => "invalid startup page: "@ + v@,
            StorageError::InvalidLanguagePreference(v) => "invalid language preference: "@ + v@,
            StorageError::MissingSchemaVersion => "schema version metadata is missing"@,
            StorageError::MissingPlayerNote => "player note is missing after save"@,
            StorageError::InvalidPlayerTags(e) => "invalid player tags: "@ + e@,
            StorageError::InvalidRankedChampionLane(v) => "invalid ranked champion lane: "@ + v@,
            StorageError::MissingRankedChampionSnapshot => "ranked champion snapshot is missing after save"@,
        }
    }

    /// The error as it is reported.
    pub fn message(&self) -> (r: String)
        ensures
            r@ == self.spec_message(),
    {
        match self {
            StorageError::Io(e) => concat_strs("storage I/O error: ", e.as_str()),
            StorageError::Sqlite(e) => concat_strs("sqlite error: ", e.as_str()),
            StorageError::InvalidActivityKind(v) => concat_strs("invalid activity kind: ", v.as_str()),
            StorageError::InvalidStartupPage(v) => concat_strs("invalid startup page: ", v.as_str()),
            StorageError::InvalidLanguagePreference(v) => concat_strs(
                "invalid language preference: ",
                v.as_str(),
            ),
            StorageError::MissingSchemaVersion => "schema version metadata is missing".to_owned(),
            StorageError::MissingPlayerNote => "player note is missing after save".to_owned(),
            StorageError::InvalidPlayerTags(e) => concat_strs("invalid player tags: ", e.as_str()),
            StorageError::InvalidRankedChampionLane(v) => concat_strs(
                "invalid ranked champion lane: ",
                v.as_str(),
            ),
            StorageError::MissingRankedChampionSnapshot => "ranked champion snapshot is missing after save".to_owned(),
        }
    }
}

// ---------------------------------------------------------------------------
// Migrations

/// The schema migrations, in the order they apply: version and description.
pub open spec fn spec_migrations() -> Seq<(i64, Seq<char>)> {
    seq![
        (1i64, "initial_schema"@),
        (2i64, "state_foundation"@),
        (3i64, "player_notes"@),
        (4i64, "ranked_champion_cache"@),
        (5i64, "lobby_automation_settings"@),
        (6i64, "language_preference"@),
    ]
}

pub fn migrations() -> (r: Vec<(i64, &'static str)>)
    ensures
        r@.len() == spec_migrations().len(),
        forall|i: int|
            0 <= i < r@.len() ==> (#[trigger] r@[i]).0 == spec_migrations()[i].0 && r@[i].1@
                == spec_migrations()[i].1,
{
    let v: Vec<(i64, &'static str)> = vec![
        (1, "initial_schema"),
        (2, "state_foundation"),
        (3, "player_notes"),
        (4, "ranked_champion_cache"),
        (5, "lobby_automation_settings"),
        (6, "language_preference"),
    ];
    v
}

/// The migrations not applied yet, in order.
pub open spec fn pending(ms: Seq<(i64, Seq<char>)>, applied: Seq<i64>) -> Seq<(i64, Seq<char>)>
    decreases ms.len(),
{
    if ms.len() == 0 {
        Seq::empty()
    } else if applied.contains(ms.last().0) {
        pending(ms.drop_last(), applied)
    } else {
        pending(ms.drop_last(), applied).push(ms.last())
    }
}

/// The migrations to apply to a database that has the versions `applied`:
/// every known one it lacks, in order.
pub fn pending_migrations(applied: &Vec<i64>) -> (r: Vec<(i64, &'static str)>)
    ensures
        r@.len() == pending(spec_migrations(), applied@).len(),
        forall|i: int|
            0 <= i < r@.len() ==> (#[trigger] r@[i]).0 == pending(spec_migrations(), applied@)[i].0
                && r@[i].1@ == pending(spec_migrations(), applied@)[i].1,
{
    let all = migrations();
    let ghost ms = spec_migrations();
    let mut out: Vec<(i64, &'static str)> = Vec::new();
    let mut i: usize = 0;
    proof {
        assert(ms.take(0) == Seq::<(i64, Seq<char>)>::empty());
    }
    while i < all.len()
        invariant
            ms == spec_migrations(),
            all@.len() == ms.len(),
            forall|k: int| 0 <= k < all@.len() ==> (#[trigger] all@[k]).0 == ms[k].0 && all@[k].1@ == ms[k].1,
            i <= all@.len(),
            out@.len() == pending(ms.take(i as int), applied@).len(),
            forall|k: int|
                0 <= k < out@.len() ==> (#[trigger] out@[k]).0 == pending(ms.take(i as int), applied@)[k].0
                    && out@[k].1@ == pending(ms.take(i as int), applied@)[k].1,
        decreases all@.len() - i,
    {
        proof {
            assert(ms.take(i + 1).drop_last() == ms.take(i as int));
            assert(ms.take(i + 1).last() == ms[i as int]);
        }
        let (version, description) = all[i];
        let mut found = false;
        let mut j: usize = 0;
        while j < applied.len()
            invariant
                j <= applied@.len(),
                found == applied@.take(j as int).contains(version),
            decreases applied@.len() - j,
        {
            proof {
                assert(applied@.take(j + 1) == applied@.take(j as int).push(applied@[j as int]));
                crate::champ_select::lemma_push_contains(applied@.take(j as int), applied@[j as int], version);
            }
            if applied[j] == version {
                found = true;
            }
            j = j + 1;
        }
        proof {
            assert(applied@.take(applied@.len() as int) == applied@);
        }
        if !found {
            out.push((version, description));
        }
        i = i + 1;
    }
    proof {
        assert(ms.take(ms.len() as int) == ms);
    }
    out
}

// ---------------------------------------------------------------------------
// Rows

pub fn bool_to_int(value: bool) -> (r: i64)
    ensures
        r == if value {
            1i64
        } else {
            0i64
        },
{
    if value {
        1
    } else {
        0
    }
}

pub fn int_to_bool(value: i64) -> (r: bool)
    ensures
        r == (value != 0),
{
    value != 0
}

/// The settings row as the database holds it.
#[derive(Debug, Clone, PartialEq, Eq)]
pub struct SettingsRow {
    pub startup_page: String,
    pub language: String,
    pub compact_mode: i64,
    pub activity_limit: i64,
    pub auto_accept_enabled: i64,
    pub auto_pick_enabled: i64,
    pub auto_pick_champion_id: Option<i64>,
    pub auto_ban_enabled: i64,
    pub auto_ban_champion_id: Option<i64>,
    pub updated_at: String,
}

/// The settings a row holds: the startup page and the language must be known
/// names, and flags are true when not zero.
pub fn settings_from_row(row: SettingsRow) -> (r: Result<AppSettings, StorageError>)
    ensures
        StartupPage::spec_parse(row.startup_page@) is None ==> r == Err::<AppSettings, StorageError>(
            StorageError::InvalidStartupPage(row.startup_page),
        ),
        StartupPage::spec_parse(row.startup_page@) is Some
            && AppLanguagePreference::spec_parse(row.language@) is None ==> r == Err::<
            AppSettings,
            StorageError,
        >(StorageError::InvalidLanguagePreference(row.language)),
        StartupPage::spec_parse(row.startup_page@) matches Some(page)
            ==> AppLanguagePreference::spec_parse(row.language@) matches Some(language) ==> r
            == Ok::<AppSettings, StorageError>(
            AppSettings {
                startup_page: page,
                language,
                compact_mode: row.compact_mode != 0,
                activity_limit: row.activity_limit,
                auto_accept_enabled: row.auto_accept_enabled != 0,
                auto_pick_enabled: row.auto_pick_enabled != 0,
                auto_pick_champion_id: row.auto_pick_champion_id,
                auto_ban_enabled: row.auto_ban_enabled != 0,
                auto_ban_champion_id: row.auto_ban_champion_id,
                updated_at: row.updated_at,
            },
        ),
{
    let startup_page = match StartupPage::parse(row.startup_page.as_str()) {
        Some(p) => p,
        None => {
            return Err(StorageError::InvalidStartupPage(row.startup_page));
        },
    };
    let language = match AppLanguagePreference::parse(row.language.as_str()) {
        Some(l) => l,
        None => {
            return Err(StorageError::InvalidLanguagePreference(row.language));
        },
    };
    Ok(
        AppSettings {
            startup_page,
            language,
            compact_mode: int_to_bool(row.compact_mode),
            activity_limit: row.activity_limit,
            auto_accept_enabled: int_to_bool(row.auto_accept_enabled),
            auto_pick_enabled: int_to_bool(row.auto_pick_enabled),
            auto_pick_champion_id: row.auto_pick_champion_id,
            auto_ban_enabled: int_to_bool(row.auto_ban_enabled),
            auto_ban_champion_id: row.auto_ban_champion_id,
            updated_at: row.updated_at,
        },
    )
}

/// The columns written for `settings`: names for the page and the language,
/// 1 or 0 for the flags.
#[derive(Debug, Clone, Copy, PartialEq, Eq)]
pub struct SettingsColumns {
    pub startup_page: &'static str,
    pub language: &'static str,
    pub compact_mode: i64,
    pub activity_limit: i64,
    pub auto_accept_enabled: i64,
    pub auto_pick_enabled: i64,
    pub auto_pick_champion_id: Option<i64>,
    pub auto_ban_enabled: i64,
    pub auto_ban_champion_id: Option<i64>,
}

pub fn settings_columns(settings: &SettingsValues) -> (r: SettingsColumns)
    ensures
        r.startup_page@ == settings.startup_page.spec_as_str(),
        r.language@ == settings.language.spec_as_str(),
        r.compact_mode == (if settings.compact_mode { 1i64 } else { 0i64 }),
        r.activity_limit == settings.activity_limit,
        r.auto_accept_enabled == (if settings.auto_accept_enabled { 1i64 } else { 0i64 }),
        r.auto_pick_enabled == (if settings.auto_pick_enabled { 1i64 } else { 0i64 }),
        r.auto_pick_champion_id == settings.auto_pick_champion_id,
        r.auto_ban_enabled == (if settings.auto_ban_enabled { 1i64 } else { 0i64 }),
        r.auto_ban_champion_id == settings.auto_ban_champion_id,
{
    SettingsColumns {
        startup_page: settings.startup_page.as_str(),
        language: settings.language.as_str(),
        compact_mode: bool_to_int(settings.compact_mode),
        activity_limit: settings.activity_limit,
        auto_accept_enabled: bool_to_int(settings.auto_accept_enabled),
        auto_pick_enabled: bool_to_int(settings.auto_pick_enabled),
        auto_pick_champion_id: settings.auto_pick_champion_id,
        auto_ban_enabled: bool_to_int(settings.auto_ban_enabled),
        auto_ban_champion_id: settings.auto_ban_champion_id,
    }
}

/// An activity entry from its row; the kind must be a known name.
pub fn activity_entry_from_row(
    id: i64,
    kind: String,
    title: String,
    body: Option<String>,
    created_at: String,
) -> (r: Result<ActivityEntry, StorageError>)
    ensures
        ActivityKind::spec_parse(kind@) matches Some(k) ==> r == Ok::<ActivityEntry, StorageError>(
            ActivityEntry { id, kind: k, title, body, created_at },
        ),
        ActivityKind::spec_parse(kind@) is None ==> r == Err::<ActivityEntry, StorageError>(
            StorageError::InvalidActivityKind(kind),
        ),
{
    match ActivityKind::parse(kind.as_str()) {
        Some(k) => Ok(ActivityEntry { id, kind: k, title, body, created_at }),
        None => Err(StorageError::InvalidActivityKind(kind)),
    }
}

/// A ranked record as the database holds it; the rates and the score in
/// tenths.
#[derive(Debug, Clone, PartialEq, Eq)]
pub struct RankedEntryRow {
    pub champion_id: i64,
    pub champion_name: String,
    pub champion_alias: Option<String>,
    pub lane: String,
    pub games: i64,
    pub wins: i64,
    pub picks: i64,
    pub bans: i64,
    pub win_rate: i64,
    pub pick_rate: i64,
    pub ban_rate: i64,
    pub overall_score: i64,
}

/// A ranked record from its row; the lane must be a known name.
pub fn ranked_entry_from_row(row: RankedEntryRow) -> (r: Result<RankedChampionStat, StorageError>)
    ensures
        RankedChampionLane::spec_parse(row.lane@) matches Some(lane) ==> r == Ok::<
            RankedChampionStat,
            StorageError,
        >(
            RankedChampionStat {
                champion_id: row.champion_id,
                champion_name: row.champion_name,
                champion_alias: row.champion_alias,
                lane,
                win_rate: row.win_rate,
                pick_rate: row.pick_rate,
                ban_rate: row.ban_rate,
                overall_score: row.overall_score,
                games: row.games,
                wins: row.wins,
                picks: row.picks,
                bans: row.bans,
            },
        ),
        RankedChampionLane::spec_parse(row.lane@) is None ==> r == Err::<
            RankedChampionStat,
            StorageError,
        >(StorageError::InvalidRankedChampionLane(row.lane)),
{
    match RankedChampionLane::parse(row.lane.as_str()) {
        Some(lane) => Ok(
            RankedChampionStat {
                champion_id: row.champion_id,
                champion_name: row.champion_name,
                champion_alias: row.champion_alias,
                lane,
                win_rate: row.win_rate,
                pick_rate: row.pick_rate,
                ban_rate: row.ban_rate,
                overall_score: row.overall_score,
                games: row.games,
                wins: row.wins,
                picks: row.picks,
                bans: row.bans,
            },
        ),
        None => Err(StorageError::InvalidRankedChampionLane(row.lane)),
    }
}

} // verus!

verus! {

/// What `serde_json::from_str` gives when it reads a text as a list of
/// strings: the strings, or the message of its error.
pub uninterp spec fn json_string_list(text: Seq<char>) -> Result<Seq<Seq<char>>, Seq<char>>;

/// The lower-case hexadecimal digit of `d` (below 16).
pub open spec fn hex_digit(d: int) -> char {
    if d < 10 {
        ('0' as int + d) as char
    } else {
        ('a' as int + d - 10) as char
    }
}

/// How serde_json writes one character inside a JSON string: a quote and a
/// backslash escaped, the control characters with a short escape where JSON
/// has one and as `\u00XX` otherwise, every other character as it is.
pub open spec fn json_escaped_char(c: char) -> Seq<char> {
    let u = c as int;
    if c == '"' {
        seq!['\\', '"']
    } else if c == '\\' {
        seq!['\\', '\\']
    } else if u == 0x08 {
        seq!['\\', 'b']
    } else if u == 0x09 {
        seq!['\\', 't']
    } else if u == 0x0A {
        seq!['\\', 'n']
    } else if u == 0x0C {
        seq!['\\', 'f']
    } else if u == 0x0D {
        seq!['\\', 'r']
    } else if u < 0x20 {
        seq!['\\', 'u', '0', '0', hex_digit(u / 16), hex_digit(u % 16)]
    } else {
        seq![c]
    }
}

/// The characters of `s`, each as serde_json writes it inside a string.
pub open spec fn json_escaped(s: Seq<char>) -> Seq<char>
    decreases s.len(),
{
    if s.len() == 0 {
        Seq::empty()
    } else {
        json_escaped(s.drop_last()) + json_escaped_char(s.last())
    }
}

/// The strings of `ss` as JSON strings, separated by commas.
pub open spec fn json_string_items(ss: Seq<Seq<char>>) -> Seq<char>
    decreases ss.len(),
{
    if ss.len() == 0 {
        Seq::empty()
    } else if ss.len() == 1 {
        seq!['"'] + json_escaped(ss[0]) + seq!['"']
    } else {
        json_string_items(ss.drop_last()) + seq![','] + seq!['"'] + json_escaped(ss.last()) + seq![
            '"',
        ]
    }
}

/// The compact JSON array of the strings `ss`, as `serde_json::to_string`
/// writes it.
pub open spec fn json_string_array(ss: Seq<Seq<char>>) -> Seq<char> {
    seq!['['] + json_string_items(ss) + seq![']']
}

/// Reads `text` as a JSON array of strings with `serde_json::from_str`. The
/// contract names the outcome (by the strings, or by the error's message);
/// it does not say which texts are accepted.
#[verifier::external_body]
fn parse_string_list(text: &str) -> (r: Result<Vec<String>, String>)
    ensures
        match r {
            Ok(v) => json_string_list(text@) == Ok::<Seq<Seq<char>>, Seq<char>>(strings_view(v@)),
            Err(m) => json_string_list(text@) == Err::<Seq<Seq<char>>, Seq<char>>(m@),
        },
{
    serde_json::from_str::<Vec<String>>(text).map_err(|error| error.to_string())
}

/// Writes a list of strings as JSON with `serde_json::to_string`, which
/// writes a compact array of escaped strings into a buffer and so never
/// fails for strings.
#[verifier::external_body]
fn write_string_list(strings: &Vec<String>) -> (r: Result<String, String>)
    ensures
        r is Ok,
        r->Ok_0@ == json_string_array(strings_view(strings@)),
{
    serde_json::to_string(strings).map_err(|error| error.to_string())
}

/// A player note as its row holds it, the tags as a JSON list: the note, or
/// the invalid-tags error with the reader's message when the list cannot be
/// read.
pub fn stored_note_from_row(
    player_puuid: String,
    last_display_name: String,
    note: Option<String>,
    tags_json: String,
    updated_at: String,
) -> (r: Result<StoredPlayerNote, StorageError>)
    ensures
        match json_string_list(tags_json@) {
            Ok(tags) => r matches Ok(n) && n.player_puuid == player_puuid && n.last_display_name
                == last_display_name && n.note == note && strings_view(n.tags@) == tags
                && n.updated_at == updated_at,
            Err(m) => r matches Err(StorageError::InvalidPlayerTags(e)) && e@ == m,
        },
{
    match parse_string_list(tags_json.as_str()) {
        Ok(tags) => Ok(StoredPlayerNote { player_puuid, last_display_name, note, tags, updated_at }),
        Err(message) => Err(StorageError::InvalidPlayerTags(message)),
    }
}

/// The tags of a player note as the JSON list its row holds.
pub fn player_note_tags_json(tags: &Vec<String>) -> (r: Result<String, StorageError>)
    ensures
        r matches Ok(t) && t@ == json_string_array(strings_view(tags@)),
{
    match write_string_list(tags) {
        Ok(text) => Ok(text),
        Err(message) => Err(StorageError::InvalidPlayerTags(message)),
    }
}

} // verus!
