//! The rules that user input and imported data must meet.

use vstd::prelude::*;

use crate::constants::{
    MAX_ACTIVITY_BODY_LEN, MAX_ACTIVITY_LIMIT, MAX_ACTIVITY_TITLE_LEN, MAX_LEAGUE_ASSET_ID,
    MAX_MATCH_LIMIT, MAX_PLAYER_NOTE_LEN, MAX_PLAYER_TAGS, MAX_PLAYER_TAG_LEN, MIN_ACTIVITY_LIMIT,
};
use crate::domain::{
    ActivityKind, AppLanguagePreference, LocalActivityEntry, NewActivityEntry, SettingsValues,
    StartupPage,
};
use crate::errors::{validation_err, ApplicationError};
use crate::text::{char_count_at_most, concat_strs, is_blank, trimmed, trimmed_string};

verus! {

#[derive(Debug, Clone, PartialEq, Eq)]
pub struct SettingsInput {
    pub startup_page: String,
    pub language: String,
    pub compact_mode: bool,
    pub activity_limit: i64,
    pub auto_accept_enabled: bool,
    pub auto_pick_enabled: bool,
    pub auto_pick_champion_id: Option<i64>,
    pub auto_ban_enabled: bool,
    pub auto_ban_champion_id: Option<i64>,
}

#[derive(Debug, Clone, PartialEq, Eq)]
pub struct ActivityNoteInput {
    pub title: String,
    pub body: Option<String>,
}

pub open spec fn valid_activity_limit(limit: i64) -> bool {
    MIN_ACTIVITY_LIMIT <= limit <= MAX_ACTIVITY_LIMIT
}

pub open spec fn valid_match_limit(limit: i64) -> bool {
    1 <= limit <= MAX_MATCH_LIMIT
}

pub open spec fn valid_asset_id(id: i64) -> bool {
    1 <= id <= MAX_LEAGUE_ASSET_ID
}

pub open spec fn valid_optional_champion_id(id: Option<i64>) -> bool {
    id matches Some(v) ==> valid_asset_id(v)
}

pub open spec fn activity_limit_message() -> Seq<char> {
    "Activity limit must be between 1 and 500"@
}

pub open spec fn match_limit_message() -> Seq<char> {
    "Match limit must be between 1 and 20"@
}

pub open spec fn asset_id_message(label: Seq<char>) -> Seq<char> {
    label + " must be between 1 and 1000000"@
}

pub fn normalize_activity_limit(limit: i64) -> (r: Result<i64, ApplicationError>)
    ensures
        valid_activity_limit(limit) ==> r == Ok::<i64, ApplicationError>(limit),
        !valid_activity_limit(limit) ==> validation_err(r, activity_limit_message()),
{
    if MIN_ACTIVITY_LIMIT <= limit && limit <= MAX_ACTIVITY_LIMIT {
        Ok(limit)
    } else {
        Err(ApplicationError::Validation("Activity limit must be between 1 and 500".to_owned()))
    }
}

pub fn normalize_match_limit(limit: i64) -> (r: Result<i64, ApplicationError>)
    ensures
        valid_match_limit(limit) ==> r == Ok::<i64, ApplicationError>(limit),
        !valid_match_limit(limit) ==> validation_err(r, match_limit_message()),
{
    if 1 <= limit && limit <= MAX_MATCH_LIMIT {
        Ok(limit)
    } else {
        Err(ApplicationError::Validation("Match limit must be between 1 and 20".to_owned()))
    }
}

pub fn normalize_league_asset_id(id: i64, label: &str) -> (r: Result<i64, ApplicationError>)
    ensures
        valid_asset_id(id) ==> r == Ok::<i64, ApplicationError>(id),
        !valid_asset_id(id) ==> validation_err(r, asset_id_message(label@)),
{
    if 1 <= id && id <= MAX_LEAGUE_ASSET_ID {
        Ok(id)
    } else {
        Err(ApplicationError::Validation(concat_strs(label, " must be between 1 and 1000000")))
    }
}

pub fn validate_optional_champion_id(champion_id: Option<i64>, label: &str) -> (r: Result<
    (),
    ApplicationError,
>)
    ensures
        valid_optional_champion_id(champion_id) ==> r is Ok,
        !valid_optional_champion_id(champion_id) ==> validation_err(r, asset_id_message(label@),
        ),
{
    if let Some(id) = champion_id {
        normalize_league_asset_id(id, label)?;
    }
    Ok(())
}

/// The first rule that `settings` breaks, as the message that reports it.
pub open spec fn settings_values_error(settings: SettingsValues) -> Option<Seq<char>> {
    if !valid_activity_limit(settings.activity_limit) {
        Some(activity_limit_message())
    } else if !valid_optional_champion_id(settings.auto_pick_champion_id) {
        Some(asset_id_message("Auto pick champion"@))
    } else if !valid_optional_champion_id(settings.auto_ban_champion_id) {
        Some(asset_id_message("Auto ban champion"@))
    } else if settings.auto_pick_enabled && settings.auto_pick_champion_id is None {
        Some("Auto pick requires a champion"@)
    } else if settings.auto_ban_enabled && settings.auto_ban_champion_id is None {
        Some("Auto ban requires a champion"@)
    } else {
        None
    }
}

pub open spec fn settings_values_valid(settings: SettingsValues) -> bool {
    settings_values_error(settings) is None
}

pub fn validate_settings_values(settings: &SettingsValues) -> (r: Result<(), ApplicationError>)
    ensures
        settings_values_error(*settings) is None ==> r is Ok,
        settings_values_error(*settings) matches Some(m) ==> validation_err(r, m),
{
    normalize_activity_limit(settings.activity_limit)?;
    validate_optional_champion_id(settings.auto_pick_champion_id, "Auto pick champion")?;
    validate_optional_champion_id(settings.auto_ban_champion_id, "Auto ban champion")?;

    if settings.auto_pick_enabled && settings.auto_pick_champion_id.is_none() {
        return Err(ApplicationError::Validation("Auto pick requires a champion".to_owned()));
    }
    if settings.auto_ban_enabled && settings.auto_ban_champion_id.is_none() {
        return Err(ApplicationError::Validation("Auto ban requires a champion".to_owned()));
    }
    Ok(())
}

/// The settings values that `input` asks for, or the first rule it breaks.
pub open spec fn spec_validate_settings(input: SettingsInput) -> Result<SettingsValues, Seq<char>> {
    match StartupPage::spec_parse(input.startup_page@) {
        None => Err("Startup page must be dashboard, activity, or settings"@),
        Some(startup_page) => match AppLanguagePreference::spec_parse(input.language@) {
            None => Err("Language must be system, zh, or en"@),
            Some(language) => {
                let values = SettingsValues {
                    startup_page,
                    language,
                    compact_mode: input.compact_mode,
                    activity_limit: input.activity_limit,
                    auto_accept_enabled: input.auto_accept_enabled,
                    auto_pick_enabled: input.auto_pick_enabled,
                    auto_pick_champion_id: input.auto_pick_champion_id,
                    auto_ban_enabled: input.auto_ban_enabled,
                    auto_ban_champion_id: input.auto_ban_champion_id,
                };
                match settings_values_error(values) {
                    Some(m) => Err(m),
                    None => Ok(values),
                }
            },
        },
    }
}

/// Validation keeps every field of the input as given: the startup page and
/// language named by their texts, and every other field unchanged.
pub proof fn lemma_validated_settings_keep_input(input: SettingsInput)
    requires
        spec_validate_settings(input) is Ok,
    ensures
        ({
            let v = spec_validate_settings(input)->Ok_0;
            &&& input.startup_page@ == "dashboard"@ ==> v.startup_page == StartupPage::Dashboard
            &&& input.startup_page@ == "activity"@ ==> v.startup_page == StartupPage::Activity
            &&& input.startup_page@ == "settings"@ ==> v.startup_page == StartupPage::Settings
            &&& input.language@ == "system"@ ==> v.language == AppLanguagePreference::System
            &&& input.language@ == "zh"@ ==> v.language == AppLanguagePreference::Zh
            &&& input.language@ == "en"@ ==> v.language == AppLanguagePreference::En
            &&& v.compact_mode == input.compact_mode
            &&& v.activity_limit == input.activity_limit
            &&& v.auto_accept_enabled == input.auto_accept_enabled
            &&& v.auto_pick_enabled == input.auto_pick_enabled
            &&& v.auto_pick_champion_id == input.auto_pick_champion_id
            &&& v.auto_ban_enabled == input.auto_ban_enabled
            &&& v.auto_ban_champion_id == input.auto_ban_champion_id
        }),
{
    reveal_strlit("dashboard");
    reveal_strlit("activity");
    reveal_strlit("settings");
    reveal_strlit("system");
    reveal_strlit("zh");
    reveal_strlit("en");
    assert("activity"@[0] != "dashboard"@[0]);
    assert("settings"@[0] != "dashboard"@[0]);
    assert("settings"@[0] != "activity"@[0]);
    assert("zh"@.len() != "system"@.len());
    assert("en"@.len() != "system"@.len());
    assert("en"@[0] != "zh"@[0]);
}

/// Validation accepts every input whose texts name a startup page and a
/// language and whose other fields keep the rules: a limit from 1 to 500,
/// champion ids from 1 to 1000000, and a champion for an enabled pick or ban.
pub proof fn lemma_valid_settings_are_accepted(input: SettingsInput)
    requires
        input.startup_page@ == "dashboard"@ || input.startup_page@ == "activity"@
            || input.startup_page@ == "settings"@,
        input.language@ == "system"@ || input.language@ == "zh"@ || input.language@ == "en"@,
        1 <= input.activity_limit <= 500,
        input.auto_pick_champion_id matches Some(id) ==> 1 <= id <= 1000000,
        input.auto_ban_champion_id matches Some(id) ==> 1 <= id <= 1000000,
        input.auto_pick_enabled ==> input.auto_pick_champion_id is Some,
        input.auto_ban_enabled ==> input.auto_ban_champion_id is Some,
    ensures
        spec_validate_settings(input) is Ok,
{
}

/// Validation accepts nothing else: accepted settings name a startup page
/// and a language, and keep every rule on the limit, the champion ids and
/// the enabled pick and ban.
pub proof fn lemma_accepted_settings_keep_the_rules(input: SettingsInput)
    requires
        spec_validate_settings(input) is Ok,
    ensures
        input.startup_page@ == "dashboard"@ || input.startup_page@ == "activity"@
            || input.startup_page@ == "settings"@,
        input.language@ == "system"@ || input.language@ == "zh"@ || input.language@ == "en"@,
        1 <= input.activity_limit <= 500,
        input.auto_pick_champion_id matches Some(id) ==> 1 <= id <= 1000000,
        input.auto_ban_champion_id matches Some(id) ==> 1 <= id <= 1000000,
        input.auto_pick_enabled ==> input.auto_pick_champion_id is Some,
        input.auto_ban_enabled ==> input.auto_ban_champion_id is Some,
{
}

pub fn validate_settings(input: SettingsInput) -> (r: Result<SettingsValues, ApplicationError>)
    ensures
        spec_validate_settings(input) matches Ok(v) ==> r == Ok::<
            SettingsValues,
            ApplicationError,
        >(v),
        spec_validate_settings(input) matches Err(m) ==> validation_err(r, m),
{
    let startup_page = match StartupPage::parse(input.startup_page.as_str()) {
        Some(page) => page,
        None => {
            return Err(
                ApplicationError::Validation(
                    "Startup page must be dashboard, activity, or settings".to_owned(),
                ),
            );
        },
    };
    let language = match AppLanguagePreference::parse(input.language.as_str()) {
        Some(language) => language,
        None => {
            return Err(ApplicationError::Validation("Language must be system, zh, or en".to_owned()));
        },
    };
    let values = SettingsValues {
        startup_page,
        language,
        compact_mode: input.compact_mode,
        activity_limit: input.activity_limit,
        auto_accept_enabled: input.auto_accept_enabled,
        auto_pick_enabled: input.auto_pick_enabled,
        auto_pick_champion_id: input.auto_pick_champion_id,
        auto_ban_enabled: input.auto_ban_enabled,
        auto_ban_champion_id: input.auto_ban_champion_id,
    };
    validate_settings_values(&values)?;
    Ok(values)
}

pub open spec fn game_id_message() -> Seq<char> {
    "Game id must be greater than 0"@
}

pub open spec fn participant_id_message() -> Seq<char> {
    "Participant id must be greater than 0"@
}

pub fn validate_game_id(game_id: i64) -> (r: Result<(), ApplicationError>)
    ensures
        game_id > 0 ==> r is Ok,
        game_id <= 0 ==> validation_err(r, game_id_message()),
{
    if game_id <= 0 {
        return Err(ApplicationError::Validation("Game id must be greater than 0".to_owned()));
    }
    Ok(())
}

pub open spec fn game_and_participant_error(game_id: i64, participant_id: i64) -> Option<Seq<char>> {
    if game_id <= 0 {
        Some(game_id_message())
    } else if participant_id <= 0 {
        Some(participant_id_message())
    } else {
        None
    }
}

pub fn validate_game_and_participant_ids(game_id: i64, participant_id: i64) -> (r: Result<
    (),
    ApplicationError,
>)
    ensures
        game_and_participant_error(game_id, participant_id) is None ==> r is Ok,
        game_and_participant_error(game_id, participant_id) matches Some(m) ==> validation_err(r, m),
{
    validate_game_id(game_id)?;
    if participant_id <= 0 {
        return Err(ApplicationError::Validation("Participant id must be greater than 0".to_owned()));
    }
    Ok(())
}

/// A note as it is stored: trimmed, absent when blank, or the rule it breaks.
pub open spec fn spec_normalize_player_note(note: Option<Seq<char>>) -> Result<
    Option<Seq<char>>,
    Seq<char>,
> {
    match note {
        None => Ok(None),
        Some(text) => {
            let t = trimmed(text);
            if t.len() == 0 {
                Ok(None)
            } else if t.len() > MAX_PLAYER_NOTE_LEN {
                Err("Player note must be 500 characters or fewer"@)
            } else {
                Ok(Some(t))
            }
        },
    }
}

pub open spec fn opt_string_view(o: Option<String>) -> Option<Seq<char>> {
    match o {
        Some(s) => Some(s@),
        None => None,
    }
}

pub fn normalize_player_note(note: Option<String>) -> (r: Result<Option<String>, ApplicationError>)
    ensures
        spec_normalize_player_note(opt_string_view(note)) matches Ok(n) ==> (r matches Ok(o)
            && opt_string_view(o) == n),
        spec_normalize_player_note(opt_string_view(note)) matches Err(m) ==> validation_err(r, m),
{
    match note {
        None => Ok(None),
        Some(value) => {
            let t = trimmed_string(value.as_str());
            if t.as_str().is_empty() {
                Ok(None)
            } else if !char_count_at_most(t.as_str(), MAX_PLAYER_NOTE_LEN) {
                Err(ApplicationError::Validation("Player note must be 500 characters or fewer".to_owned()))
            } else {
                Ok(Some(t))
            }
        },
    }
}

pub open spec fn strings_view(v: Seq<String>) -> Seq<Seq<char>> {
    v.map_values(|s: String| s@)
}

/// The distinct non-blank trimmed tags among the first `n` tags, in the
/// order in which they first appear, or `None` once one of them is too long.
pub open spec fn tags_prefix(tags: Seq<Seq<char>>, n: int) -> Option<Seq<Seq<char>>>
    decreases n,
{
    if n <= 0 {
        Some(Seq::empty())
    } else {
        match tags_prefix(tags, n - 1) {
            None => None,
            Some(acc) => {
                let t = trimmed(tags[n - 1]);
                if t.len() == 0 || acc.contains(t) {
                    Some(acc)
                } else if t.len() > MAX_PLAYER_TAG_LEN {
                    None
                } else {
                    Some(acc.push(t))
                }
            },
        }
    }
}

pub open spec fn spec_normalize_player_tags(tags: Seq<Seq<char>>) -> Result<
    Seq<Seq<char>>,
    Seq<char>,
> {
    match tags_prefix(tags, tags.len() as int) {
        None => Err("Player tags must be 24 characters or fewer"@),
        Some(acc) => if acc.len() > MAX_PLAYER_TAGS {
            Err("Player tags must include 8 entries or fewer"@)
        } else {
            Ok(acc)
        },
    }
}

fn contains_string(v: &Vec<String>, s: &String) -> (r: bool)
    ensures
        r == strings_view(v@).contains(s@),
{
    let mut i: usize = 0;
    while i < v.len()
        invariant
            i <= v.len(),
            forall|j: int| 0 <= j < i ==> v@[j]@ != s@,
        decreases v.len() - i,
    {
        if v[i] == *s {
            proof {
                assert(strings_view(v@)[i as int] == s@);
            }
            return true;
        }
        i = i + 1;
    }
    proof {
        if strings_view(v@).contains(s@) {
            let k = choose|k: int| 0 <= k < strings_view(v@).len() && strings_view(v@)[k] == s@;
            assert(v@[k]@ == s@);
        }
    }
    false
}

pub fn normalize_player_tags(tags: Vec<String>) -> (r: Result<Vec<String>, ApplicationError>)
    ensures
        spec_normalize_player_tags(strings_view(tags@)) matches Ok(n) ==> (r matches Ok(v)
            && strings_view(v@) == n),
        spec_normalize_player_tags(strings_view(tags@)) matches Err(m) ==> validation_err(r, m),
{
    let ghost input = strings_view(tags@);
    let mut normalized: Vec<String> = Vec::new();
    let mut i: usize = 0;
    while i < tags.len()
        invariant
            i <= tags.len(),
            input == strings_view(tags@),
            tags_prefix(input, i as int) == Some(strings_view(normalized@)),
        decreases tags.len() - i,
    {
        let tag = trimmed_string(tags[i].as_str());
        proof {
            assert(input[i as int] == tags@[i as int]@);
        }
        if tag.as_str().is_empty() || contains_string(&normalized, &tag) {
            i = i + 1;
        } else if !char_count_at_most(tag.as_str(), MAX_PLAYER_TAG_LEN) {
            proof {
                lemma_tags_prefix_none_stays(input, i as int + 1, input.len() as int);
            }
            return Err(ApplicationError::Validation("Player tags must be 24 characters or fewer".to_owned()));
        } else {
            let ghost before = normalized@;
            normalized.push(tag);
            proof {
                assert(strings_view(normalized@) == strings_view(before).push(tag@));
            }
            i = i + 1;
        }
    }
    if normalized.len() > MAX_PLAYER_TAGS {
        return Err(ApplicationError::Validation("Player tags must include 8 entries or fewer".to_owned()));
    }
    Ok(normalized)
}

proof fn lemma_tags_prefix_none_stays(tags: Seq<Seq<char>>, n: int, m: int)
    requires
        0 <= n <= m,
        tags_prefix(tags, n) is None,
    ensures
        tags_prefix(tags, m) is None,
    decreases m - n,
{
    if n < m {
        lemma_tags_prefix_none_stays(tags, n + 1, m);
    }
}

/// The distinct tags that tag normalisation keeps are trimmed, non-blank,
/// within the length limit, and no two of them are equal.
pub proof fn lemma_normalized_tags_are_clean(tags: Seq<Seq<char>>, n: int)
    requires
        tags_prefix(tags, n) is Some,
    ensures
        forall|i: int|
            0 <= i < tags_prefix(tags, n)->0.len() ==> {
                let t = #[trigger] tags_prefix(tags, n)->0[i];
                &&& t.len() > 0
                &&& t.len() <= MAX_PLAYER_TAG_LEN
                &&& trimmed(t) == t
            },
        forall|i: int, j: int|
            0 <= i < j < tags_prefix(tags, n)->0.len() ==> tags_prefix(tags, n)->0[i]
                != tags_prefix(tags, n)->0[j],
    decreases n,
{
    if n > 0 {
        lemma_normalized_tags_are_clean(tags, n - 1);
        let t = trimmed(tags[n - 1]);
        lemma_trimmed_idempotent(tags[n - 1]);
    }
}

/// Trimming a trimmed string changes nothing.
pub proof fn lemma_trimmed_idempotent(s: Seq<char>)
    ensures
        trimmed(trimmed(s)) == trimmed(s),
    decreases s.len(),
{
    if s.len() == 0 {
    } else if crate::text::is_white_space(s[0]) {
        lemma_trimmed_idempotent(s.drop_first());
    } else if crate::text::is_white_space(s.last()) {
        lemma_trimmed_idempotent(s.drop_last());
    } else {
    }
}

pub open spec fn spec_validate_activity_note(input: ActivityNoteInput) -> Result<
    (Seq<char>, Option<Seq<char>>),
    Seq<char>,
> {
    let title = trimmed(input.title@);
    if title.len() == 0 {
        Err("Activity note title is required"@)
    } else if title.len() > MAX_ACTIVITY_TITLE_LEN {
        Err("Activity note title must be 120 characters or fewer"@)
    } else {
        let body = match input.body {
            Some(b) => if trimmed(b@).len() == 0 {
                None
            } else {
                Some(trimmed(b@))
            },
            None => None,
        };
        if body matches Some(b) && b.len() > MAX_ACTIVITY_BODY_LEN {
            Err("Activity note body must be 2000 characters or fewer"@)
        } else {
            Ok((title, body))
        }
    }
}

pub fn validate_activity_note(input: ActivityNoteInput) -> (r: Result<NewActivityEntry, ApplicationError>)
    ensures
        spec_validate_activity_note(input) matches Ok((title, body)) ==> (r matches Ok(entry)
            && entry.kind == ActivityKind::Note && entry.title@ == title && opt_string_view(
            entry.body,
        ) == body),
        spec_validate_activity_note(input) matches Err(m) ==> validation_err(r, m),
{
    let title = trimmed_string(input.title.as_str());
    if title.as_str().is_empty() {
        return Err(ApplicationError::Validation("Activity note title is required".to_owned()));
    }
    if !char_count_at_most(title.as_str(), MAX_ACTIVITY_TITLE_LEN) {
        return Err(
            ApplicationError::Validation(
                "Activity note title must be 120 characters or fewer".to_owned(),
            ),
        );
    }
    let body = match &input.body {
        Some(value) => {
            let t = trimmed_string(value.as_str());
            if t.as_str().is_empty() {
                None
            } else {
                Some(t)
            }
        },
        None => None,
    };
    if let Some(value) = &body {
        if !char_count_at_most(value.as_str(), MAX_ACTIVITY_BODY_LEN) {
            return Err(
                ApplicationError::Validation(
                    "Activity note body must be 2000 characters or fewer".to_owned(),
                ),
            );
        }
    }
    Ok(NewActivityEntry { kind: ActivityKind::Note, title, body })
}

pub open spec fn local_activity_entry_error(entry: LocalActivityEntry) -> Option<Seq<char>> {
    if trimmed(entry.title@).len() == 0 {
        Some("Imported activity title is required"@)
    } else if entry.title@.len() > MAX_ACTIVITY_TITLE_LEN {
        Some("Imported activity title must be 120 characters or fewer"@)
    } else if entry.body matches Some(b) && b@.len() > MAX_ACTIVITY_BODY_LEN {
        Some("Imported activity body must be 2000 characters or fewer"@)
    } else if trimmed(entry.created_at@).len() == 0 {
        Some("Imported activity createdAt is required"@)
    } else {
        None
    }
}

pub fn validate_local_activity_entry(entry: &LocalActivityEntry) -> (r: Result<(), ApplicationError>)
    ensures
        local_activity_entry_error(*entry) is None ==> r is Ok,
        local_activity_entry_error(*entry) matches Some(m) ==> validation_err(r, m),
{
    if is_blank(entry.title.as_str()) {
        return Err(ApplicationError::Validation("Imported activity title is required".to_owned()));
    }
    if !char_count_at_most(entry.title.as_str(), MAX_ACTIVITY_TITLE_LEN) {
        return Err(
            ApplicationError::Validation(
                "Imported activity title must be 120 characters or fewer".to_owned(),
            ),
        );
    }
    if let Some(value) = &entry.body {
        if !char_count_at_most(value.as_str(), MAX_ACTIVITY_BODY_LEN) {
            return Err(
                ApplicationError::Validation(
                    "Imported activity body must be 2000 characters or fewer".to_owned(),
                ),
            );
        }
    }
    if is_blank(entry.created_at.as_str()) {
        return Err(ApplicationError::Validation("Imported activity createdAt is required".to_owned()));
    }
    Ok(())
}

/// A normalised note is left as it is by normalising it again.
pub proof fn lemma_normalized_note_is_normal(note: Option<Seq<char>>)
    requires
        exists|raw: Option<Seq<char>>| #[trigger] spec_normalize_player_note(raw) == Ok::<
            Option<Seq<char>>,
            Seq<char>,
        >(note),
    ensures
        spec_normalize_player_note(note) == Ok::<Option<Seq<char>>, Seq<char>>(note),
{
    let raw = choose|raw: Option<Seq<char>>| #[trigger] spec_normalize_player_note(raw) == Ok::<
        Option<Seq<char>>,
        Seq<char>,
    >(note);
    if let Some(text) = raw {
        lemma_trimmed_idempotent(text);
    }
}

/// Normalised tags are left as they are by normalising them again.
pub proof fn lemma_normalized_tags_are_normal(raw: Seq<Seq<char>>)
    requires
        spec_normalize_player_tags(raw) is Ok,
    ensures
        spec_normalize_player_tags(spec_normalize_player_tags(raw)->Ok_0) == spec_normalize_player_tags(
            raw,
        ),
{
    let tags = spec_normalize_player_tags(raw)->Ok_0;
    lemma_normalized_tags_are_clean(raw, raw.len() as int);
    lemma_clean_tags_prefix(tags, tags.len() as int);
    assert(tags.take(tags.len() as int) == tags);
}

proof fn lemma_clean_tags_prefix(tags: Seq<Seq<char>>, n: int)
    requires
        0 <= n <= tags.len(),
        forall|i: int|
            0 <= i < tags.len() ==> {
                let t = #[trigger] tags[i];
                &&& t.len() > 0
                &&& t.len() <= MAX_PLAYER_TAG_LEN
                &&& trimmed(t) == t
            },
        forall|i: int, j: int| 0 <= i < j < tags.len() ==> tags[i] != tags[j],
    ensures
        tags_prefix(tags, n) == Some(tags.take(n)),
    decreases n,
{
    if n > 0 {
        lemma_clean_tags_prefix(tags, n - 1);
        let acc = tags.take(n - 1);
        let t = tags[n - 1];
        assert(trimmed(t) == t);
        if acc.contains(t) {
            let k = choose|k: int| 0 <= k < acc.len() && acc[k] == t;
            assert(tags[k] == tags[n - 1]);
        }
        assert(acc.push(t) == tags.take(n));
    }
}

} // verus!
