//! What the assistant makes of the local League Client: its status, and the
//! summoner, ranked and match-history data it reports.

use vstd::prelude::*;

use crate::decimal::{decimal_of, i64_to_decimal};
use crate::domain::{
    CurrentSummonerProfile, LeagueClientConnection, LeagueClientPhase, LeagueClientStatus,
    LeagueDataSection, LeagueDataWarning, LeagueSelfData, MatchResult, RankedQueue,
    RankedQueueSummary, RecentMatchSummary,
};
use crate::errors::LeagueClientReadError;
use crate::ranked::clone_opt_string;
use crate::text::{concat_strs, eq_ignore_ascii_case, ascii_lowercase_chars, str_eq, trim_str, trimmed};
use crate::validation::opt_string_view;

verus! {

/// The local League Client, found through its running process or at a given
/// lockfile path.
#[derive(Debug, Clone, PartialEq, Eq)]
pub struct LocalLeagueClient {
    pub lockfile_override: Option<String>,
}

impl LocalLeagueClient {
    pub fn new() -> (r: LocalLeagueClient)
        ensures
            r.lockfile_override is None,
    {
        LocalLeagueClient { lockfile_override: None }
    }

    pub fn with_lockfile_path(path: String) -> (r: LocalLeagueClient)
        ensures
            r.lockfile_override == Some(path),
    {
        LocalLeagueClient { lockfile_override: Some(path) }
    }
}

#[derive(Debug, Clone, Copy, PartialEq, Eq, Structural)]
pub enum LcuRequestError {
    Unauthorized,
    NotLoggedIn,
    Patching,
    Unavailable,
    Unexpected,
}

/// Whether the process `name` is the League Client.
pub open spec fn spec_is_league_client_process(name: Seq<char>) -> bool {
    ||| ascii_lowercase_chars("LeagueClientUx.exe"@) == ascii_lowercase_chars(name)
    ||| ascii_lowercase_chars("LeagueClient.exe"@) == ascii_lowercase_chars(name)
}

pub fn is_league_client_process(name: &str) -> (r: bool)
    ensures
        r == spec_is_league_client_process(name@),
{
    eq_ignore_ascii_case("LeagueClientUx.exe", name) || eq_ignore_ascii_case(
        "LeagueClient.exe",
        name,
    )
}

pub open spec fn is_status(
    s: LeagueClientStatus,
    is_running: bool,
    lockfile_found: bool,
    connection: LeagueClientConnection,
    phase: LeagueClientPhase,
    message: Option<Seq<char>>,
) -> bool {
    &&& s.is_running == is_running
    &&& s.lockfile_found == lockfile_found
    &&& s.connection == connection
    &&& s.phase == phase
    &&& opt_string_view(s.message) == message
}

pub fn connected_status() -> (r: LeagueClientStatus)
    ensures
        is_status(r, true, true, LeagueClientConnection::Connected, LeagueClientPhase::Connected, None),
{
    LeagueClientStatus {
        is_running: true,
        lockfile_found: true,
        connection: LeagueClientConnection::Connected,
        phase: LeagueClientPhase::Connected,
        message: None,
    }
}

pub fn unavailable_status(
    is_running: bool,
    lockfile_found: bool,
    phase: LeagueClientPhase,
    message: &str,
) -> (r: LeagueClientStatus)
    ensures
        is_status(
            r,
            is_running,
            lockfile_found,
            LeagueClientConnection::Unavailable,
            phase,
            Some(message@),
        ),
{
    LeagueClientStatus {
        is_running,
        lockfile_found,
        connection: LeagueClientConnection::Unavailable,
        phase,
        message: Some(message.to_owned()),
    }
}

pub fn partial_data_status() -> (r: LeagueClientStatus)
    ensures
        is_status(
            r,
            true,
            true,
            LeagueClientConnection::Connected,
            LeagueClientPhase::PartialData,
            Some("League Client connected with partial data"@),
        ),
{
    LeagueClientStatus {
        is_running: true,
        lockfile_found: true,
        connection: LeagueClientConnection::Connected,
        phase: LeagueClientPhase::PartialData,
        message: Some("League Client connected with partial data".to_owned()),
    }
}

/// The phase and message shown when a request to the client fails.
pub open spec fn request_error_status(error: LcuRequestError) -> (LeagueClientPhase, Seq<char>) {
    match error {
        LcuRequestError::Unauthorized => (
            LeagueClientPhase::Unauthorized,
            "League Client rejected local authentication"@,
        ),
        LcuRequestError::NotLoggedIn => (
            LeagueClientPhase::NotLoggedIn,
            "League Client is not logged in yet"@,
        ),
        LcuRequestError::Patching => (
            LeagueClientPhase::Patching,
            "League Client local API is not ready"@,
        ),
        LcuRequestError::Unavailable => (
            LeagueClientPhase::Unavailable,
            "League Client local API is unavailable"@,
        ),
        LcuRequestError::Unexpected => (
            LeagueClientPhase::Unavailable,
            "League Client returned an unexpected response"@,
        ),
    }
}

pub fn status_from_request_error(error: LcuRequestError) -> (r: LeagueClientStatus)
    ensures
        is_status(
            r,
            true,
            true,
            LeagueClientConnection::Unavailable,
            request_error_status(error).0,
            Some(request_error_status(error).1),
        ),
{
    match error {
        LcuRequestError::Unauthorized => unavailable_status(
            true,
            true,
            LeagueClientPhase::Unauthorized,
            "League Client rejected local authentication",
        ),
        LcuRequestError::NotLoggedIn => unavailable_status(
            true,
            true,
            LeagueClientPhase::NotLoggedIn,
            "League Client is not logged in yet",
        ),
        LcuRequestError::Patching => unavailable_status(
            true,
            true,
            LeagueClientPhase::Patching,
            "League Client local API is not ready",
        ),
        LcuRequestError::Unavailable => unavailable_status(
            true,
            true,
            LeagueClientPhase::Unavailable,
            "League Client local API is unavailable",
        ),
        LcuRequestError::Unexpected => unavailable_status(
            true,
            true,
            LeagueClientPhase::Unavailable,
            "League Client returned an unexpected response",
        ),
    }
}

/// Why no session with the client could be opened.
#[derive(Debug, Clone, Copy, PartialEq, Eq, Structural)]
pub enum SessionProblem {
    NotRunning,
    LockfileMissing,
    LockfileUnreadable,
    LockfileInvalid,
    ConnectionSetup,
}

pub open spec fn session_problem_status(problem: SessionProblem) -> (bool, bool, LeagueClientPhase, Seq<char>) {
    match problem {
        SessionProblem::NotRunning => (
            false,
            false,
            LeagueClientPhase::NotRunning,
            "League Client is not running"@,
        ),
        SessionProblem::LockfileMissing => (
            true,
            false,
            LeagueClientPhase::LockfileMissing,
            "League Client is running, but its lockfile was not found"@,
        ),
        SessionProblem::LockfileUnreadable => (
            true,
            true,
            LeagueClientPhase::Unavailable,
            "League Client lockfile could not be read"@,
        ),
        SessionProblem::LockfileInvalid => (
            true,
            true,
            LeagueClientPhase::Unavailable,
            "League Client lockfile could not be parsed"@,
        ),
        SessionProblem::ConnectionSetup => (
            true,
            true,
            LeagueClientPhase::Unavailable,
            "League Client local connection could not be prepared"@,
        ),
    }
}

/// The status shown when no session could be opened.
pub fn session_problem_to_status(problem: SessionProblem) -> (r: LeagueClientStatus)
    ensures
        is_status(
            r,
            session_problem_status(problem).0,
            session_problem_status(problem).1,
            LeagueClientConnection::Unavailable,
            session_problem_status(problem).2,
            Some(session_problem_status(problem).3),
        ),
{
    match problem {
        SessionProblem::NotRunning => unavailable_status(
            false,
            false,
            LeagueClientPhase::NotRunning,
            "League Client is not running",
        ),
        SessionProblem::LockfileMissing => unavailable_status(
            true,
            false,
            LeagueClientPhase::LockfileMissing,
            "League Client is running, but its lockfile was not found",
        ),
        SessionProblem::LockfileUnreadable => unavailable_status(
            true,
            true,
            LeagueClientPhase::Unavailable,
            "League Client lockfile could not be read",
        ),
        SessionProblem::LockfileInvalid => unavailable_status(
            true,
            true,
            LeagueClientPhase::Unavailable,
            "League Client lockfile could not be parsed",
        ),
        SessionProblem::ConnectionSetup => unavailable_status(
            true,
            true,
            LeagueClientPhase::Unavailable,
            "League Client local connection could not be prepared",
        ),
    }
}

/// A running process, and the lockfile beside its executable if there is one.
#[derive(Debug, Clone, PartialEq, Eq)]
pub struct ClientProcess {
    pub name: String,
    pub lockfile_path: Option<String>,
}

#[derive(Debug, Clone, PartialEq, Eq)]
pub enum LockfileDiscovery {
    Found(String),
    NotRunning,
    LockfileMissing,
}

/// Where the lockfile is: the first League Client process with a lockfile
/// beside it; missing when a client runs without one; not running otherwise.
pub open spec fn spec_discover_lockfile(processes: Seq<ClientProcess>) -> LockfileDiscovery
    decreases processes.len(),
{
    if processes.len() == 0 {
        LockfileDiscovery::NotRunning
    } else {
        let p = processes[0];
        if spec_is_league_client_process(p.name@) && p.lockfile_path is Some {
            LockfileDiscovery::Found(p.lockfile_path->0)
        } else {
            let rest = spec_discover_lockfile(processes.drop_first());
            if spec_is_league_client_process(p.name@) && rest is NotRunning {
                LockfileDiscovery::LockfileMissing
            } else {
                rest
            }
        }
    }
}

pub fn discover_lockfile(
    lockfile_override: &Option<String>,
    override_exists: bool,
    processes: &Vec<ClientProcess>,
) -> (r: LockfileDiscovery)
    ensures
        match lockfile_override {
            Some(path) => if override_exists {
                r == LockfileDiscovery::Found(*path)
            } else {
                r == LockfileDiscovery::LockfileMissing
            },
            None => r == spec_discover_lockfile(processes@),
        },
{
    if let Some(path) = lockfile_override {
        return if override_exists {
            LockfileDiscovery::Found(path.clone())
        } else {
            LockfileDiscovery::LockfileMissing
        };
    }
    let mut client_is_running = false;
    let mut i: usize = 0;
    proof {
        assert(processes@.skip(0) == processes@);
    }
    while i < processes.len()
        invariant
            i <= processes.len(),
            lockfile_override is None,
            spec_discover_lockfile(processes@) == if client_is_running && spec_discover_lockfile(
                processes@.skip(i as int),
            ) is NotRunning {
                LockfileDiscovery::LockfileMissing
            } else {
                spec_discover_lockfile(processes@.skip(i as int))
            },
        decreases processes.len() - i,
    {
        let process = &processes[i];
        proof {
            assert(processes@.skip(i as int)[0] == processes@[i as int]);
            assert(processes@.skip(i as int).drop_first() == processes@.skip(i + 1));
        }
        if is_league_client_process(process.name.as_str()) {
            if let Some(path) = &process.lockfile_path {
                return LockfileDiscovery::Found(path.clone());
            }
            client_is_running = true;
        }
        i = i + 1;
    }
    proof {
        assert(processes@.skip(processes@.len() as int).len() == 0);
    }
    if client_is_running {
        LockfileDiscovery::LockfileMissing
    } else {
        LockfileDiscovery::NotRunning
    }
}

pub fn data_warning(section: LeagueDataSection, message: String) -> (r: LeagueDataWarning)
    ensures
        r.section == section,
        r.message == message,
{
    LeagueDataWarning { section, message }
}

pub open spec fn spec_section_error_message(section_name: Seq<char>, error: LcuRequestError) -> Seq<char> {
    section_name + match error {
        LcuRequestError::Unauthorized => " could not be read"@,
        LcuRequestError::NotLoggedIn => " is unavailable before login"@,
        LcuRequestError::Patching => " is unavailable while the client is preparing"@,
        LcuRequestError::Unavailable => " is temporarily unavailable"@,
        LcuRequestError::Unexpected => " returned an unexpected response"@,
    }
}

pub fn section_error_message(section_name: &str, error: LcuRequestError) -> (r: String)
    ensures
        r@ == spec_section_error_message(section_name@, error),
{
    let suffix = match error {
        LcuRequestError::Unauthorized => " could not be read",
        LcuRequestError::NotLoggedIn => " is unavailable before login",
        LcuRequestError::Patching => " is unavailable while the client is preparing",
        LcuRequestError::Unavailable => " is temporarily unavailable",
        LcuRequestError::Unexpected => " returned an unexpected response",
    };
    concat_strs(section_name, suffix)
}

// ---------------------------------------------------------------------------
// Summoner

#[derive(Debug, Clone, PartialEq, Eq)]
pub struct LcuSummoner {
    pub display_name: Option<String>,
    pub game_name: Option<String>,
    pub tag_line: Option<String>,
    pub summoner_level: Option<i64>,
    pub profile_icon_id: Option<i64>,
    pub account_id: Option<i64>,
    pub summoner_id: Option<i64>,
    pub puuid: Option<String>,
}

#[derive(Debug, Clone, PartialEq, Eq)]
pub struct LcuPlayer {
    pub summoner_id: Option<i64>,
    pub account_id: Option<i64>,
    pub current_account_id: Option<i64>,
    pub puuid: Option<String>,
}

/// A text that is not blank, trimmed.
pub open spec fn spec_non_empty(value: Option<Seq<char>>) -> Option<Seq<char>> {
    match value {
        Some(v) => if trimmed(v).len() == 0 {
            None
        } else {
            Some(trimmed(v))
        },
        None => None,
    }
}

pub fn non_empty(value: &Option<String>) -> (r: Option<String>)
    ensures
        opt_string_view(r) == spec_non_empty(opt_string_view(*value)),
{
    match value {
        Some(inner) => {
            let t = trim_str(inner.as_str());
            if t.is_empty() {
                None
            } else {
                Some(t.to_owned())
            }
        },
        None => None,
    }
}

pub fn non_empty_owned(value: String) -> (r: Option<String>)
    ensures
        opt_string_view(r) == spec_non_empty(Some(value@)),
{
    let t = trim_str(value.as_str());
    if t.is_empty() {
        None
    } else {
        Some(t.to_owned())
    }
}

pub open spec fn spec_ids_match(left: Option<i64>, right: Option<i64>) -> bool {
    left is Some && right is Some && left->0 == right->0
}

pub fn ids_match(left: Option<i64>, right: Option<i64>) -> (r: bool)
    ensures
        r == spec_ids_match(left, right),
{
    match (left, right) {
        (Some(a), Some(b)) => a == b,
        _ => false,
    }
}

pub open spec fn spec_strings_match(left: Option<Seq<char>>, right: Option<Seq<char>>) -> bool {
    left is Some && right is Some && left->0 == right->0
}

pub fn strings_match(left: &Option<String>, right: &Option<String>) -> (r: bool)
    ensures
        r == spec_strings_match(opt_string_view(*left), opt_string_view(*right)),
{
    match (left, right) {
        (Some(a), Some(b)) => *a == *b,
        _ => false,
    }
}

impl LcuSummoner {
    /// The name to show: the display name, else `game#tag`, else the game
    /// name, else a placeholder.
    pub open spec fn spec_display_name(&self) -> Seq<char> {
        match spec_non_empty(opt_string_view(self.display_name)) {
            Some(v) => v,
            None => match (
                spec_non_empty(opt_string_view(self.game_name)),
                spec_non_empty(opt_string_view(self.tag_line)),
            ) {
                (Some(g), Some(t)) => g + "#"@ + t,
                (Some(g), None) => g,
                _ => "Current summoner"@,
            },
        }
    }

    pub fn display_name(&self) -> (r: String)
        ensures
            r@ == self.spec_display_name(),
    {
        if let Some(value) = non_empty(&self.display_name) {
            return value;
        }
        match (non_empty(&self.game_name), non_empty(&self.tag_line)) {
            (Some(game_name), Some(tag_line)) => {
                let head = concat_strs(game_name.as_str(), "#");
                concat_strs(head.as_str(), tag_line.as_str())
            },
            (Some(game_name), None) => game_name,
            _ => "Current summoner".to_owned(),
        }
    }

    pub fn profile(&self) -> (r: CurrentSummonerProfile)
        ensures
            r.display_name@ == self.spec_display_name(),
            r.summoner_level == match self.summoner_level {
                Some(l) => l,
                None => 0,
            },
            r.profile_icon_id == self.profile_icon_id,
    {
        CurrentSummonerProfile {
            display_name: self.display_name(),
            summoner_level: match self.summoner_level {
                Some(l) => l,
                None => 0,
            },
            profile_icon_id: self.profile_icon_id,
        }
    }

    /// The player is this summoner: by summoner id, account id (current or
    /// not) or PUUID.
    pub open spec fn spec_matches_player(&self, player: LcuPlayer) -> bool {
        ||| spec_ids_match(self.summoner_id, player.summoner_id)
        ||| spec_ids_match(self.account_id, player.account_id)
        ||| spec_ids_match(self.account_id, player.current_account_id)
        ||| spec_strings_match(opt_string_view(self.puuid), opt_string_view(player.puuid))
    }

    pub fn matches_player(&self, player: &LcuPlayer) -> (r: bool)
        ensures
            r == self.spec_matches_player(*player),
    {
        ids_match(self.summoner_id, player.summoner_id) || ids_match(
            self.account_id,
            player.account_id,
        ) || ids_match(self.account_id, player.current_account_id) || strings_match(
            &self.puuid,
            &player.puuid,
        )
    }
}

// ---------------------------------------------------------------------------
// Ranked queues

#[derive(Debug, Clone, PartialEq, Eq)]
pub struct LcuRankedQueue {
    pub queue_type: Option<String>,
    pub tier: Option<String>,
    pub division: Option<String>,
    pub league_points: Option<i64>,
    pub wins: Option<i64>,
    pub losses: Option<i64>,
}

#[derive(Debug, Clone, PartialEq, Eq)]
pub struct LcuRankedStats {
    pub queues: Vec<LcuRankedQueue>,
}

pub open spec fn spec_queue_kind(queue_type: Seq<char>) -> RankedQueue {
    if queue_type == "RANKED_SOLO_5x5"@ {
        RankedQueue::SoloDuo
    } else if queue_type == "RANKED_FLEX_SR"@ {
        RankedQueue::Flex
    } else {
        RankedQueue::Other
    }
}

/// `summary` is what the queue `queue` shows (which has a queue type).
pub open spec fn is_queue_summary(summary: RankedQueueSummary, queue: LcuRankedQueue) -> bool {
    let tier = spec_non_empty(opt_string_view(queue.tier));
    &&& summary.queue == spec_queue_kind(queue.queue_type->0@)
    &&& opt_string_view(summary.tier) == tier
    &&& opt_string_view(summary.division) == spec_non_empty(opt_string_view(queue.division))
    &&& summary.league_points == queue.league_points
    &&& summary.wins == match queue.wins {
        Some(w) => w,
        None => 0,
    }
    &&& summary.losses == match queue.losses {
        Some(l) => l,
        None => 0,
    }
    &&& summary.is_ranked == (tier is Some && tier->0 != "NONE"@ && tier->0 != "UNRANKED"@)
}

/// The queues that have a queue type, in order.
pub open spec fn typed_queues(queues: Seq<LcuRankedQueue>) -> Seq<LcuRankedQueue>
    decreases queues.len(),
{
    if queues.len() == 0 {
        Seq::empty()
    } else {
        let rest = typed_queues(queues.drop_last());
        if queues.last().queue_type is Some {
            rest.push(queues.last())
        } else {
            rest
        }
    }
}

fn map_ranked_queue(queue: &LcuRankedQueue) -> (r: Option<RankedQueueSummary>)
    ensures
        queue.queue_type is None ==> r is None,
        queue.queue_type is Some ==> (r matches Some(s) && is_queue_summary(s, *queue)),
{
    let queue_type = match &queue.queue_type {
        Some(t) => t,
        None => {
            return None;
        },
    };
    let queue_kind = if str_eq(queue_type.as_str(), "RANKED_SOLO_5x5") {
        RankedQueue::SoloDuo
    } else if str_eq(queue_type.as_str(), "RANKED_FLEX_SR") {
        RankedQueue::Flex
    } else {
        RankedQueue::Other
    };
    let tier = non_empty(&queue.tier);
    let division = non_empty(&queue.division);
    let is_ranked = match &tier {
        Some(value) => !str_eq(value.as_str(), "NONE") && !str_eq(value.as_str(), "UNRANKED"),
        None => false,
    };
    Some(
        RankedQueueSummary {
            queue: queue_kind,
            tier,
            division,
            league_points: queue.league_points,
            wins: match queue.wins {
                Some(w) => w,
                None => 0,
            },
            losses: match queue.losses {
                Some(l) => l,
                None => 0,
            },
            is_ranked,
        },
    )
}

pub fn map_ranked_queues(stats: &LcuRankedStats) -> (r: Vec<RankedQueueSummary>)
    ensures
        r@.len() == typed_queues(stats.queues@).len(),
        forall|i: int|
            0 <= i < r@.len() ==> is_queue_summary(#[trigger] r@[i], typed_queues(stats.queues@)[i]),
{
    let mut out: Vec<RankedQueueSummary> = Vec::new();
    let mut i: usize = 0;
    while i < stats.queues.len()
        invariant
            i <= stats.queues@.len(),
            out@.len() == typed_queues(stats.queues@.take(i as int)).len(),
            forall|j: int|
                0 <= j < out@.len() ==> is_queue_summary(
                    #[trigger] out@[j],
                    typed_queues(stats.queues@.take(i as int))[j],
                ),
        decreases stats.queues@.len() - i,
    {
        proof {
            assert(stats.queues@.take(i + 1).drop_last() == stats.queues@.take(i as int));
        }
        match map_ranked_queue(&stats.queues[i]) {
            Some(summary) => {
                out.push(summary);
            },
            None => {},
        }
        i = i + 1;
    }
    proof {
        assert(stats.queues@.take(stats.queues@.len() as int) == stats.queues@);
    }
    out
}

} // verus!

verus! {

/// How the local API's answer status is read: 401 and 403 are a rejected
/// authentication, 404 a client not logged in, 503 a client still patching,
/// any other status outside 200..=299 an unavailable API; `None` for success.
pub open spec fn spec_request_error_for_status(status: u16) -> Option<LcuRequestError> {
    if status == 401 || status == 403 {
        Some(LcuRequestError::Unauthorized)
    } else if status == 404 {
        Some(LcuRequestError::NotLoggedIn)
    } else if status == 503 {
        Some(LcuRequestError::Patching)
    } else if !(200 <= status <= 299) {
        Some(LcuRequestError::Unavailable)
    } else {
        None
    }
}

pub fn request_error_for_status(status: u16) -> (r: Option<LcuRequestError>)
    ensures
        r == spec_request_error_for_status(status),
{
    if status == 401 || status == 403 {
        Some(LcuRequestError::Unauthorized)
    } else if status == 404 {
        Some(LcuRequestError::NotLoggedIn)
    } else if status == 503 {
        Some(LcuRequestError::Patching)
    } else if !(200 <= status && status <= 299) {
        Some(LcuRequestError::Unavailable)
    } else {
        None
    }
}

/// The match-history path for the current summoner's last `match_limit`
/// matches.
pub fn match_history_path(match_limit: i64) -> (r: String)
    ensures
        r@ == "/lol-match-history/v1/products/lol/current-summoner/matches?begIndex=0&endIndex="@
            + crate::decimal::decimal_of(match_limit as int),
{
    let digits = crate::decimal::i64_to_decimal(match_limit);
    crate::text::concat_strs(
        "/lol-match-history/v1/products/lol/current-summoner/matches?begIndex=0&endIndex=",
        digits.as_str(),
    )
}

} // verus!

verus! {

/// The error a read of the client reports when a request fails: a rejected
/// authentication is an access error, an answer that cannot be read an
/// integration error, anything else an unavailable client; the message is
/// the one the status shows for the failure.
pub fn read_error_for_request(error: LcuRequestError) -> (r: LeagueClientReadError)
    ensures
        match error {
            LcuRequestError::Unauthorized => r matches LeagueClientReadError::ClientAccess(m) && m@
                == request_error_status(error).1,
            LcuRequestError::Unexpected => r matches LeagueClientReadError::Integration(m) && m@
                == request_error_status(error).1,
            _ => r matches LeagueClientReadError::ClientUnavailable(m) && m@ == request_error_status(
                error,
            ).1,
        },
{
    let status = status_from_request_error(error);
    let message = match status.message {
        Some(m) => m,
        None => String::new(),
    };
    match error {
        LcuRequestError::Unauthorized => LeagueClientReadError::ClientAccess(message),
        LcuRequestError::Unexpected => LeagueClientReadError::Integration(message),
        _ => LeagueClientReadError::ClientUnavailable(message),
    }
}

/// The error a read of the client reports when no session could be opened:
/// an unavailable client, with the message the status shows.
pub fn read_error_for_session_problem(problem: SessionProblem) -> (r: LeagueClientReadError)
    ensures
        r matches LeagueClientReadError::ClientUnavailable(m) && m@ == session_problem_status(
            problem,
        ).3,
{
    let status = session_problem_to_status(problem);
    let message = match status.message {
        Some(m) => m,
        None => String::new(),
    };
    LeagueClientReadError::ClientUnavailable(message)
}

} // verus!
