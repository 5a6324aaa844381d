//! The decisions of the service that follows the client's events: what a
//! gameflow phase sets off, which events are handled, what the fallback poll
//! does, how long to wait before reconnecting, and what a finished roster
//! hydration does. The caller performs the actions.

use vstd::prelude::*;

use crate::constants::LEAGUE_EVENT_FALLBACK_POLL_SECS;
use crate::roster_cache::{backoff_delay, LeagueReconnectBackoff};
use crate::text::str_eq;

verus! {

pub open spec fn gameflow_phase_uri() -> Seq<char> {
    "/lol-gameflow/v1/gameflow-phase"@
}

pub open spec fn champ_select_session_uri() -> Seq<char> {
    "/lol-champ-select/v1/session"@
}

pub open spec fn champ_select_phase() -> Seq<char> {
    "ChampSelect"@
}

/// What a change of gameflow phase sets off, besides announcing the phase
/// and recording it.
#[derive(Debug, Clone, Copy, PartialEq, Eq)]
pub struct PhaseChangeActions {
    pub run_ready_check: bool,
    pub run_champ_select: bool,
    pub refresh_champ_select: bool,
    /// Cancel the hydration, drop the cached roster and announce that it is
    /// gone.
    pub clear_champ_select: bool,
}

/// A ready check runs the auto-accept; champion select runs its automation
/// and refreshes the roster; the start or end of a game, or no phase at all,
/// clears the roster.
pub fn phase_change_actions(phase: &str) -> (r: PhaseChangeActions)
    ensures
        r.run_ready_check == (phase@ == "ReadyCheck"@),
        r.run_champ_select == (phase@ == champ_select_phase()),
        r.refresh_champ_select == (phase@ == champ_select_phase()),
        r.clear_champ_select == (phase@ == "GameStart"@ || phase@ == "PreEndOfGame"@ || phase@
            == "None"@),
{
    let champ_select = str_eq(phase, "ChampSelect");
    PhaseChangeActions {
        run_ready_check: str_eq(phase, "ReadyCheck"),
        run_champ_select: champ_select,
        refresh_champ_select: champ_select,
        clear_champ_select: str_eq(phase, "GameStart") || str_eq(phase, "PreEndOfGame") || str_eq(
            phase,
            "None",
        ),
    }
}

pub open spec fn opt_view(o: Option<&str>) -> Option<Seq<char>> {
    match o {
        Some(s) => Some(s@),
        None => None,
    }
}

fn same_phase(current: Option<&str>, phase: &str) -> (r: bool)
    ensures
        r == (opt_view(current) == Some(phase@)),
{
    match current {
        Some(c) => str_eq(c, phase),
        None => false,
    }
}

/// What to do with an event of the client.
#[derive(Debug, Clone, Copy, PartialEq, Eq)]
pub enum EventPlan {
    /// Not handled.
    Ignore,
    /// A new gameflow phase: act on it, then remember it.
    ChangePhase,
    /// The gameflow phase already known.
    KeepPhase,
    /// Refresh the champion-select roster.
    RefreshChampSelect,
}

pub open spec fn spec_event_plan(
    uri: Seq<char>,
    phase_payload: Option<Seq<char>>,
    service_phase: Option<Seq<char>>,
    shared_phase: Option<Seq<char>>,
) -> EventPlan {
    if uri == gameflow_phase_uri() {
        match phase_payload {
            None => EventPlan::Ignore,
            Some(p) => if service_phase != Some(p) {
                EventPlan::ChangePhase
            } else {
                EventPlan::KeepPhase
            },
        }
    } else if uri == champ_select_session_uri() {
        if service_phase != Some(champ_select_phase()) && shared_phase != Some(champ_select_phase()) {
            EventPlan::Ignore
        } else {
            EventPlan::RefreshChampSelect
        }
    } else {
        EventPlan::Ignore
    }
}

/// Plans an event: a gameflow event whose payload is text changes the phase
/// when it is new; a champion-select event refreshes the roster while the
/// phase (the service's or the shared one) is champion select; anything
/// else is not handled. An event counts as handled unless it is ignored.
pub fn plan_websocket_event(
    uri: &str,
    phase_payload: Option<&str>,
    service_phase: Option<&str>,
    shared_phase: Option<&str>,
) -> (r: EventPlan)
    ensures
        r == spec_event_plan(uri@, opt_view(phase_payload), opt_view(service_phase), opt_view(shared_phase)),
{
    if str_eq(uri, "/lol-gameflow/v1/gameflow-phase") {
        match phase_payload {
            None => EventPlan::Ignore,
            Some(p) => if !same_phase(service_phase, p) {
                EventPlan::ChangePhase
            } else {
                EventPlan::KeepPhase
            },
        }
    } else if str_eq(uri, "/lol-champ-select/v1/session") {
        if !same_phase(service_phase, "ChampSelect") && !same_phase(shared_phase, "ChampSelect") {
            EventPlan::Ignore
        } else {
            EventPlan::RefreshChampSelect
        }
    } else {
        EventPlan::Ignore
    }
}

/// What the fallback poll does with the phase it read.
#[derive(Debug, Clone, Copy, PartialEq, Eq)]
pub struct FallbackPlan {
    pub change_phase: bool,
    pub refresh_champ_select: bool,
}

/// The fallback poll acts on a phase that is new, and refreshes the roster
/// during champion select.
pub fn plan_fallback(phase: &str, service_phase: Option<&str>) -> (r: FallbackPlan)
    ensures
        r.change_phase == (opt_view(service_phase) != Some(phase@)),
        r.refresh_champ_select == (phase@ == champ_select_phase()),
{
    FallbackPlan {
        change_phase: !same_phase(service_phase, phase),
        refresh_champ_select: str_eq(phase, "ChampSelect"),
    }
}

/// The wait before the next connection attempt, in seconds: the backoff's
/// next wait, never more than the fallback poll interval.
pub fn reconnect_delay_secs(backoff: &mut LeagueReconnectBackoff) -> (r: u64)
    ensures
        r == if backoff_delay(old(backoff).step()) < LEAGUE_EVENT_FALLBACK_POLL_SECS {
            backoff_delay(old(backoff).step())
        } else {
            LEAGUE_EVENT_FALLBACK_POLL_SECS
        },
        final(backoff).step() == if old(backoff).step() < 3 {
            old(backoff).step() + 1
        } else {
            old(backoff).step()
        },
        r <= LEAGUE_EVENT_FALLBACK_POLL_SECS,
{
    let d = backoff.next_delay();
    if d < LEAGUE_EVENT_FALLBACK_POLL_SECS {
        d
    } else {
        LEAGUE_EVENT_FALLBACK_POLL_SECS
    }
}

/// After a session ends, the roster is cleared when the session failed and
/// the fallback poll could not read the phase either.
pub fn clear_after_session(session_failed: bool, fallback_read_phase: bool) -> (r: bool)
    ensures
        r == (session_failed && !fallback_read_phase),
{
    session_failed && !fallback_read_phase
}

// ---------------------------------------------------------------------------
// Roster hydration

/// A hydration for `fingerprint` is already running: the current one is for
/// the same roster and was not cancelled.
pub fn hydration_is_current(
    current_fingerprint: Option<&str>,
    current_cancelled: bool,
    fingerprint: &str,
) -> (r: bool)
    ensures
        r == (opt_view(current_fingerprint) == Some(fingerprint@) && !current_cancelled),
{
    same_phase(current_fingerprint, fingerprint) && !current_cancelled
}

/// What a hydration does once its roster is read.
#[derive(Debug, Clone, Copy, PartialEq, Eq)]
pub enum HydrationOutcome {
    /// Stop without a trace.
    Stop,
    /// Forget this hydration if it is still the current one.
    ClearIfCurrent,
    /// Cache the hydrated roster, forget this hydration if it is still the
    /// current one, and announce the roster.
    Publish,
}

pub open spec fn spec_hydration_outcome(
    cancelled: bool,
    read_roster_fingerprint: Option<Seq<char>>,
    fingerprint: Seq<char>,
    phase_is_champ_select: bool,
    still_current: bool,
) -> HydrationOutcome {
    match read_roster_fingerprint {
        None => HydrationOutcome::ClearIfCurrent,
        Some(f) => if cancelled || f != fingerprint || !phase_is_champ_select {
            if !cancelled {
                HydrationOutcome::ClearIfCurrent
            } else {
                HydrationOutcome::Stop
            }
        } else if !still_current {
            HydrationOutcome::Stop
        } else {
            HydrationOutcome::Publish
        },
    }
}

/// Decides a hydration once its roster is read (`None` when the read
/// failed): a failed read, a changed roster or a phase that moved on forgets
/// the hydration unless it was cancelled; a hydration that is no longer the
/// current one stops; otherwise the roster is published.
pub fn hydration_outcome(
    cancelled: bool,
    read_roster_fingerprint: Option<&str>,
    fingerprint: &str,
    phase_is_champ_select: bool,
    still_current: bool,
) -> (r: HydrationOutcome)
    ensures
        r == spec_hydration_outcome(
            cancelled,
            opt_view(read_roster_fingerprint),
            fingerprint@,
            phase_is_champ_select,
            still_current,
        ),
{
    match read_roster_fingerprint {
        None => HydrationOutcome::ClearIfCurrent,
        Some(f) => if cancelled || !str_eq(f, fingerprint) || !phase_is_champ_select {
            if !cancelled {
                HydrationOutcome::ClearIfCurrent
            } else {
                HydrationOutcome::Stop
            }
        } else if !still_current {
            HydrationOutcome::Stop
        } else {
            HydrationOutcome::Publish
        },
    }
}

} // verus!
