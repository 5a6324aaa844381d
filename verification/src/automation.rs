//! Lobby automation: the auto-accept decisions for a ready check, as a state
//! machine. The caller performs each action (reads the client's gameflow
//! phase, sends the accept, waits, records an activity entry) and hands back
//! what came of it.

use vstd::prelude::*;

use crate::domain::{ActivityKind, AppSettings, NewActivityEntry};
use crate::errors::{ApplicationError, LeagueClientReadError};
use crate::text::{concat_strs, str_eq};
use crate::validation::opt_string_view;

verus! {

/// Waits between accept attempts, in milliseconds; the last attempt has no
/// wait after it.
pub const READY_CHECK_RETRY_DELAYS_MS: [u64; 3] = [250, 500, 1000];

/// The number of accept attempts.
pub const READY_CHECK_ATTEMPTS: usize = 4;

pub open spec fn retry_delay(attempt: int) -> u64 {
    if attempt == 0 {
        250
    } else if attempt == 1 {
        500
    } else if attempt == 2 {
        1000
    } else {
        0
    }
}

fn retry_delay_exec(attempt: usize) -> (r: u64)
    ensures
        r == retry_delay(attempt as int),
{
    if attempt < 3 {
        READY_CHECK_RETRY_DELAYS_MS[attempt]
    } else {
        0
    }
}

/// Where the automation stands. `attempt` counts accept attempts from 0.
#[derive(Debug, Clone, PartialEq, Eq)]
pub enum ReadyCheckState {
    /// The phase is read for the first time.
    Detecting,
    /// The phase is read before accept attempt `attempt`.
    BeforeAccept { attempt: usize },
    /// Accept attempt `attempt` was sent.
    Accepting { attempt: usize },
    /// The phase is read after accept attempt `attempt` succeeded.
    AfterAccept { attempt: usize },
    /// The phase is read after accept attempt `attempt` failed.
    AfterFailedAccept { attempt: usize, error: LeagueClientReadError },
    /// The wait after accept attempt `attempt` is running.
    Waiting { attempt: usize },
    /// The phase is read after the wait of accept attempt `attempt`.
    AfterWait { attempt: usize },
    Done,
}

/// What the caller does next.
#[derive(Debug, PartialEq, Eq)]
pub enum ReadyCheckAction {
    ReadPhase,
    Accept,
    Wait { milliseconds: u64 },
    /// Record the entry in the activity log (its outcome does not matter),
    /// then end with the error.
    RecordAndFail { entry: NewActivityEntry, error: ApplicationError },
    Finish { result: Result<(), ApplicationError> },
}

/// What came of the last action.
#[derive(Debug, PartialEq, Eq)]
pub enum ReadyCheckEvent {
    Phase { phase: Result<String, LeagueClientReadError> },
    Accepted { result: Result<(), LeagueClientReadError> },
    Waited,
}

pub open spec fn ready_check_phase() -> Seq<char> {
    "ReadyCheck"@
}

pub open spec fn manual_accept_message() -> Seq<char> {
    "Auto-accept did not move the client out of ReadyCheck after multiple verification attempts"@
}

pub open spec fn is_accept_failed_entry(entry: NewActivityEntry, error: LeagueClientReadError) -> bool {
    &&& entry.kind == ActivityKind::System
    &&& entry.title@ == "Lobby automation accept failed"@
    &&& opt_string_view(entry.body) == Some(
        "Auto-accept could not reach the League Client: "@ + error.spec_message(),
    )
}

pub open spec fn is_manual_accept_entry(entry: NewActivityEntry) -> bool {
    &&& entry.kind == ActivityKind::System
    &&& entry.title@ == "Lobby automation requires manual accept"@
    &&& opt_string_view(entry.body) == Some(
        "Auto-accept retried, but the client stayed in ReadyCheck. Manual confirmation may still be needed."@,
    )
}

/// How the automation starts from the stored settings: it ends at once when
/// they cannot be read or auto-accept is off, and reads the phase otherwise.
pub fn ready_check_start(settings: Result<AppSettings, String>) -> (r: (ReadyCheckState, ReadyCheckAction))
    ensures
        match settings {
            Err(e) => r.0 == ReadyCheckState::Done && (r.1 matches ReadyCheckAction::Finish {
                result: Err(ApplicationError::Storage(m)),
            } && m@ == e@),
            Ok(s) => if s.auto_accept_enabled {
                r == (ReadyCheckState::Detecting, ReadyCheckAction::ReadPhase)
            } else {
                r == (ReadyCheckState::Done, ReadyCheckAction::Finish { result: Ok(()) })
            },
        },
{
    match settings {
        Err(e) => (
            ReadyCheckState::Done,
            ReadyCheckAction::Finish { result: Err(ApplicationError::Storage(e)) },
        ),
        Ok(s) => if s.auto_accept_enabled {
            (ReadyCheckState::Detecting, ReadyCheckAction::ReadPhase)
        } else {
            (ReadyCheckState::Done, ReadyCheckAction::Finish { result: Ok(()) })
        },
    }
}

/// The steps left before the automation must end; every step lowers it.
pub open spec fn steps_left(state: ReadyCheckState) -> int {
    match state {
        ReadyCheckState::Detecting => 25int,
        ReadyCheckState::BeforeAccept { attempt } => 6 * (4 - attempt as int),
        ReadyCheckState::Accepting { attempt } => 6 * (4 - attempt as int) - 1,
        ReadyCheckState::AfterAccept { attempt } => 6 * (4 - attempt as int) - 2,
        ReadyCheckState::AfterFailedAccept { attempt, .. } => 6 * (4 - attempt as int) - 2,
        ReadyCheckState::Waiting { attempt } => 6 * (4 - attempt as int) - 3,
        ReadyCheckState::AfterWait { attempt } => 6 * (4 - attempt as int) - 4,
        ReadyCheckState::Done => 0int,
    }
}

/// The accept attempts that may still be sent.
pub open spec fn accepts_left(state: ReadyCheckState) -> int {
    match state {
        ReadyCheckState::Detecting => 4int,
        ReadyCheckState::BeforeAccept { attempt } => 4 - attempt as int,
        ReadyCheckState::Accepting { attempt } => 3 - attempt as int,
        ReadyCheckState::AfterAccept { attempt } => 3 - attempt as int,
        ReadyCheckState::AfterFailedAccept { attempt, .. } => 3 - attempt as int,
        ReadyCheckState::Waiting { attempt } => 3 - attempt as int,
        ReadyCheckState::AfterWait { attempt } => 3 - attempt as int,
        ReadyCheckState::Done => 0int,
    }
}

pub open spec fn well_formed(state: ReadyCheckState) -> bool {
    match state {
        ReadyCheckState::BeforeAccept { attempt } => attempt < 4,
        ReadyCheckState::Accepting { attempt } => attempt < 4,
        ReadyCheckState::AfterAccept { attempt } => attempt < 4,
        ReadyCheckState::AfterFailedAccept { attempt, .. } => attempt < 4,
        ReadyCheckState::Waiting { attempt } => attempt < 4,
        ReadyCheckState::AfterWait { attempt } => attempt < 4,
        _ => true,
    }
}

/// The event a state waits for.
pub open spec fn expects(state: ReadyCheckState, event: ReadyCheckEvent) -> bool {
    match state {
        ReadyCheckState::Accepting { .. } => event is Accepted,
        ReadyCheckState::Waiting { .. } => event is Waited,
        ReadyCheckState::Done => false,
        _ => event is Phase,
    }
}

/// The shape of an action, without its texts.
pub enum ActionShape {
    ReadPhase,
    Accept,
    Wait(u64),
    RecordAcceptFailure(LeagueClientReadError),
    RecordManualAccept,
    FinishOk,
    FinishWith(ApplicationError),
}

/// The next state and the shape of the next action.
pub open spec fn spec_step(state: ReadyCheckState, event: ReadyCheckEvent) -> (ReadyCheckState, ActionShape) {
    match event {
        ReadyCheckEvent::Phase { phase } => match phase {
            Err(e) => (ReadyCheckState::Done, ActionShape::FinishWith(ApplicationError::spec_from_read(e))),
            Ok(p) => if p@ != ready_check_phase() {
                (ReadyCheckState::Done, ActionShape::FinishOk)
            } else {
                match state {
                    ReadyCheckState::Detecting => (
                        ReadyCheckState::BeforeAccept { attempt: 0 },
                        ActionShape::ReadPhase,
                    ),
                    ReadyCheckState::BeforeAccept { attempt } => (
                        ReadyCheckState::Accepting { attempt },
                        ActionShape::Accept,
                    ),
                    ReadyCheckState::AfterAccept { attempt } => if retry_delay(attempt as int) > 0 {
                        (
                            ReadyCheckState::Waiting { attempt },
                            ActionShape::Wait(retry_delay(attempt as int)),
                        )
                    } else {
                        (ReadyCheckState::AfterWait { attempt }, ActionShape::ReadPhase)
                    },
                    ReadyCheckState::AfterFailedAccept { attempt, error } => (
                        ReadyCheckState::Done,
                        ActionShape::RecordAcceptFailure(error),
                    ),
                    ReadyCheckState::AfterWait { attempt } => if attempt + 1 == READY_CHECK_ATTEMPTS {
                        (ReadyCheckState::Done, ActionShape::RecordManualAccept)
                    } else {
                        (
                            ReadyCheckState::BeforeAccept { attempt: (attempt + 1) as usize },
                            ActionShape::ReadPhase,
                        )
                    },
                    _ => (ReadyCheckState::Done, ActionShape::FinishOk),
                }
            },
        },
        ReadyCheckEvent::Accepted { result } => match state {
            ReadyCheckState::Accepting { attempt } => match result {
                Ok(_) => (ReadyCheckState::AfterAccept { attempt }, ActionShape::ReadPhase),
                Err(error) => (
                    ReadyCheckState::AfterFailedAccept { attempt, error },
                    ActionShape::ReadPhase,
                ),
            },
            _ => (ReadyCheckState::Done, ActionShape::FinishOk),
        },
        ReadyCheckEvent::Waited => match state {
            ReadyCheckState::Waiting { attempt } => (
                ReadyCheckState::AfterWait { attempt },
                ActionShape::ReadPhase,
            ),
            _ => (ReadyCheckState::Done, ActionShape::FinishOk),
        },
    }
}

/// `action` is an action of shape `shape`, with the texts the shape calls for.
pub open spec fn has_shape(action: ReadyCheckAction, shape: ActionShape) -> bool {
    match shape {
        ActionShape::ReadPhase => action == ReadyCheckAction::ReadPhase,
        ActionShape::Accept => action == ReadyCheckAction::Accept,
        ActionShape::Wait(ms) => action == ReadyCheckAction::Wait { milliseconds: ms },
        ActionShape::RecordAcceptFailure(e) => action matches ReadyCheckAction::RecordAndFail {
            entry,
            error,
        } && is_accept_failed_entry(entry, e) && error == ApplicationError::spec_from_read(e),
        ActionShape::RecordManualAccept => action matches ReadyCheckAction::RecordAndFail {
            entry,
            error,
        } && is_manual_accept_entry(entry) && (error matches ApplicationError::Integration(m)
            && m@ == manual_accept_message()),
        ActionShape::FinishOk => action == ReadyCheckAction::Finish { result: Ok(()) },
        ActionShape::FinishWith(e) => action == ReadyCheckAction::Finish { result: Err(e) },
    }
}

fn accept_failed_entry(error: &LeagueClientReadError) -> (r: NewActivityEntry)
    ensures
        is_accept_failed_entry(r, *error),
{
    let message = error.message();
    NewActivityEntry {
        kind: ActivityKind::System,
        title: "Lobby automation accept failed".to_owned(),
        body: Some(
            concat_strs("Auto-accept could not reach the League Client: ", message.as_str()),
        ),
    }
}

fn manual_accept_entry() -> (r: NewActivityEntry)
    ensures
        is_manual_accept_entry(r),
{
    NewActivityEntry {
        kind: ActivityKind::System,
        title: "Lobby automation requires manual accept".to_owned(),
        body: Some(
            "Auto-accept retried, but the client stayed in ReadyCheck. Manual confirmation may still be needed.".to_owned(),
        ),
    }
}

/// One step of the automation: from where it stands and what came of the
/// last action, where it goes and what to do next.
pub fn ready_check_step(state: ReadyCheckState, event: ReadyCheckEvent) -> (r: (
    ReadyCheckState,
    ReadyCheckAction,
))
    requires
        well_formed(state),
        expects(state, event),
    ensures
        r.0 == spec_step(state, event).0,
        has_shape(r.1, spec_step(state, event).1),
{
    match event {
        ReadyCheckEvent::Phase { phase } => match phase {
            Err(e) => (
                ReadyCheckState::Done,
                ReadyCheckAction::Finish { result: Err(ApplicationError::from_read_error(e)) },
            ),
            Ok(p) => if !str_eq(p.as_str(), "ReadyCheck") {
                (ReadyCheckState::Done, ReadyCheckAction::Finish { result: Ok(()) })
            } else {
                match state {
                    ReadyCheckState::Detecting => (
                        ReadyCheckState::BeforeAccept { attempt: 0 },
                        ReadyCheckAction::ReadPhase,
                    ),
                    ReadyCheckState::BeforeAccept { attempt } => (
                        ReadyCheckState::Accepting { attempt },
                        ReadyCheckAction::Accept,
                    ),
                    ReadyCheckState::AfterAccept { attempt } => {
                        let delay = retry_delay_exec(attempt);
                        if delay > 0 {
                            (
                                ReadyCheckState::Waiting { attempt },
                                ReadyCheckAction::Wait { milliseconds: delay },
                            )
                        } else {
                            (ReadyCheckState::AfterWait { attempt }, ReadyCheckAction::ReadPhase)
                        }
                    },
                    ReadyCheckState::AfterFailedAccept { attempt, error } => {
                        let entry = accept_failed_entry(&error);
                        (
                            ReadyCheckState::Done,
                            ReadyCheckAction::RecordAndFail {
                                entry,
                                error: ApplicationError::from_read_error(error),
                            },
                        )
                    },
                    ReadyCheckState::AfterWait { attempt } => if attempt + 1 == READY_CHECK_ATTEMPTS {
                        (
                            ReadyCheckState::Done,
                            ReadyCheckAction::RecordAndFail {
                                entry: manual_accept_entry(),
                                error: ApplicationError::Integration(
                                    "Auto-accept did not move the client out of ReadyCheck after multiple verification attempts".to_owned(),
                                ),
                            },
                        )
                    } else {
                        (
                            ReadyCheckState::BeforeAccept { attempt: attempt + 1 },
                            ReadyCheckAction::ReadPhase,
                        )
                    },
                    _ => (ReadyCheckState::Done, ReadyCheckAction::Finish { result: Ok(()) }),
                }
            },
        },
        ReadyCheckEvent::Accepted { result } => match state {
            ReadyCheckState::Accepting { attempt } => match result {
                Ok(_) => (ReadyCheckState::AfterAccept { attempt }, ReadyCheckAction::ReadPhase),
                Err(error) => (
                    ReadyCheckState::AfterFailedAccept { attempt, error },
                    ReadyCheckAction::ReadPhase,
                ),
            },
            _ => (ReadyCheckState::Done, ReadyCheckAction::Finish { result: Ok(()) }),
        },
        ReadyCheckEvent::Waited => match state {
            ReadyCheckState::Waiting { attempt } => (
                ReadyCheckState::AfterWait { attempt },
                ReadyCheckAction::ReadPhase,
            ),
            _ => (ReadyCheckState::Done, ReadyCheckAction::Finish { result: Ok(()) }),
        },
    }
}

/// Every step keeps the state well formed, ends the automation or brings it
/// closer to its end, and spends an accept attempt exactly when it sends one.
pub proof fn lemma_step_progress(state: ReadyCheckState, event: ReadyCheckEvent)
    requires
        well_formed(state),
        expects(state, event),
    ensures
        well_formed(spec_step(state, event).0),
        spec_step(state, event).0 == ReadyCheckState::Done || steps_left(spec_step(state, event).0)
            < steps_left(state),
        spec_step(state, event).0 != ReadyCheckState::Done ==> steps_left(
            spec_step(state, event).0,
        ) > 0,
        spec_step(state, event).1 is Accept ==> accepts_left(state) >= 1 && accepts_left(
            spec_step(state, event).0,
        ) == accepts_left(state) - 1,
        !(spec_step(state, event).1 is Accept) ==> accepts_left(spec_step(state, event).0)
            <= accepts_left(state),
        (spec_step(state, event).0 == ReadyCheckState::Done) == (spec_step(state, event).1 is FinishOk
            || spec_step(state, event).1 is FinishWith || spec_step(state, event).1 is RecordAcceptFailure
            || spec_step(state, event).1 is RecordManualAccept),
{
}

/// The automation run from `state` through `events`: the number of accepts it
/// sends, and whether it has ended.
pub open spec fn run(state: ReadyCheckState, events: Seq<ReadyCheckEvent>) -> (int, bool)
    decreases events.len(),
{
    if state == ReadyCheckState::Done {
        (0, true)
    } else if events.len() == 0 || !expects(state, events[0]) || !well_formed(state) {
        (0, false)
    } else {
        let (next, shape) = spec_step(state, events[0]);
        let (accepts, ended) = run(next, events.drop_first());
        (if shape is Accept { accepts + 1 } else { accepts }, ended)
    }
}

/// However the client answers, a run of the automation sends no more accepts
/// than it has left (four from the start).
pub proof fn lemma_run_bounds(state: ReadyCheckState, events: Seq<ReadyCheckEvent>)
    requires
        well_formed(state),
    ensures
        run(state, events).0 <= accepts_left(state),
    decreases events.len(),
{
    if state != ReadyCheckState::Done && events.len() > 0 && expects(state, events[0]) {
        lemma_step_progress(state, events[0]);
        lemma_run_bounds(spec_step(state, events[0]).0, events.drop_first());
    }
}

/// A run that gets the answers it waits for ends within `steps_left` answers.
pub proof fn lemma_run_ends(state: ReadyCheckState, events: Seq<ReadyCheckEvent>)
    requires
        well_formed(state),
        events.len() >= steps_left(state),
        forall|i: int|
            0 <= i < events.len() ==> expects(
                #[trigger] run_state(state, events, i),
                events[i],
            ) || run_state(state, events, i) == ReadyCheckState::Done,
    ensures
        run(state, events).1,
    decreases events.len(),
{
    if state != ReadyCheckState::Done {
        assert(steps_left(state) > 0);
        assert(events.len() > 0);
        assert(run_state(state, events, 0) == state);
        assert(expects(state, events[0]));
        lemma_step_progress(state, events[0]);
        let next = spec_step(state, events[0]).0;
        assert forall|i: int| 0 <= i < events.drop_first().len() implies expects(
            #[trigger] run_state(next, events.drop_first(), i),
            events.drop_first()[i],
        ) || run_state(next, events.drop_first(), i) == ReadyCheckState::Done by {
            lemma_run_state_shift(state, events, i + 1);
            assert(events.drop_first()[i] == events[i + 1]);
        }
        if next != ReadyCheckState::Done {
            lemma_run_ends(next, events.drop_first());
        }
        assert(run(state, events).1 == run(next, events.drop_first()).1);
    }
}

/// The state after the first `n` answers of `events`.
pub open spec fn run_state(state: ReadyCheckState, events: Seq<ReadyCheckEvent>, n: int) -> ReadyCheckState
    decreases n,
{
    if n <= 0 || state == ReadyCheckState::Done || events.len() == 0 || !expects(state, events[0])
        || !well_formed(state) {
        state
    } else {
        run_state(spec_step(state, events[0]).0, events.drop_first(), n - 1)
    }
}

proof fn lemma_run_state_shift(state: ReadyCheckState, events: Seq<ReadyCheckEvent>, n: int)
    requires
        n >= 1,
        state != ReadyCheckState::Done,
        events.len() > 0,
        expects(state, events[0]),
        well_formed(state),
    ensures
        run_state(state, events, n) == run_state(
            spec_step(state, events[0]).0,
            events.drop_first(),
            n - 1,
        ),
{
}

/// `event` is what performing `action` gives back: a phase for a read, the
/// accept's result for an accept, the end of a wait for a wait. The other
/// actions end the automation and are answered by nothing.
pub open spec fn answers(action: ReadyCheckAction, event: ReadyCheckEvent) -> bool {
    match action {
        ReadyCheckAction::ReadPhase => event is Phase,
        ReadyCheckAction::Accept => event is Accepted,
        ReadyCheckAction::Wait { .. } => event is Waited,
        _ => false,
    }
}

/// The automation starts well formed, and the answer to its first action is
/// what its first state waits for.
pub proof fn lemma_start_answer_expected(event: ReadyCheckEvent)
    requires
        answers(ReadyCheckAction::ReadPhase, event),
    ensures
        well_formed(ReadyCheckState::Detecting),
        expects(ReadyCheckState::Detecting, event),
{
}

/// Performing the action of a step and handing back what came of it always
/// meets the next step's `requires`: the next state is well formed and waits
/// for exactly that answer. An action that ends the automation has no
/// answer, and comes only with the final state.
pub proof fn lemma_step_answer_expected(
    state: ReadyCheckState,
    event: ReadyCheckEvent,
    action: ReadyCheckAction,
    next_event: ReadyCheckEvent,
)
    requires
        well_formed(state),
        expects(state, event),
        has_shape(action, spec_step(state, event).1),
    ensures
        well_formed(spec_step(state, event).0),
        answers(action, next_event) ==> expects(spec_step(state, event).0, next_event),
        spec_step(state, event).0 != ReadyCheckState::Done ==> !(action is RecordAndFail
            || action is Finish),
{
    lemma_step_progress(state, event);
}

} // verus!
