//! The run supervisor's decision core: a state machine from supervisor state
//! and observed event to the next state and the actions to perform, so the
//! supervisor thread itself stays a thin loop around process handling.

use vstd::prelude::*;

verus! {

/// A command for the run supervisor: start (or restart) a run, or terminate.
#[derive(Debug, Clone, Copy, PartialEq, Eq, Structural)]
pub enum Input {
    Run,
    Exit,
}

/// What the supervisor reports back about the external run.
#[derive(Debug, Clone, Copy, PartialEq, Eq, Structural)]
pub enum Status {
    Success,
    Failure,
    Reset,
    Starting,
}

/// Failure to start the external run.
#[derive(Debug)]
pub enum RunError {
    IO(String),
}

/// Where the supervisor stands: waiting for a command, waiting for the
/// outcome of a spawn it has requested, or watching an active process.
#[derive(Debug, Clone, Copy, PartialEq, Eq, Structural)]
pub enum RunnerState {
    Waiting,
    Spawning,
    Active,
}

/// One thing the supervisor observes.
#[derive(Debug, Clone, Copy, PartialEq, Eq, Structural)]
pub enum RunnerEvent {
    /// A command arrived on the input queue.
    Command(Input),
    /// The input queue closed: the coordinator is gone.
    Closed,
    /// A requested spawn succeeded or failed.
    SpawnResult(bool),
    /// The active process exited, successfully or not.
    Exited(bool),
    /// Polling the active process failed.
    PollFailed,
    /// The poll interval elapsed with nothing to report.
    Tick,
}

/// One thing the supervisor must do, in order.
#[derive(Debug, Clone, Copy, PartialEq, Eq, Structural)]
pub enum RunnerAction {
    /// Send this status to the coordinator.
    Emit(Status),
    /// Spawn the external run.
    Spawn,
    /// Terminate the active process, best-effort.
    Kill,
    /// End the supervisor thread.
    Halt,
}

/// The supervisor's next state after `event` arrives in `state`.
pub open spec fn runner_next_spec(state: RunnerState, event: RunnerEvent) -> RunnerState {
    match (state, event) {
        (RunnerState::Waiting, RunnerEvent::Command(Input::Run)) => RunnerState::Spawning,
        (RunnerState::Waiting, _) => RunnerState::Waiting,
        (RunnerState::Spawning, RunnerEvent::SpawnResult(true)) => RunnerState::Active,
        (RunnerState::Spawning, RunnerEvent::SpawnResult(false)) => RunnerState::Waiting,
        (RunnerState::Spawning, _) => RunnerState::Spawning,
        (RunnerState::Active, RunnerEvent::Command(Input::Run)) => RunnerState::Spawning,
        (RunnerState::Active, RunnerEvent::Exited(_)) => RunnerState::Waiting,
        (RunnerState::Active, RunnerEvent::PollFailed) => RunnerState::Waiting,
        (RunnerState::Active, _) => RunnerState::Active,
    }
}

/// The actions the supervisor must perform for `event` in `state`: a run
/// request announces itself and spawns; a run request during an active run
/// emits a reset, terminates the old process and spawns a replacement; an
/// exit command or a closed queue terminates any active process and halts;
/// process exits report success or failure.
pub open spec fn runner_actions_spec(state: RunnerState, event: RunnerEvent) -> Seq<RunnerAction> {
    match (state, event) {
        (RunnerState::Waiting, RunnerEvent::Command(Input::Run)) => seq![
            RunnerAction::Emit(Status::Starting),
            RunnerAction::Spawn,
        ],
        (RunnerState::Waiting, RunnerEvent::Closed) => seq![RunnerAction::Halt],
        (RunnerState::Waiting, _) => Seq::empty(),
        (RunnerState::Spawning, RunnerEvent::Closed) => seq![RunnerAction::Halt],
        (RunnerState::Spawning, _) => Seq::empty(),
        (RunnerState::Active, RunnerEvent::Command(Input::Run)) => seq![
            RunnerAction::Emit(Status::Reset),
            RunnerAction::Kill,
            RunnerAction::Spawn,
        ],
        (RunnerState::Active, RunnerEvent::Command(Input::Exit)) => seq![
            RunnerAction::Kill,
            RunnerAction::Halt,
        ],
        (RunnerState::Active, RunnerEvent::Closed) => seq![
            RunnerAction::Kill,
            RunnerAction::Halt,
        ],
        (RunnerState::Active, RunnerEvent::Exited(true)) => seq![
            RunnerAction::Emit(Status::Success),
        ],
        (RunnerState::Active, RunnerEvent::Exited(false)) => seq![
            RunnerAction::Emit(Status::Failure),
        ],
        (RunnerState::Active, _) => Seq::empty(),
    }
}

/// Decide the supervisor's next state and actions for one event.
pub fn runner_step(state: RunnerState, event: RunnerEvent) -> (r: (RunnerState, Vec<RunnerAction>))
    ensures
        r.0 == runner_next_spec(state, event),
        r.1@ == runner_actions_spec(state, event),
{
    let mut actions: Vec<RunnerAction> = Vec::new();
    let next: RunnerState = match (state, event) {
        (RunnerState::Waiting, RunnerEvent::Command(Input::Run)) => {
            actions.push(RunnerAction::Emit(Status::Starting));
            actions.push(RunnerAction::Spawn);
            RunnerState::Spawning
        },
        (RunnerState::Waiting, RunnerEvent::Closed) => {
            actions.push(RunnerAction::Halt);
            RunnerState::Waiting
        },
        (RunnerState::Waiting, _) => RunnerState::Waiting,
        (RunnerState::Spawning, RunnerEvent::SpawnResult(ok)) => {
            if ok {
                RunnerState::Active
            } else {
                RunnerState::Waiting
            }
        },
        (RunnerState::Spawning, RunnerEvent::Closed) => {
            actions.push(RunnerAction::Halt);
            RunnerState::Spawning
        },
        (RunnerState::Spawning, _) => RunnerState::Spawning,
        (RunnerState::Active, RunnerEvent::Command(Input::Run)) => {
            actions.push(RunnerAction::Emit(Status::Reset));
            actions.push(RunnerAction::Kill);
            actions.push(RunnerAction::Spawn);
            RunnerState::Spawning
        },
        (RunnerState::Active, RunnerEvent::Command(Input::Exit)) => {
            actions.push(RunnerAction::Kill);
            actions.push(RunnerAction::Halt);
            RunnerState::Active
        },
        (RunnerState::Active, RunnerEvent::Closed) => {
            actions.push(RunnerAction::Kill);
            actions.push(RunnerAction::Halt);
            RunnerState::Active
        },
        (RunnerState::Active, RunnerEvent::Exited(success)) => {
            if success {
                actions.push(RunnerAction::Emit(Status::Success));
            } else {
                actions.push(RunnerAction::Emit(Status::Failure));
            }
            RunnerState::Waiting
        },
        (RunnerState::Active, RunnerEvent::PollFailed) => RunnerState::Waiting,
        (RunnerState::Active, _) => RunnerState::Active,
    };
    proof {
        assert(actions@ =~= runner_actions_spec(state, event));
    }
    (next, actions)
}

/// A save that arrives while a run is active supersedes it: the supervisor
/// announces the reset, terminates the old process and spawns a replacement,
/// and only then waits for that replacement's outcome.
pub proof fn lemma_rerun_resets()
    ensures
        runner_actions_spec(RunnerState::Active, RunnerEvent::Command(Input::Run)) == seq![
            RunnerAction::Emit(Status::Reset),
            RunnerAction::Kill,
            RunnerAction::Spawn,
        ],
        runner_next_spec(RunnerState::Active, RunnerEvent::Command(Input::Run))
            == RunnerState::Spawning,
{
}

/// The actions of a whole event sequence, in the order the supervisor
/// performs them.
pub open spec fn runner_trace(state: RunnerState, events: Seq<RunnerEvent>) -> Seq<RunnerAction>
    decreases events.len(),
{
    if events.len() == 0 {
        Seq::empty()
    } else {
        runner_actions_spec(state, events[0]) + runner_trace(
            runner_next_spec(state, events[0]),
            events.drop_first(),
        )
    }
}

/// A save that arrives while a run is active: whatever events follow, the
/// `Reset` is the very first thing emitted, so it reaches the coordinator
/// before any later `Success` or `Failure` can.
pub proof fn lemma_reset_precedes_completion(events: Seq<RunnerEvent>)
    requires
        events.len() > 0,
        events[0] == RunnerEvent::Command(Input::Run),
    ensures
        runner_trace(RunnerState::Active, events)[0] == RunnerAction::Emit(Status::Reset),
        forall|i: int|
            0 <= i < runner_trace(RunnerState::Active, events).len() && (#[trigger] runner_trace(
                RunnerState::Active,
                events,
            )[i] == RunnerAction::Emit(Status::Success) || runner_trace(
                RunnerState::Active,
                events,
            )[i] == RunnerAction::Emit(Status::Failure)) ==> i >= 3,
{
    let acts = runner_trace(RunnerState::Active, events);
    let first = runner_actions_spec(RunnerState::Active, RunnerEvent::Command(Input::Run));
    assert(acts == first + runner_trace(RunnerState::Spawning, events.drop_first()));
    assert(acts[0] == first[0]);
    assert(acts[1] == first[1]);
    assert(acts[2] == first[2]);
}

/// `Success` and `Failure` are emitted only when an active process exits: a
/// reset always reaches the coordinator before the replacement run's outcome
/// can.
pub proof fn lemma_completion_only_from_active(state: RunnerState, event: RunnerEvent)
    ensures
        runner_actions_spec(state, event).contains(RunnerAction::Emit(Status::Success))
            ==> state == RunnerState::Active && event == RunnerEvent::Exited(true),
        runner_actions_spec(state, event).contains(RunnerAction::Emit(Status::Failure))
            ==> state == RunnerState::Active && event == RunnerEvent::Exited(false),
{
    let acts = runner_actions_spec(state, event);
    if acts.contains(RunnerAction::Emit(Status::Success)) {
        let i = choose|i: int| 0 <= i < acts.len() && acts[i] == RunnerAction::Emit(Status::Success);
        assert(state == RunnerState::Active && event == RunnerEvent::Exited(true));
    }
    if acts.contains(RunnerAction::Emit(Status::Failure)) {
        let i = choose|i: int| 0 <= i < acts.len() && acts[i] == RunnerAction::Emit(Status::Failure);
        assert(state == RunnerState::Active && event == RunnerEvent::Exited(false));
    }
}

} // verus!
