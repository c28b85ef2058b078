use tarballin::runner::Input;
use tarballin::runner::RunnerAction;
use tarballin::runner::RunnerEvent;
use tarballin::runner::RunnerState;
use tarballin::runner::Status;
use tarballin::runner::runner_step;

#[test]
fn run_command_announces_and_spawns() {
    let (next, actions) = runner_step(RunnerState::Waiting, RunnerEvent::Command(Input::Run));
    assert_eq!(next, RunnerState::Spawning);
    assert_eq!(
        actions,
        vec![RunnerAction::Emit(Status::Starting), RunnerAction::Spawn]
    );
}

#[test]
fn exit_while_waiting_is_ignored() {
    let (next, actions) = runner_step(RunnerState::Waiting, RunnerEvent::Command(Input::Exit));
    assert_eq!(next, RunnerState::Waiting);
    assert!(actions.is_empty());
}

#[test]
fn spawn_outcome_decides_activity() {
    let (next, actions) = runner_step(RunnerState::Spawning, RunnerEvent::SpawnResult(true));
    assert_eq!(next, RunnerState::Active);
    assert!(actions.is_empty());

    let (next, actions) = runner_step(RunnerState::Spawning, RunnerEvent::SpawnResult(false));
    assert_eq!(next, RunnerState::Waiting);
    assert!(actions.is_empty());
}

#[test]
fn process_exit_reports_its_outcome() {
    let (next, actions) = runner_step(RunnerState::Active, RunnerEvent::Exited(true));
    assert_eq!(next, RunnerState::Waiting);
    assert_eq!(actions, vec![RunnerAction::Emit(Status::Success)]);

    let (next, actions) = runner_step(RunnerState::Active, RunnerEvent::Exited(false));
    assert_eq!(next, RunnerState::Waiting);
    assert_eq!(actions, vec![RunnerAction::Emit(Status::Failure)]);
}

#[test]
fn rerun_while_active_resets_before_any_outcome() {
    // A save during an active run: the reset is emitted now, and the state
    // machine cannot emit Success or Failure again until the replacement is
    // active and exits.
    let (next, actions) = runner_step(RunnerState::Active, RunnerEvent::Command(Input::Run));
    assert_eq!(
        actions,
        vec![
            RunnerAction::Emit(Status::Reset),
            RunnerAction::Kill,
            RunnerAction::Spawn,
        ]
    );
    assert_eq!(next, RunnerState::Spawning);

    let (next, actions) = runner_step(next, RunnerEvent::SpawnResult(true));
    assert!(actions.is_empty());
    assert_eq!(next, RunnerState::Active);

    let (_, actions) = runner_step(next, RunnerEvent::Exited(true));
    assert_eq!(actions, vec![RunnerAction::Emit(Status::Success)]);
}

#[test]
fn exit_while_active_kills_and_halts() {
    let (_, actions) = runner_step(RunnerState::Active, RunnerEvent::Command(Input::Exit));
    assert_eq!(actions, vec![RunnerAction::Kill, RunnerAction::Halt]);
}

#[test]
fn closed_queue_halts() {
    let (_, actions) = runner_step(RunnerState::Waiting, RunnerEvent::Closed);
    assert_eq!(actions, vec![RunnerAction::Halt]);
    let (_, actions) = runner_step(RunnerState::Active, RunnerEvent::Closed);
    assert_eq!(actions, vec![RunnerAction::Kill, RunnerAction::Halt]);
}

#[test]
fn ticks_poll_quietly() {
    let (next, actions) = runner_step(RunnerState::Active, RunnerEvent::Tick);
    assert_eq!(next, RunnerState::Active);
    assert!(actions.is_empty());
}
