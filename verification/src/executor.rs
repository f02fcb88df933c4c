//! The life of one process: spawned, then either exited or timed out.
//!
//! The caller performs each [`ProcessAction`] and reports what happened as
//! a [`ProcessEvent`]; [`process_step`] decides what follows.  A process
//! that outlives its time limit is killed and then reaped before the
//! timeout is reported, so that no process is left behind.

use crate::config::CommandConfig;
use crate::error::{ExecuteError, IoFailure};
use crate::output::ProcessOutput;
use std::time::Duration;
use vstd::prelude::*;

verus! {

/// Where the run of a process stands.
#[derive(Debug, Clone, Copy, PartialEq, Eq, Structural)]
pub enum ProcessPhase {
    /// The process is being spawned.
    Spawning,
    /// The process runs and its exit is awaited for a limited time.
    Waiting,
    /// The exit of the process is awaited without limit and its output is
    /// gathered.
    Collecting,
    /// The process ran out of time and is being killed.
    Killing,
    /// The killed process is being reaped.
    Reaping,
    /// The run is over.
    Finished,
}

/// The run of one process.
#[derive(Debug)]
pub struct ProcessRun {
    phase: ProcessPhase,
    timeout: Option<Duration>,
}

/// What happened to the process since the last action.
#[derive(Debug)]
pub enum ProcessEvent {
    /// The process was spawned.
    Spawned,
    /// The process could not be spawned.
    SpawnFailed(IoFailure),
    /// The process exited within the time it was given.
    Exited,
    /// The time ran out before the process exited.
    Expired,
    /// Waiting for the process failed.
    WaitFailed(IoFailure),
    /// The process exited and this is its output.
    Collected(ProcessOutput),
    /// Gathering the output of the process failed.
    CollectFailed(IoFailure),
    /// The kill was attempted, whatever came of it.
    Killed,
    /// The reaping wait returned, whatever it returned.
    Reaped,
}

/// What to do next with the process.
#[derive(Debug)]
pub enum ProcessAction {
    /// Spawn the process with both output streams captured, in the working
    /// directory of the command if it has one.
    Spawn,
    /// Wait in this thread for the process to exit, for at most this long.
    WaitFor(Duration),
    /// Wait for the process to exit, however long it takes, and gather what
    /// it wrote.
    Collect,
    /// Kill the process.
    Kill,
    /// Wait for the killed process, so that the system can forget it.
    Reap,
    /// Nothing more: this is the result.
    Finish(Result<ProcessOutput, ExecuteError>),
}

impl ProcessRun {
    /// Where the run stands.
    pub closed spec fn phase(self) -> ProcessPhase {
        self.phase
    }

    /// The time limit of the command that is run.
    pub closed spec fn timeout(self) -> Option<Duration> {
        self.timeout
    }

    /// Where the run stands.
    pub fn current_phase(&self) -> (phase: ProcessPhase)
        ensures
            phase == self.phase(),
    {
        self.phase
    }
}

/// What is reported for an event that does not answer the pending action.
pub open spec fn unexpected_event_message() -> Seq<char> {
    "unexpected process event"@
}

/// Whether `action` ends a run with the error for an unexpected event.
pub open spec fn is_unexpected(action: ProcessAction) -> bool {
    action matches ProcessAction::Finish(Err(error)) && error.is_child(unexpected_event_message())
}

/// The rule of the run: whether, after `event` arrived in `run`, the run
/// goes on as `next` with `action` to be done.
///
/// A spawned process is waited for, for a limited time if the command has
/// a time limit and without limit otherwise.  A process that exits in time
/// has its output gathered, and that output is the result.  A process whose
/// time runs out is killed, then reaped, and the result is the timeout
/// error that carries the limit.  A failure of the system ends the run with
/// that failure.  An event that does not answer the pending action ends the
/// run with a child-state error.
pub open spec fn transition(
    run: ProcessRun,
    event: ProcessEvent,
    next: ProcessRun,
    action: ProcessAction,
) -> bool {
    &&& next.timeout() == run.timeout()
    &&& match (run.phase(), event) {
        (ProcessPhase::Spawning, ProcessEvent::Spawned) => match run.timeout() {
            Some(limit) => next.phase() == ProcessPhase::Waiting && action
                == ProcessAction::WaitFor(limit),
            None => next.phase() == ProcessPhase::Collecting && action == ProcessAction::Collect,
        },
        (ProcessPhase::Spawning, ProcessEvent::SpawnFailed(failure)) => next.phase()
            == ProcessPhase::Finished && action == ProcessAction::Finish(
            Err(ExecuteError::Io(failure)),
        ),
        (ProcessPhase::Waiting, ProcessEvent::Exited) => next.phase() == ProcessPhase::Collecting
            && action == ProcessAction::Collect,
        (ProcessPhase::Waiting, ProcessEvent::Expired) => next.phase() == ProcessPhase::Killing
            && action == ProcessAction::Kill,
        (ProcessPhase::Waiting, ProcessEvent::WaitFailed(failure)) => next.phase()
            == ProcessPhase::Finished && action == ProcessAction::Finish(
            Err(ExecuteError::Io(failure)),
        ),
        (ProcessPhase::Collecting, ProcessEvent::Collected(output)) => next.phase()
            == ProcessPhase::Finished && action == ProcessAction::Finish(Ok(output)),
        (ProcessPhase::Collecting, ProcessEvent::CollectFailed(failure)) => next.phase()
            == ProcessPhase::Finished && action == ProcessAction::Finish(
            Err(ExecuteError::Io(failure)),
        ),
        (ProcessPhase::Killing, ProcessEvent::Killed) => next.phase() == ProcessPhase::Reaping
            && action == ProcessAction::Reap,
        (ProcessPhase::Reaping, ProcessEvent::Reaped) => next.phase() == ProcessPhase::Finished
            && match run.timeout() {
            Some(limit) => action == ProcessAction::Finish(Err(ExecuteError::Timeout(limit))),
            None => is_unexpected(action),
        },
        _ => next.phase() == ProcessPhase::Finished && is_unexpected(action),
    }
}

/// Begins the run of `config`: the process is to be spawned.
pub fn execute_command(config: &CommandConfig) -> (begin: (ProcessRun, ProcessAction))
    ensures
        begin.0.phase() == ProcessPhase::Spawning,
        begin.0.timeout() == config@.timeout,
        begin.1 == ProcessAction::Spawn,
{
    (ProcessRun { phase: ProcessPhase::Spawning, timeout: config.timeout() }, ProcessAction::Spawn)
}

/// Continues a run after `event`.
pub fn process_step(run: ProcessRun, event: ProcessEvent) -> (step: (ProcessRun, ProcessAction))
    ensures
        transition(run, event, step.0, step.1),
{
    let timeout = run.timeout;
    match (run.phase, event) {
        (ProcessPhase::Spawning, ProcessEvent::Spawned) => match timeout {
            Some(limit) => (
                ProcessRun { phase: ProcessPhase::Waiting, timeout },
                ProcessAction::WaitFor(limit),
            ),
            None => (ProcessRun { phase: ProcessPhase::Collecting, timeout }, ProcessAction::Collect),
        },
        (ProcessPhase::Spawning, ProcessEvent::SpawnFailed(failure)) => finish(
            timeout,
            Err(ExecuteError::Io(failure)),
        ),
        (ProcessPhase::Waiting, ProcessEvent::Exited) => (
            ProcessRun { phase: ProcessPhase::Collecting, timeout },
            ProcessAction::Collect,
        ),
        (ProcessPhase::Waiting, ProcessEvent::Expired) => (
            ProcessRun { phase: ProcessPhase::Killing, timeout },
            ProcessAction::Kill,
        ),
        (ProcessPhase::Waiting, ProcessEvent::WaitFailed(failure)) => finish(
            timeout,
            Err(ExecuteError::Io(failure)),
        ),
        (ProcessPhase::Collecting, ProcessEvent::Collected(output)) => finish(timeout, Ok(output)),
        (ProcessPhase::Collecting, ProcessEvent::CollectFailed(failure)) => finish(
            timeout,
            Err(ExecuteError::Io(failure)),
        ),
        (ProcessPhase::Killing, ProcessEvent::Killed) => (
            ProcessRun { phase: ProcessPhase::Reaping, timeout },
            ProcessAction::Reap,
        ),
        (ProcessPhase::Reaping, ProcessEvent::Reaped) => match timeout {
            Some(limit) => finish(timeout, Err(ExecuteError::Timeout(limit))),
            None => finish(timeout, Err(ExecuteError::child("unexpected process event"))),
        },
        _ => finish(timeout, Err(ExecuteError::child("unexpected process event"))),
    }
}

/// The end of a run with the given result.
fn finish(timeout: Option<Duration>, result: Result<ProcessOutput, ExecuteError>) -> (step: (
    ProcessRun,
    ProcessAction,
))
    ensures
        step.0.phase() == ProcessPhase::Finished,
        step.0.timeout() == timeout,
        step.1 == ProcessAction::Finish(result),
{
    (ProcessRun { phase: ProcessPhase::Finished, timeout }, ProcessAction::Finish(result))
}

/// The capability to execute a command from beginning to end.  Callers
/// implement it to have the workers of a pool execute with a runtime of
/// their own.
pub trait CommandExecutor {
    /// Executes the command and returns what came of it.
    fn execute(&self, config: &CommandConfig) -> Result<ProcessOutput, ExecuteError>;
}

/// The executor that runs each command as a process of its own.
#[derive(Debug, Clone, Copy)]
pub struct StdCommandExecutor;

impl StdCommandExecutor {
    /// Begins the run of `config`, as [`execute_command`] does.
    pub fn execute(&self, config: &CommandConfig) -> (begin: (ProcessRun, ProcessAction))
        ensures
            begin.0.phase() == ProcessPhase::Spawning,
            begin.0.timeout() == config@.timeout,
            begin.1 == ProcessAction::Spawn,
    {
        execute_command(config)
    }
}

/// How many steps a run has left at most.
pub open spec fn steps_left(phase: ProcessPhase) -> nat {
    match phase {
        ProcessPhase::Spawning => 5,
        ProcessPhase::Waiting => 4,
        ProcessPhase::Killing => 3,
        ProcessPhase::Reaping => 2,
        ProcessPhase::Collecting => 1,
        ProcessPhase::Finished => 0,
    }
}

/// Every step brings a run nearer to its end, and a result is handed out
/// exactly when the run is over: no run goes on for more than five steps.
pub proof fn lemma_run_ends(
    run: ProcessRun,
    event: ProcessEvent,
    next: ProcessRun,
    action: ProcessAction,
)
    requires
        transition(run, event, next, action),
    ensures
        run.phase() != ProcessPhase::Finished ==> steps_left(next.phase()) < steps_left(
            run.phase(),
        ),
        next.phase() == ProcessPhase::Finished <==> action is Finish,
{
}

/// A timeout is reported only for a process that was killed and reaped:
/// the timeout error comes out of the reaping phase alone, the reaping
/// phase is entered from the killing phase alone, and the killing phase
/// from an expired wait alone.
pub proof fn lemma_timeout_follows_kill_and_reap(
    run: ProcessRun,
    event: ProcessEvent,
    next: ProcessRun,
    action: ProcessAction,
)
    requires
        transition(run, event, next, action),
    ensures
        action matches ProcessAction::Finish(Err(ExecuteError::Timeout(_))) ==> run.phase()
            == ProcessPhase::Reaping && event is Reaped,
        next.phase() == ProcessPhase::Reaping ==> run.phase() == ProcessPhase::Killing
            && action is Reap,
        next.phase() == ProcessPhase::Killing ==> run.phase() == ProcessPhase::Waiting
            && event is Expired && action is Kill,
{
}

/// A command with time limit `limit` whose process does not exit in time
/// is waited for no longer than `limit`, then killed, then reaped, and the
/// result is the timeout error that carries `limit`.
pub proof fn lemma_expired_run(
    limit: Duration,
    start: ProcessRun,
    waiting: ProcessRun,
    killing: ProcessRun,
    reaping: ProcessRun,
    finished: ProcessRun,
    wait: ProcessAction,
    kill: ProcessAction,
    reap: ProcessAction,
    finish: ProcessAction,
)
    requires
        start.phase() == ProcessPhase::Spawning,
        start.timeout() == Some(limit),
        transition(start, ProcessEvent::Spawned, waiting, wait),
        transition(waiting, ProcessEvent::Expired, killing, kill),
        transition(killing, ProcessEvent::Killed, reaping, reap),
        transition(reaping, ProcessEvent::Reaped, finished, finish),
    ensures
        wait == ProcessAction::WaitFor(limit),
        kill == ProcessAction::Kill,
        reap == ProcessAction::Reap,
        finish == ProcessAction::Finish(Err(ExecuteError::Timeout(limit))),
{
}

/// A command without time limit is never waited for with a limit: once
/// its process is spawned, its output is gathered, and that output is the
/// result.
pub proof fn lemma_unlimited_run(
    start: ProcessRun,
    collecting: ProcessRun,
    finished: ProcessRun,
    collect: ProcessAction,
    finish: ProcessAction,
    output: ProcessOutput,
)
    requires
        start.phase() == ProcessPhase::Spawning,
        start.timeout() is None,
        transition(start, ProcessEvent::Spawned, collecting, collect),
        transition(collecting, ProcessEvent::Collected(output), finished, finish),
    ensures
        collect == ProcessAction::Collect,
        finish == ProcessAction::Finish(Ok(output)),
{
}

} // verus!
