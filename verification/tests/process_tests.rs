use execute::{
    execute_command, process_step, CommandConfig, ExecuteError, IoErrorKind, IoFailure, Pipeline,
    PipelineExecutor, PipelineStage, PipelineStep, ProcessAction, ProcessEvent, ProcessOutput,
    ProcessPhase, StdCommandExecutor,
};
use std::time::Duration;

/// What a command does in the world of these tests: how long it runs and
/// what it leaves behind, or `None` for a program that does not exist.
fn behaviour(config: &CommandConfig, stdin: &Option<Vec<u8>>) -> Option<(Duration, ProcessOutput)> {
    let input = stdin.clone().unwrap_or_default();
    let done = |exit_code: i32, stdout: Vec<u8>| {
        Some((
            Duration::from_millis(1),
            ProcessOutput { exit_code: Some(exit_code), stdout, stderr: Vec::new() },
        ))
    };
    match config.program() {
        "true" => done(0, Vec::new()),
        "false" => done(1, Vec::new()),
        "echo" => done(0, format!("{}\n", config.args().join(" ")).into_bytes()),
        "cat" => done(0, input),
        "tr" => done(0, input.to_ascii_uppercase()),
        "pwd" => done(0, format!("{}\n", config.working_dir().unwrap_or(".")).into_bytes()),
        "fail" => done(3, b"partial\n".to_vec()),
        "sleep" => {
            let secs: u64 = config.args()[0].parse().expect("a number of seconds");
            Some((
                Duration::from_secs(secs),
                ProcessOutput { exit_code: Some(0), stdout: Vec::new(), stderr: Vec::new() },
            ))
        }
        _ => None,
    }
}

/// Runs one command by doing what the library says, step by step.  The
/// second answer is the list of the actions that were done.
fn run(
    config: &CommandConfig,
    stdin: Option<Vec<u8>>,
) -> (Result<ProcessOutput, ExecuteError>, Vec<&'static str>) {
    let mut done = Vec::new();
    let mut child: Option<(Duration, ProcessOutput)> = None;
    let (mut state, mut action) = execute_command(config);
    loop {
        let event = match action {
            ProcessAction::Spawn => {
                done.push("spawn");
                match behaviour(config, &stdin) {
                    Some(spawned) => {
                        child = Some(spawned);
                        ProcessEvent::Spawned
                    }
                    None => ProcessEvent::SpawnFailed(IoFailure::new(
                        IoErrorKind::NotFound,
                        "No such file or directory",
                    )),
                }
            }
            ProcessAction::WaitFor(limit) => {
                done.push("wait");
                if child.as_ref().expect("a child").0 <= limit {
                    ProcessEvent::Exited
                } else {
                    ProcessEvent::Expired
                }
            }
            ProcessAction::Collect => {
                done.push("collect");
                ProcessEvent::Collected(child.take().expect("a child").1)
            }
            ProcessAction::Kill => {
                done.push("kill");
                ProcessEvent::Killed
            }
            ProcessAction::Reap => {
                done.push("reap");
                child = None;
                ProcessEvent::Reaped
            }
            ProcessAction::Finish(result) => {
                assert_eq!(state.current_phase(), ProcessPhase::Finished);
                assert!(child.is_none(), "a child was left behind");
                return (result, done);
            }
        };
        let (next, then) = process_step(state, event);
        state = next;
        action = then;
    }
}

fn run_pipeline(pipeline: &Pipeline) -> (Result<ProcessOutput, ExecuteError>, Vec<usize>) {
    let mut ran = Vec::new();
    let mut step = PipelineExecutor::execute(pipeline);
    loop {
        match step {
            PipelineStep::Done(result) => return (result, ran),
            PipelineStep::Run { run: position, stdin } => {
                let stage = position.stage();
                ran.push(stage);
                let (outcome, _) = run(&pipeline.stages()[stage].config, stdin);
                step = PipelineExecutor::advance(pipeline, position, outcome);
            }
        }
    }
}

#[test]
fn execute_command_true_succeeds() {
    let cfg = CommandConfig::new("true", vec![]);
    let (result, _) = run(&cfg, None);
    let output = result.expect("command should succeed");
    assert!(output.success());
}

#[test]
fn execute_command_times_out() {
    let cfg = CommandConfig::new("sleep", vec!["1".to_string()])
        .with_timeout(Duration::from_millis(100));

    let (result, _) = run(&cfg, None);
    let err = result.expect_err("command should time out");
    match err {
        ExecuteError::Timeout(dur) => {
            assert_eq!(dur, Duration::from_millis(100));
        }
        other => panic!("expected Timeout error, got {other:?}"),
    }
}

#[test]
fn timed_out_process_is_killed_and_reaped() {
    let cfg = CommandConfig::new("sleep", vec!["1".to_string()])
        .with_timeout(Duration::from_millis(100));

    let (result, done) = run(&cfg, None);

    assert!(matches!(result, Err(ExecuteError::Timeout(limit)) if limit == Duration::from_millis(100)));
    assert_eq!(done, vec!["spawn", "wait", "kill", "reap"]);
}

#[test]
fn process_in_time_is_waited_for_then_collected() {
    let cfg = CommandConfig::new("echo", vec!["out".to_string()]);
    let (result, done) = run(&cfg, None);
    let output = result.expect("an output");
    assert_eq!(output.exit_code, Some(0));
    assert_eq!(output.stdout, b"out\n");
    assert!(output.stderr.is_empty());
    assert_eq!(done, vec!["spawn", "wait", "collect"]);
}

#[test]
fn process_without_timeout_is_collected_at_once() {
    let cfg = CommandConfig::new("echo", vec!["out".to_string()]).without_timeout();
    let (result, done) = run(&cfg, None);
    assert_eq!(result.expect("an output").stdout, b"out\n");
    assert_eq!(done, vec!["spawn", "collect"]);
}

#[test]
fn process_that_cannot_be_spawned_is_an_io_error() {
    let cfg = CommandConfig::new("/nonexistent/program/for/this/test", vec![]);
    let (result, done) = run(&cfg, None);
    match result {
        Err(ExecuteError::Io(failure)) => assert_eq!(failure.kind, IoErrorKind::NotFound),
        other => panic!("expected an I/O error, got {:?}", other),
    }
    assert_eq!(done, vec!["spawn"]);
}

#[test]
fn process_runs_in_its_working_directory() {
    let cfg = CommandConfig::new("pwd", vec![]).with_working_dir("/tmp");
    let (result, _) = run(&cfg, None);
    let output = result.expect("an output");
    assert!(String::from_utf8_lossy(&output.stdout).trim_end().ends_with("tmp"));
}

#[test]
fn non_zero_exit_is_an_output_and_not_an_error() {
    let cfg = CommandConfig::new("false", vec![]);
    let (result, _) = run(&cfg, None);
    let output = result.expect("an output");
    assert_eq!(output.exit_code, Some(1));
    assert!(!output.success());
    assert_eq!(output.reported_code(), 1);
}

#[test]
fn std_command_executor_begins_like_execute_command() {
    let cfg = CommandConfig::new("true", vec![]).with_timeout(Duration::from_secs(2));
    let (state, action) = StdCommandExecutor.execute(&cfg);
    assert_eq!(state.current_phase(), ProcessPhase::Spawning);
    assert!(matches!(action, ProcessAction::Spawn));

    let (state, action) = process_step(state, ProcessEvent::Spawned);
    assert_eq!(state.current_phase(), ProcessPhase::Waiting);
    assert!(matches!(action, ProcessAction::WaitFor(limit) if limit == Duration::from_secs(2)));
}

#[test]
fn steps_of_a_run_that_expires() {
    let cfg = CommandConfig::new("sleep", vec!["9".to_string()])
        .with_timeout(Duration::from_millis(7));
    let (state, _) = execute_command(&cfg);
    let (state, action) = process_step(state, ProcessEvent::Spawned);
    assert!(matches!(action, ProcessAction::WaitFor(limit) if limit == Duration::from_millis(7)));
    let (state, action) = process_step(state, ProcessEvent::Expired);
    assert_eq!(state.current_phase(), ProcessPhase::Killing);
    assert!(matches!(action, ProcessAction::Kill));
    let (state, action) = process_step(state, ProcessEvent::Killed);
    assert_eq!(state.current_phase(), ProcessPhase::Reaping);
    assert!(matches!(action, ProcessAction::Reap));
    let (state, action) = process_step(state, ProcessEvent::Reaped);
    assert_eq!(state.current_phase(), ProcessPhase::Finished);
    assert!(matches!(
        action,
        ProcessAction::Finish(Err(ExecuteError::Timeout(limit))) if limit == Duration::from_millis(7)
    ));
}

#[test]
fn steps_of_a_run_whose_wait_or_collect_fails() {
    let cfg = CommandConfig::new("true", vec![]);
    let (state, _) = execute_command(&cfg);
    let (state, _) = process_step(state, ProcessEvent::Spawned);
    let (state, action) = process_step(
        state,
        ProcessEvent::WaitFailed(IoFailure::new(IoErrorKind::Other, "wait broke")),
    );
    assert_eq!(state.current_phase(), ProcessPhase::Finished);
    match action {
        ProcessAction::Finish(Err(ExecuteError::Io(failure))) => {
            assert_eq!(failure.kind, IoErrorKind::Other);
            assert_eq!(failure.message, "wait broke");
        }
        other => panic!("expected an I/O error, got {:?}", other),
    }

    let (state, _) = execute_command(&cfg);
    let (state, _) = process_step(state, ProcessEvent::Spawned);
    let (state, action) = process_step(state, ProcessEvent::Exited);
    assert_eq!(state.current_phase(), ProcessPhase::Collecting);
    assert!(matches!(action, ProcessAction::Collect));
    let (_, action) = process_step(
        state,
        ProcessEvent::CollectFailed(IoFailure::new(IoErrorKind::BrokenPipe, "pipe broke")),
    );
    match action {
        ProcessAction::Finish(Err(ExecuteError::Io(failure))) => {
            assert_eq!(failure.kind, IoErrorKind::BrokenPipe);
            assert_eq!(failure.message, "pipe broke");
        }
        other => panic!("expected an I/O error, got {:?}", other),
    }
}

#[test]
fn unexpected_event_is_a_child_error() {
    let cfg = CommandConfig::new("true", vec![]);
    let (state, _) = execute_command(&cfg);
    let (state, action) = process_step(state, ProcessEvent::Reaped);
    assert_eq!(state.current_phase(), ProcessPhase::Finished);
    match action {
        ProcessAction::Finish(Err(ExecuteError::Child(message))) => {
            assert_eq!(message, "unexpected process event");
        }
        other => panic!("expected a child error, got {:?}", other),
    }

    let (_, action) = process_step(state, ProcessEvent::Spawned);
    assert!(matches!(action, ProcessAction::Finish(Err(ExecuteError::Child(_)))));
}

#[test]
fn pipeline_executor_empty_pipeline_fails() {
    let pipeline = Pipeline::new();
    let result = PipelineExecutor::execute(&pipeline);
    assert!(result.is_err());
}

#[test]
fn pipeline_executor_single_stage() {
    let pipeline = Pipeline::new().pipe(CommandConfig::new("echo", vec!["hello".to_string()]));

    let (result, _) = run_pipeline(&pipeline);
    assert!(result.is_ok());

    let output = result.unwrap();
    let stdout = String::from_utf8_lossy(&output.stdout);
    assert!(stdout.contains("hello"));
}

#[test]
fn pipeline_executor_two_stages() {
    let pipeline = Pipeline::new()
        .pipe(CommandConfig::new("echo", vec!["hello world".to_string()]))
        .pipe(CommandConfig::new(
            "tr",
            vec!["a-z".to_string(), "A-Z".to_string()],
        ));

    let (result, _) = run_pipeline(&pipeline);
    assert!(result.is_ok(), "Pipeline execution failed: {:?}", result);

    let output = result.unwrap();
    let stdout = String::from_utf8_lossy(&output.stdout);
    assert!(
        stdout.contains("HELLO WORLD"),
        "Expected 'HELLO WORLD', got '{}'",
        stdout
    );
}

#[test]
fn pipeline_stops_at_the_first_stage_that_fails() {
    let pipeline = Pipeline::new()
        .pipe(CommandConfig::new("fail", vec![]))
        .pipe(CommandConfig::new("tr", vec!["a-z".to_string(), "A-Z".to_string()]));

    let (result, ran) = run_pipeline(&pipeline);
    let output = result.expect("the output of the failed stage");
    assert_eq!(output.exit_code, Some(3));
    assert_eq!(output.stdout, b"partial\n");
    assert_eq!(ran, vec![0]);
}

#[test]
fn pipeline_stage_that_ignores_input_gets_none() {
    let pipeline = Pipeline::new()
        .pipe(CommandConfig::new("echo", vec!["first".to_string()]))
        .add_stage(
            PipelineStage::new(CommandConfig::new("echo", vec!["second".to_string()]))
                .ignore_input(true),
        )
        .pipe(CommandConfig::new("cat", vec![]));

    let (result, ran) = run_pipeline(&pipeline);
    assert_eq!(result.expect("an output").stdout, b"second\n");
    assert_eq!(ran, vec![0, 1, 2]);
}

#[test]
fn pipeline_error_of_a_stage_ends_the_run_with_that_error() {
    let pipeline = Pipeline::new()
        .pipe(CommandConfig::new("/nonexistent/program/for/this/test", vec![]))
        .pipe(CommandConfig::new("cat", vec![]));

    let (result, ran) = run_pipeline(&pipeline);
    assert!(matches!(result, Err(ExecuteError::Io(_))));
    assert_eq!(ran, vec![0]);
}
