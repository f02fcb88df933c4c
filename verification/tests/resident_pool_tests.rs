use execute::{
    BackendConfig, BackendFactory, BackendType, CommandConfig, Dispatch, ExecuteError,
    InlineBackend, IoErrorKind, IoFailure, PoolStep, ProcessAction, ProcessBackend, ProcessPool,
    ProcessPoolBackend, ThreadPoolBackend,
};
use execute::{CommandTask, ThreadAction, ThreadExecutor, ThreadModeExecutor};
use execute::{ExecutorChoice, ProcessPhase};
use std::time::Duration;

fn task() -> CommandConfig {
    CommandConfig::new("echo", vec!["hi".to_string()]).without_timeout()
}

#[test]
fn process_pool_creates_correct_size() {
    let pool = ProcessPool::new(4);
    assert_eq!(pool.size(), 4);
}

#[test]
fn process_pool_starts_with_every_worker_free() {
    let mut pool = ProcessPool::new(3);
    assert_eq!(pool.idle(), 3);
    assert_eq!(pool.checkout(), Some(0));
    assert_eq!(pool.checkout(), Some(1));
    assert_eq!(pool.checkout(), Some(2));
    assert_eq!(pool.checkout(), None);
    assert_eq!(pool.checkout(), None);
    assert_eq!(pool.idle(), 0);
    assert_eq!(pool.size(), 3);
}

#[test]
fn returned_worker_waits_behind_the_free_ones() {
    let mut pool = ProcessPool::new(3);
    assert_eq!(pool.checkout(), Some(0));
    pool.give_back(0);
    assert_eq!(pool.idle(), 3);
    assert_eq!(pool.checkout(), Some(1));
    assert_eq!(pool.checkout(), Some(2));
    assert_eq!(pool.checkout(), Some(0));
    assert_eq!(pool.checkout(), None);
}

#[test]
fn pool_of_no_workers_has_none_to_give() {
    let mut pool = ProcessPool::new(0);
    assert_eq!(pool.size(), 0);
    assert_eq!(pool.checkout(), None);
    assert!(matches!(pool.execute(&task()), PoolStep::Wait));
    assert!(pool.shutdown().is_empty());
}

#[test]
fn execute_checks_a_worker_out_and_complete_returns_it() {
    let mut pool = ProcessPool::new(1);

    let worker = match pool.execute(&task()) {
        PoolStep::Send { worker, request } => {
            assert_eq!(request, b"echo\thi\t\t0\n");
            worker
        }
        PoolStep::Wait => panic!("a free worker was not handed out"),
    };
    assert_eq!(worker, 0);
    assert_eq!(pool.idle(), 0);
    assert!(matches!(pool.execute(&task()), PoolStep::Wait));

    let output = pool.complete(worker, Ok(b"0\t2\thi\t0\t\n".to_vec())).expect("an output");
    assert_eq!(output.exit_code, Some(0));
    assert_eq!(output.stdout, b"hi");
    assert_eq!(pool.idle(), 1);
    assert!(matches!(pool.execute(&task()), PoolStep::Send { worker: 0, .. }));
}

#[test]
fn worker_goes_back_whatever_came_of_the_exchange() {
    let mut pool = ProcessPool::new(2);

    let worker = pool.checkout().expect("a worker");
    let result = pool.complete(worker, Err(IoFailure::new(IoErrorKind::BrokenPipe, "closed")));
    match result {
        Err(ExecuteError::Io(failure)) => {
            assert_eq!(failure.kind, IoErrorKind::BrokenPipe);
            assert_eq!(failure.message, "closed");
        }
        other => panic!("expected an I/O error, got {:?}", other),
    }
    assert_eq!(pool.idle(), 2);

    let worker = pool.checkout().expect("a worker");
    let result = pool.complete(worker, Ok(b"garbled\n".to_vec()));
    match result {
        Err(ExecuteError::Child(message)) => assert_eq!(message, "invalid response format"),
        other => panic!("expected a child error, got {:?}", other),
    }
    assert_eq!(pool.idle(), 2);
}

#[test]
fn shutdown_names_every_worker() {
    let mut pool = ProcessPool::new(4);
    assert_eq!(pool.checkout(), Some(0));
    assert_eq!(pool.shutdown(), vec![0, 1, 2, 3]);
    assert_eq!(pool.idle(), 0);
    assert_eq!(pool.size(), 4);
    assert_eq!(pool.checkout(), None);
}

#[test]
fn pool_knows_who_is_checked_out() {
    let mut pool = ProcessPool::new(2);
    assert!(!pool.holds(0));
    assert!(!pool.holds(1));
    assert!(!pool.holds(2));
    assert_eq!(pool.checkout(), Some(0));
    assert!(pool.holds(0));
    assert!(!pool.holds(1));
    pool.give_back(0);
    assert!(!pool.holds(0));
}

#[test]
fn backend_config_builders() {
    let config = BackendConfig::new();
    assert_eq!(config.backend_type, BackendType::Process);
    assert_eq!(config.workers, 4);
    assert_eq!(config.pool_size, None);
    assert_eq!(config.concurrency_limit, None);
    assert_eq!(BackendType::default(), BackendType::Process);

    let config = BackendConfig::default()
        .with_backend_type(BackendType::ProcessPool)
        .with_workers(8)
        .with_pool_size(3)
        .with_concurrency_limit(2);
    assert_eq!(config.backend_type, BackendType::ProcessPool);
    assert_eq!(config.workers, 8);
    assert_eq!(config.pool_size, Some(3));
    assert_eq!(config.concurrency_limit, Some(2));
}

#[test]
fn factory_makes_the_backend_that_the_settings_name() {
    let kinds = [
        (BackendType::Process, "ProcessBackend"),
        (BackendType::ThreadPool, "ThreadPoolBackend"),
        (BackendType::ProcessPool, "ProcessPoolBackend"),
        (BackendType::Inline, "InlineBackend"),
    ];
    for (kind, name) in kinds {
        let backend = BackendFactory::create(&BackendConfig::new().with_backend_type(kind));
        assert_eq!(backend.backend_type(), kind);
        assert_eq!(backend.name(), name);
    }
}

#[test]
fn only_the_process_pool_backend_hands_tasks_to_residents() {
    let config = BackendConfig::new();
    assert!(matches!(ProcessBackend::new(&config).execute(&task()), Dispatch::Process { .. }));
    assert!(matches!(ThreadPoolBackend::new(&config).execute(&task()), Dispatch::Process { .. }));
    assert!(matches!(InlineBackend::new().execute(&task()), Dispatch::Process { .. }));
    assert!(matches!(InlineBackend::default().execute(&task()), Dispatch::Process { .. }));
    assert!(matches!(ProcessPoolBackend::new(&config).execute(&task()), Dispatch::Resident));

    match ProcessBackend::new(&config).execute(&task()) {
        Dispatch::Process { run, action } => {
            assert_eq!(run.current_phase(), ProcessPhase::Spawning);
            assert!(matches!(action, ProcessAction::Spawn));
        }
        Dispatch::Resident => panic!("the process backend has no residents"),
    }

    assert_eq!(ProcessBackend::new(&config).name(), "ProcessBackend");
    assert_eq!(ThreadPoolBackend::new(&config).name(), "ThreadPoolBackend");
    assert_eq!(ProcessPoolBackend::new(&config).name(), "ProcessPoolBackend");
    assert_eq!(InlineBackend::new().name(), "InlineBackend");
}

#[test]
fn only_the_process_pool_backend_needs_setting_up() {
    let plain = BackendFactory::create(&BackendConfig::new());
    assert_eq!(plain.start(), None);
    assert!(!plain.stop());

    let config = BackendConfig::new().with_backend_type(BackendType::ProcessPool).with_workers(6);
    let pool = BackendFactory::create(&config);
    assert_eq!(pool.start(), Some(6));
    assert!(pool.stop());

    let pool = BackendFactory::create(&config.with_pool_size(2));
    assert_eq!(pool.start(), Some(2));
    assert_eq!(ProcessPoolBackend::new(&config.with_pool_size(9)).start(), 9);
}

#[test]
fn thread_executor_hands_out_the_newest_task_first() {
    let mut executor: ThreadExecutor<&str> = ThreadExecutor::new(3);
    assert_eq!(executor.workers(), 3);
    assert!(matches!(executor.next_action(), ThreadAction::Sleep));

    executor.submit("first");
    executor.submit("second");
    assert!(matches!(executor.next_action(), ThreadAction::Run("second")));
    assert!(matches!(executor.next_action(), ThreadAction::Run("first")));
    assert!(matches!(executor.next_action(), ThreadAction::Sleep));

    let plan = executor.start(Duration::from_millis(5));
    assert_eq!(plan.workers, 3);
    assert_eq!(plan.interval, Duration::from_millis(5));
    assert_eq!(plan.executor, ExecutorChoice::Custom);
    assert_eq!(plan.concurrency_limit, None);
}

#[test]
fn thread_mode_executor_runs_commands() {
    let mut executor = ThreadModeExecutor::new(2);
    executor.submit(CommandConfig::new("a", vec![]));
    executor.submit(CommandConfig::new("b", vec![]));

    let plan = executor.start(Duration::from_millis(5));
    assert_eq!(plan.workers, 2);
    assert_eq!(plan.executor, ExecutorChoice::Backend(BackendType::ThreadPool));

    match executor.next_action() {
        ThreadAction::Run(task) => {
            assert_eq!(task.config().program(), "b");
            let (run, action) = task.execute();
            assert_eq!(run.current_phase(), ProcessPhase::Spawning);
            assert!(matches!(action, ProcessAction::Spawn));
        }
        ThreadAction::Sleep => panic!("a command was waiting"),
    }
    match executor.next_action() {
        ThreadAction::Run(task) => assert_eq!(task.config().program(), "a"),
        ThreadAction::Sleep => panic!("a command was waiting"),
    }
    assert!(matches!(executor.next_action(), ThreadAction::Sleep));

    let task = CommandTask::new(CommandConfig::new("c", vec!["x".to_string()]));
    let copy = task.clone();
    assert_eq!(copy.config().program(), "c");
    assert_eq!(copy.config().args(), task.config().args());
}
