use execute::{
    BatchOutcome, CommandConfig, CommandPool, CommandPoolSeg, Dispatch, ExecuteError,
    ExecutionConfig, ExecutionMode, ExecutorChoice, IoErrorKind, ProcessAction, PushOutcome,
    WorkerAction,
};
use execute::BackendType;
use std::time::Duration;

fn echo(word: &str) -> CommandConfig {
    CommandConfig::new("echo", vec![word.to_string()])
}

fn first_arg(task: &CommandConfig) -> String {
    task.args()[0].clone()
}

#[test]
fn command_pool_push_pop_and_is_empty_work() {
    let mut pool = CommandPool::new();
    assert!(pool.is_empty());

    pool.push_task(CommandConfig::new("echo", vec!["hi".to_string()]));
    assert!(!pool.is_empty());

    let task = pool.pop_task().expect("expected a task");
    assert_eq!(task.program(), "echo");
    assert!(pool.is_empty());
}

#[test]
fn command_pool_seg_push_pop_and_is_empty_work() {
    let mut pool = CommandPoolSeg::new();
    assert!(pool.is_empty());

    pool.push_task(CommandConfig::new("echo", vec!["seg".to_string()]));
    assert!(!pool.is_empty());

    let task = pool.pop_task().expect("expected a task");
    assert_eq!(task.program(), "echo");
    assert!(pool.is_empty());
}

#[test]
fn command_pool_default_execution_mode_is_process() {
    let pool = CommandPool::new();
    assert_eq!(pool.execution_mode(), ExecutionMode::Process);
}

#[test]
fn command_pool_can_use_thread_mode() {
    let config = ExecutionConfig::new().with_mode(ExecutionMode::Thread);
    let pool = CommandPool::with_config(config);
    assert_eq!(pool.execution_mode(), ExecutionMode::Thread);
}

#[test]
fn execution_mode_thread_and_process_are_different() {
    assert_ne!(ExecutionMode::Thread, ExecutionMode::Process);
}

#[test]
fn execution_config_builder_pattern() {
    let config = ExecutionConfig::new()
        .with_mode(ExecutionMode::Thread)
        .with_workers(8);

    assert_eq!(config.mode, ExecutionMode::Thread);
    assert_eq!(config.workers, 8);
}

#[test]
fn command_pool_can_use_process_pool_mode() {
    let config = ExecutionConfig::new().with_mode(ExecutionMode::ProcessPool);
    let pool = CommandPool::with_config(config);
    assert_eq!(pool.execution_mode(), ExecutionMode::ProcessPool);
}

#[test]
fn all_execution_modes_are_different() {
    assert_ne!(ExecutionMode::Process, ExecutionMode::Thread);
    assert_ne!(ExecutionMode::Process, ExecutionMode::ProcessPool);
    assert_ne!(ExecutionMode::Thread, ExecutionMode::ProcessPool);
}

#[test]
fn execution_config_can_create_all_modes() {
    let process_config = ExecutionConfig::new().with_mode(ExecutionMode::Process);
    assert_eq!(process_config.mode, ExecutionMode::Process);

    let thread_config = ExecutionConfig::new().with_mode(ExecutionMode::Thread);
    assert_eq!(thread_config.mode, ExecutionMode::Thread);

    let pool_config = ExecutionConfig::new().with_mode(ExecutionMode::ProcessPool);
    assert_eq!(pool_config.mode, ExecutionMode::ProcessPool);
}

#[test]
fn command_pool_with_queue_limit() {
    let config = ExecutionConfig::new();
    let mut pool = CommandPool::with_config_and_limit(config, 2);

    assert_eq!(pool.max_size(), Some(2));
    assert_eq!(pool.len(), 0);

    pool.push_task(CommandConfig::new("echo", vec!["1".to_string()]));
    assert_eq!(pool.len(), 1);

    pool.push_task(CommandConfig::new("echo", vec!["2".to_string()]));
    assert_eq!(pool.len(), 2);

    let result = pool.try_push_task(CommandConfig::new("echo", vec!["3".to_string()]));
    assert!(result.is_err());
}

#[test]
fn command_pool_without_queue_limit() {
    let mut pool = CommandPool::new();

    assert_eq!(pool.max_size(), None);

    for i in 0..100 {
        pool.push_task(CommandConfig::new("echo", vec![i.to_string()]));
    }

    assert_eq!(pool.len(), 100);
}

#[test]
fn execution_config_defaults() {
    let config = ExecutionConfig::new();
    assert_eq!(config.mode, ExecutionMode::Process);
    assert_eq!(config.workers, 4);
    assert_eq!(config.concurrency_limit, None);
    assert_eq!(ExecutionMode::default(), ExecutionMode::Process);

    let limited = ExecutionConfig::default().with_concurrency_limit(2);
    assert_eq!(limited.concurrency_limit, Some(2));
    assert_eq!(limited.workers, 4);
}

#[test]
fn queue_is_first_in_first_out() {
    let mut pool = CommandPool::new();
    pool.push_task(echo("A"));
    pool.push_task(echo("B"));
    pool.push_task(echo("C"));

    assert_eq!(first_arg(&pool.pop_task().expect("first")), "A");
    assert_eq!(first_arg(&pool.pop_task().expect("second")), "B");
    assert_eq!(first_arg(&pool.pop_task().expect("third")), "C");
    assert!(pool.pop_task().is_none());
}

#[test]
fn seg_queue_is_first_in_first_out() {
    let mut pool = CommandPoolSeg::new();
    pool.push_task(echo("A"));
    pool.push_task(echo("B"));
    pool.push_task(echo("C"));

    assert_eq!(first_arg(&pool.pop_task().expect("first")), "A");
    assert_eq!(first_arg(&pool.pop_task().expect("second")), "B");
    assert_eq!(first_arg(&pool.pop_task().expect("third")), "C");
    assert!(pool.pop_task().is_none());
    assert!(pool.is_empty());
}

#[test]
fn seg_queue_keeps_order_across_many_segments() {
    let mut pool = CommandPoolSeg::new();
    for i in 0..100 {
        pool.push_task(echo(&i.to_string()));
    }
    for i in 0..100 {
        let task = pool.pop_task().expect("a task");
        assert_eq!(first_arg(&task), i.to_string());
    }
    assert!(pool.pop_task().is_none());
}

#[test]
fn full_queue_hands_the_task_back_and_takes_it_after_a_pop() {
    let mut pool = CommandPool::with_config_and_limit(ExecutionConfig::new(), 2);
    assert!(matches!(pool.push_task(echo("1")), PushOutcome::Queued));
    assert!(matches!(pool.push_task(echo("2")), PushOutcome::Queued));

    let third = match pool.push_task(echo("3")) {
        PushOutcome::Full(task) => task,
        PushOutcome::Queued => panic!("a full queue took a task"),
    };
    assert_eq!(first_arg(&third), "3");
    assert_eq!(pool.len(), 2);

    let popped = pool.pop_task().expect("a task");
    assert_eq!(first_arg(&popped), "1");

    assert!(matches!(pool.push_task(third), PushOutcome::Queued));
    assert_eq!(pool.len(), 2);
    assert_eq!(first_arg(&pool.pop_task().expect("a task")), "2");
    assert_eq!(first_arg(&pool.pop_task().expect("a task")), "3");
}

#[test]
fn try_push_on_full_queue_is_a_would_block_error() {
    let mut pool = CommandPool::with_config_and_limit(ExecutionConfig::new(), 1);
    assert!(pool.try_push_task(echo("1")).is_ok());

    match pool.try_push_task(echo("2")) {
        Err(ExecuteError::Io(failure)) => {
            assert_eq!(failure.kind, IoErrorKind::WouldBlock);
            assert_eq!(failure.message, "task queue is full");
        }
        other => panic!("expected an I/O error, got {:?}", other),
    }
    assert_eq!(pool.len(), 1);
}

#[test]
fn queue_of_limit_zero_takes_nothing() {
    let mut pool = CommandPool::with_config_and_limit(ExecutionConfig::new(), 0);
    assert!(matches!(pool.push_task(echo("1")), PushOutcome::Full(_)));
    assert!(pool.try_push_task(echo("1")).is_err());
    assert_eq!(pool.try_push_tasks_batch(vec![echo("1"), echo("2")]), 0);
    assert!(pool.is_empty());
}

#[test]
fn popping_an_empty_queue_is_idempotent() {
    let mut pool = CommandPool::new();
    for _ in 0..10 {
        assert!(pool.pop_task().is_none());
        assert!(pool.is_empty());
        assert_eq!(pool.len(), 0);
    }
    pool.push_task(echo("later"));
    assert_eq!(pool.len(), 1);

    let mut seg = CommandPoolSeg::new();
    for _ in 0..10 {
        assert!(seg.pop_task().is_none());
        assert!(seg.is_empty());
    }
}

#[test]
fn clear_drops_everything_and_counts_it() {
    let mut pool = CommandPool::new();
    assert_eq!(pool.clear(), 0);
    pool.push_task(echo("1"));
    pool.push_task(echo("2"));
    pool.push_task(echo("3"));
    assert_eq!(pool.clear(), 3);
    assert!(pool.is_empty());
    assert!(pool.pop_task().is_none());
}

#[test]
fn batch_push_queues_what_fits_and_hands_back_the_rest() {
    let mut pool = CommandPool::with_config_and_limit(ExecutionConfig::new(), 3);
    pool.push_task(echo("0"));

    let BatchOutcome { queued, waiting } =
        pool.push_tasks_batch(vec![echo("1"), echo("2"), echo("3"), echo("4")]);
    assert_eq!(queued, 2);
    assert_eq!(waiting.len(), 2);
    assert_eq!(first_arg(&waiting[0]), "3");
    assert_eq!(first_arg(&waiting[1]), "4");
    assert_eq!(pool.len(), 3);

    assert_eq!(first_arg(&pool.pop_task().expect("a task")), "0");
    let BatchOutcome { queued, waiting } = pool.push_tasks_batch(waiting);
    assert_eq!(queued, 1);
    assert_eq!(waiting.len(), 1);
    assert_eq!(first_arg(&waiting[0]), "4");

    assert_eq!(first_arg(&pool.pop_task().expect("a task")), "1");
    assert_eq!(first_arg(&pool.pop_task().expect("a task")), "2");
    assert_eq!(first_arg(&pool.pop_task().expect("a task")), "3");
    assert!(pool.pop_task().is_none());
}

#[test]
fn batch_push_without_limit_queues_everything() {
    let mut pool = CommandPool::new();
    let outcome = pool.push_tasks_batch(vec![echo("1"), echo("2"), echo("3")]);
    assert_eq!(outcome.queued, 3);
    assert!(outcome.waiting.is_empty());
    assert_eq!(pool.len(), 3);
    assert_eq!(first_arg(&pool.pop_task().expect("a task")), "1");
}

#[test]
fn try_batch_push_drops_what_does_not_fit() {
    let mut pool = CommandPool::with_config_and_limit(ExecutionConfig::new(), 2);
    assert_eq!(pool.try_push_tasks_batch(vec![echo("1"), echo("2"), echo("3")]), 2);
    assert_eq!(pool.len(), 2);
    assert_eq!(pool.try_push_tasks_batch(vec![echo("4")]), 0);
    assert_eq!(first_arg(&pool.pop_task().expect("a task")), "1");
    assert_eq!(first_arg(&pool.pop_task().expect("a task")), "2");
    assert_eq!(pool.try_push_tasks_batch(Vec::new()), 0);
}

#[test]
fn starting_twice_is_a_no_op_and_stop_joins_the_launched() {
    let config = ExecutionConfig::new().with_workers(3).with_concurrency_limit(2);
    let mut pool = CommandPool::with_config(config);
    assert!(!pool.is_running());

    let plan = pool.start_executor(Duration::from_millis(50)).expect("a plan");
    assert_eq!(plan.workers, 3);
    assert_eq!(plan.interval, Duration::from_millis(50));
    assert_eq!(plan.executor, ExecutorChoice::Backend(BackendType::Process));
    assert_eq!(plan.concurrency_limit, Some(2));
    assert!(pool.is_running());

    assert!(pool.start_executor(Duration::from_millis(50)).is_none());
    assert!(pool.start_with_executor(Duration::from_millis(50)).is_none());
    assert!(pool.is_running());

    assert_eq!(pool.stop(), 3);
    assert!(!pool.is_running());
    assert_eq!(pool.stop(), 0);

    let again = pool.start_with_executor(Duration::from_millis(10)).expect("a plan");
    assert_eq!(again.executor, ExecutorChoice::Custom);
    assert_eq!(again.workers, 3);
    assert_eq!(pool.stop(), 3);
}

#[test]
fn start_with_given_workers_and_limit() {
    let mut pool = CommandPool::with_config(ExecutionConfig::new().with_mode(ExecutionMode::Thread));
    let plan = pool
        .start_executor_with_workers_and_limit(Duration::from_millis(1), 4, 2)
        .expect("a plan");
    assert_eq!(plan.workers, 4);
    assert_eq!(plan.concurrency_limit, Some(2));
    assert_eq!(plan.executor, ExecutorChoice::Backend(BackendType::ThreadPool));
    assert_eq!(pool.stop(), 4);

    let plan = pool
        .start_executor_with_workers(Duration::from_millis(1), 7)
        .expect("a plan");
    assert_eq!(plan.workers, 7);
    assert_eq!(plan.concurrency_limit, None);
    assert_eq!(pool.stop(), 7);
}

#[test]
fn worker_drains_the_queue_then_sleeps_and_exits_when_stopped() {
    let mut pool = CommandPool::new();
    pool.push_task(echo("1"));
    pool.push_task(echo("2"));

    assert!(matches!(pool.next_action(), WorkerAction::Exit));
    assert_eq!(pool.len(), 2);

    pool.start_executor(Duration::from_millis(5));
    match pool.next_action() {
        WorkerAction::Execute(task) => assert_eq!(first_arg(&task), "1"),
        other => panic!("expected a task, got {:?}", other),
    }
    match pool.next_action() {
        WorkerAction::Execute(task) => assert_eq!(first_arg(&task), "2"),
        other => panic!("expected a task, got {:?}", other),
    }
    assert!(matches!(pool.next_action(), WorkerAction::Sleep));
    assert!(matches!(pool.next_action(), WorkerAction::Sleep));

    pool.push_task(echo("3"));
    pool.stop();
    assert!(matches!(pool.next_action(), WorkerAction::Exit));
    assert_eq!(pool.len(), 1);
}

#[test]
fn seg_worker_executes_or_sleeps() {
    let mut pool = CommandPoolSeg::new();
    assert!(matches!(pool.next_action(), WorkerAction::Sleep));
    pool.push_task(echo("1"));
    match pool.next_action() {
        WorkerAction::Execute(task) => assert_eq!(first_arg(&task), "1"),
        other => panic!("expected a task, got {:?}", other),
    }
    assert!(matches!(pool.next_action(), WorkerAction::Sleep));
}

#[test]
fn seg_launch_plans() {
    let pool = CommandPoolSeg::new();
    let interval = Duration::from_millis(20);

    let plan = pool.start_executor(interval);
    assert_eq!(plan.workers, 4);
    assert_eq!(plan.executor, ExecutorChoice::Backend(BackendType::Process));
    assert_eq!(plan.concurrency_limit, None);
    assert_eq!(plan.interval, interval);

    let plan = pool.start_executor_with_workers(interval, 6);
    assert_eq!(plan.workers, 6);
    assert_eq!(plan.concurrency_limit, None);

    let plan = pool.start_executor_with_workers_and_limit(interval, 6, 2);
    assert_eq!(plan.workers, 6);
    assert_eq!(plan.concurrency_limit, Some(2));
    assert_eq!(plan.executor, ExecutorChoice::Backend(BackendType::Process));

    let plan = pool.start_executor_with_executor(interval);
    assert_eq!(plan.workers, 4);
    assert_eq!(plan.executor, ExecutorChoice::Custom);

    let plan = pool.start_executor_with_workers_and_executor(interval, 5);
    assert_eq!(plan.workers, 5);
    assert_eq!(plan.executor, ExecutorChoice::Custom);
    assert_eq!(plan.concurrency_limit, None);

    let plan = pool.start_executor_with_executor_and_limit(interval, 5, 3);
    assert_eq!(plan.workers, 5);
    assert_eq!(plan.executor, ExecutorChoice::Custom);
    assert_eq!(plan.concurrency_limit, Some(3));
}

#[test]
fn execute_task_goes_by_the_mode() {
    let task = echo("x");

    let pool = CommandPool::new();
    match pool.execute_task(&task) {
        Dispatch::Process { run: _, action } => assert!(matches!(action, ProcessAction::Spawn)),
        Dispatch::Resident => panic!("process mode handed a task to the resident pool"),
    }

    let pool = CommandPool::with_config(ExecutionConfig::new().with_mode(ExecutionMode::Thread));
    assert!(matches!(pool.execute_task(&task), Dispatch::Process { .. }));

    let pool =
        CommandPool::with_config(ExecutionConfig::new().with_mode(ExecutionMode::ProcessPool));
    assert!(matches!(pool.execute_task(&task), Dispatch::Resident));
}
