//! Execution backends: the strategies by which a task reaches a process.
//!
//! A backend does not run anything itself.  Asked to execute a task, it
//! answers with a [`Dispatch`]: either the first step of a process run, or
//! the instruction to hand the task to the resident worker pool.

use crate::config::CommandConfig;
use crate::error::ExecuteError;
use crate::execution_mode::DEFAULT_WORKERS;
use crate::executor::{execute_command, ProcessAction, ProcessPhase, ProcessRun};
use crate::output::ProcessOutput;
use vstd::prelude::*;

verus! {

/// The capability to execute tasks from beginning to end, with hooks for
/// what a strategy has to set up before and tear down after.  Callers
/// implement it to plug in a strategy of their own; from where the caller
/// stands a call of `execute` returns when the task is over, whatever the
/// strategy.
pub trait ExecutionBackend {
    /// Executes one command and returns what came of it.
    fn execute(&self, config: &CommandConfig) -> Result<ProcessOutput, ExecuteError>;

    /// The name of the backend.
    fn name(&self) -> &'static str;

    /// Sets up what the backend needs.  Most backends need nothing.
    fn start(&self) -> Result<(), ExecuteError>;

    /// Tears down what the backend has set up.
    fn stop(&self) -> Result<(), ExecuteError>;
}

/// The kinds of backend.
#[derive(Debug, Clone, Copy, PartialEq, Eq, Structural)]
pub enum BackendType {
    /// One process per task.
    Process,
    /// One process per task, started from the pool's own worker threads.
    ThreadPool,
    /// Resident worker processes that are reused from task to task.
    ProcessPool,
    /// One process per task, run in the calling thread.
    Inline,
}

impl Default for BackendType {
    fn default() -> (backend_type: Self)
        ensures
            backend_type == BackendType::Process,
    {
        BackendType::Process
    }
}

/// The settings of a backend.
#[derive(Debug, Clone, Copy)]
pub struct BackendConfig {
    /// The kind of backend.
    pub backend_type: BackendType,
    /// The number of worker threads.
    pub workers: usize,
    /// The number of resident worker processes; only a process pool reads
    /// it.
    pub pool_size: Option<usize>,
    /// The largest number of tasks that run at the same time, if limited.
    pub concurrency_limit: Option<usize>,
}

impl BackendConfig {
    /// One process per task, [`DEFAULT_WORKERS`] workers, nothing else set.
    pub fn new() -> (config: Self)
        ensures
            config == (BackendConfig {
                backend_type: BackendType::Process,
                workers: DEFAULT_WORKERS,
                pool_size: None,
                concurrency_limit: None,
            }),
    {
        BackendConfig {
            backend_type: BackendType::Process,
            workers: DEFAULT_WORKERS,
            pool_size: None,
            concurrency_limit: None,
        }
    }

    /// The same settings for another kind of backend.
    pub fn with_backend_type(self, backend_type: BackendType) -> (config: Self)
        ensures
            config == (BackendConfig { backend_type, ..self }),
    {
        BackendConfig {
            backend_type,
            workers: self.workers,
            pool_size: self.pool_size,
            concurrency_limit: self.concurrency_limit,
        }
    }

    /// The same settings with the given number of workers.
    pub fn with_workers(self, workers: usize) -> (config: Self)
        ensures
            config == (BackendConfig { workers, ..self }),
    {
        BackendConfig {
            backend_type: self.backend_type,
            workers,
            pool_size: self.pool_size,
            concurrency_limit: self.concurrency_limit,
        }
    }

    /// The same settings with `pool_size` resident workers.
    pub fn with_pool_size(self, pool_size: usize) -> (config: Self)
        ensures
            config == (BackendConfig { pool_size: Some(pool_size), ..self }),
    {
        BackendConfig {
            backend_type: self.backend_type,
            workers: self.workers,
            pool_size: Some(pool_size),
            concurrency_limit: self.concurrency_limit,
        }
    }

    /// The same settings with at most `limit` tasks running at the same
    /// time.
    pub fn with_concurrency_limit(self, limit: usize) -> (config: Self)
        ensures
            config == (BackendConfig { concurrency_limit: Some(limit), ..self }),
    {
        BackendConfig {
            backend_type: self.backend_type,
            workers: self.workers,
            pool_size: self.pool_size,
            concurrency_limit: Some(limit),
        }
    }

    /// The number of resident workers that a process pool with these
    /// settings keeps: the pool size if one is set, else the number of
    /// workers.
    pub open spec fn resident_workers(self) -> usize {
        match self.pool_size {
            Some(size) => size,
            None => self.workers,
        }
    }
}

impl Default for BackendConfig {
    fn default() -> (config: Self)
        ensures
            config == (BackendConfig {
                backend_type: BackendType::Process,
                workers: DEFAULT_WORKERS,
                pool_size: None,
                concurrency_limit: None,
            }),
    {
        BackendConfig::new()
    }
}

/// How a task is to be executed.
#[derive(Debug)]
pub enum Dispatch {
    /// As a process of its own: this is the beginning of its run.
    Process { run: ProcessRun, action: ProcessAction },
    /// By a resident worker: hand the task to the resident worker pool.
    Resident,
}

/// Whether `dispatch` begins the run of `config` as a process of its own.
pub open spec fn begins_process(dispatch: Dispatch, config: &CommandConfig) -> bool {
    dispatch matches Dispatch::Process { run, action } && run.phase() == ProcessPhase::Spawning
        && run.timeout() == config@.timeout && action == ProcessAction::Spawn
}

/// The backend that runs each task as a process of its own.
#[derive(Debug, Clone, Copy)]
pub struct ProcessBackend {
    config: BackendConfig,
}

/// The backend that runs each task as a process of its own, started from
/// the pool's worker threads.
#[derive(Debug, Clone, Copy)]
pub struct ThreadPoolBackend {
    config: BackendConfig,
}

/// The backend that hands tasks to resident worker processes.
#[derive(Debug, Clone, Copy)]
pub struct ProcessPoolBackend {
    config: BackendConfig,
}

/// The backend that runs each task as a process in the calling thread.
#[derive(Debug, Clone, Copy)]
pub struct InlineBackend;

impl ProcessBackend {
    /// A process backend with a copy of the given settings.
    pub fn new(config: &BackendConfig) -> (backend: Self)
        ensures
            backend.config() == *config,
    {
        ProcessBackend { config: *config }
    }

    /// The settings the backend was made with.
    pub closed spec fn config(self) -> BackendConfig {
        self.config
    }

    /// The name of the backend.
    pub fn name(&self) -> (name: &'static str)
        ensures
            name@ == "ProcessBackend"@,
    {
        "ProcessBackend"
    }

    /// Begins the run of `config` as a process of its own.
    pub fn execute(&self, config: &CommandConfig) -> (dispatch: Dispatch)
        ensures
            begins_process(dispatch, config),
    {
        let (run, action) = execute_command(config);
        Dispatch::Process { run, action }
    }
}

impl ThreadPoolBackend {
    /// A thread pool backend with a copy of the given settings.
    pub fn new(config: &BackendConfig) -> (backend: Self)
        ensures
            backend.config() == *config,
    {
        ThreadPoolBackend { config: *config }
    }

    /// The settings the backend was made with.
    pub closed spec fn config(self) -> BackendConfig {
        self.config
    }

    /// The name of the backend.
    pub fn name(&self) -> (name: &'static str)
        ensures
            name@ == "ThreadPoolBackend"@,
    {
        "ThreadPoolBackend"
    }

    /// Begins the run of `config` as a process of its own: this backend
    /// differs from the process backend only in the thread that asks.
    pub fn execute(&self, config: &CommandConfig) -> (dispatch: Dispatch)
        ensures
            begins_process(dispatch, config),
    {
        let (run, action) = execute_command(config);
        Dispatch::Process { run, action }
    }
}

impl ProcessPoolBackend {
    /// A process pool backend with a copy of the given settings.
    pub fn new(config: &BackendConfig) -> (backend: Self)
        ensures
            backend.config() == *config,
    {
        ProcessPoolBackend { config: *config }
    }

    /// The settings the backend was made with.
    pub closed spec fn config(self) -> BackendConfig {
        self.config
    }

    /// The name of the backend.
    pub fn name(&self) -> (name: &'static str)
        ensures
            name@ == "ProcessPoolBackend"@,
    {
        "ProcessPoolBackend"
    }

    /// Hands `config` to the resident worker pool.
    pub fn execute(&self, config: &CommandConfig) -> (dispatch: Dispatch)
        ensures
            dispatch is Resident,
    {
        Dispatch::Resident
    }

    /// What starting the backend takes: this many resident workers are to
    /// be spawned.
    pub fn start(&self) -> (residents: usize)
        ensures
            residents == self.config().resident_workers(),
    {
        match self.config.pool_size {
            Some(size) => size,
            None => self.config.workers,
        }
    }
}

impl InlineBackend {
    /// The inline backend.
    pub fn new() -> (backend: Self)
        ensures
            backend == InlineBackend,
    {
        InlineBackend
    }

    /// The name of the backend.
    pub fn name(&self) -> (name: &'static str)
        ensures
            name@ == "InlineBackend"@,
    {
        "InlineBackend"
    }

    /// Begins the run of `config` as a process of its own.
    pub fn execute(&self, config: &CommandConfig) -> (dispatch: Dispatch)
        ensures
            begins_process(dispatch, config),
    {
        let (run, action) = execute_command(config);
        Dispatch::Process { run, action }
    }
}

impl Default for InlineBackend {
    fn default() -> (backend: Self)
        ensures
            backend == InlineBackend,
    {
        InlineBackend
    }
}

/// A backend of one of the four kinds.
#[derive(Debug, Clone, Copy)]
pub enum Backend {
    /// One process per task.
    Process(ProcessBackend),
    /// One process per task, started from the pool's worker threads.
    ThreadPool(ThreadPoolBackend),
    /// Resident worker processes.
    ProcessPool(ProcessPoolBackend),
    /// One process per task, in the calling thread.
    Inline(InlineBackend),
}

impl Backend {
    /// The kind of the backend.
    pub open spec fn kind(self) -> BackendType {
        match self {
            Backend::Process(_) => BackendType::Process,
            Backend::ThreadPool(_) => BackendType::ThreadPool,
            Backend::ProcessPool(_) => BackendType::ProcessPool,
            Backend::Inline(_) => BackendType::Inline,
        }
    }

    /// Whether the backend is of kind `config.backend_type` and, unless it
    /// is the inline backend, which has no settings, was made with
    /// `config`.
    pub open spec fn made_from(self, config: BackendConfig) -> bool {
        &&& self.kind() == config.backend_type
        &&& match self {
            Backend::Process(backend) => backend.config() == config,
            Backend::ThreadPool(backend) => backend.config() == config,
            Backend::ProcessPool(backend) => backend.config() == config,
            Backend::Inline(_) => true,
        }
    }

    /// The kind of the backend.
    pub fn backend_type(&self) -> (kind: BackendType)
        ensures
            kind == self.kind(),
    {
        match self {
            Backend::Process(_) => BackendType::Process,
            Backend::ThreadPool(_) => BackendType::ThreadPool,
            Backend::ProcessPool(_) => BackendType::ProcessPool,
            Backend::Inline(_) => BackendType::Inline,
        }
    }

    /// The name of the backend.
    pub fn name(&self) -> (name: &'static str)
        ensures
            name@ == match self.kind() {
                BackendType::Process => "ProcessBackend"@,
                BackendType::ThreadPool => "ThreadPoolBackend"@,
                BackendType::ProcessPool => "ProcessPoolBackend"@,
                BackendType::Inline => "InlineBackend"@,
            },
    {
        match self {
            Backend::Process(backend) => backend.name(),
            Backend::ThreadPool(backend) => backend.name(),
            Backend::ProcessPool(backend) => backend.name(),
            Backend::Inline(backend) => backend.name(),
        }
    }

    /// How `config` is to be executed: by the resident worker pool if this
    /// is a process pool backend, and as a process of its own otherwise.
    pub fn execute(&self, config: &CommandConfig) -> (dispatch: Dispatch)
        ensures
            self.kind() == BackendType::ProcessPool ==> dispatch is Resident,
            self.kind() != BackendType::ProcessPool ==> begins_process(dispatch, config),
    {
        match self {
            Backend::Process(backend) => backend.execute(config),
            Backend::ThreadPool(backend) => backend.execute(config),
            Backend::ProcessPool(backend) => backend.execute(config),
            Backend::Inline(backend) => backend.execute(config),
        }
    }

    /// What starting the backend takes: the number of resident workers to
    /// spawn, or `None` for a backend that needs nothing set up.
    pub fn start(&self) -> (residents: Option<usize>)
        ensures
            residents == match self {
                Backend::ProcessPool(backend) => Some(backend.config().resident_workers()),
                _ => None,
            },
    {
        match self {
            Backend::ProcessPool(backend) => Some(backend.start()),
            _ => None,
        }
    }

    /// What stopping the backend takes: whether resident workers are to be
    /// torn down.
    pub fn stop(&self) -> (teardown: bool)
        ensures
            teardown == (self.kind() == BackendType::ProcessPool),
    {
        match self {
            Backend::ProcessPool(_) => true,
            _ => false,
        }
    }
}

/// Makes backends from settings.
pub struct BackendFactory;

impl BackendFactory {
    /// The backend of the kind that `config` names, made with `config`.
    pub fn create(config: &BackendConfig) -> (backend: Backend)
        ensures
            backend.made_from(*config),
    {
        match config.backend_type {
            BackendType::Process => Backend::Process(ProcessBackend::new(config)),
            BackendType::ThreadPool => Backend::ThreadPool(ThreadPoolBackend::new(config)),
            BackendType::ProcessPool => Backend::ProcessPool(ProcessPoolBackend::new(config)),
            BackendType::Inline => Backend::Inline(InlineBackend::new()),
        }
    }
}

} // verus!
