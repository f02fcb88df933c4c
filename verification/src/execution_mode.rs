//! How a pool runs its tasks, as its owner chooses it.

use crate::backend::{BackendConfig, BackendType};
use vstd::prelude::*;

verus! {

/// The number of workers of a configuration that was given none.
pub const DEFAULT_WORKERS: usize = 4;

/// The way a pool runs its tasks.
#[derive(Debug, Clone, Copy, PartialEq, Eq, Structural)]
pub enum ExecutionMode {
    /// Worker threads of the pool schedule the tasks; each task is still a
    /// process of its own.
    Thread,
    /// Each task is a process of its own.
    Process,
    /// Tasks are handed to resident worker processes.
    ProcessPool,
}

impl Default for ExecutionMode {
    fn default() -> (mode: Self)
        ensures
            mode == ExecutionMode::Process,
    {
        ExecutionMode::Process
    }
}

/// The settings of a pool: its mode, the number of its worker threads, and
/// how many tasks may run at the same time, if that is limited.
#[derive(Debug, Clone, Copy)]
pub struct ExecutionConfig {
    /// The way tasks are run.
    pub mode: ExecutionMode,
    /// The number of worker threads.
    pub workers: usize,
    /// The largest number of tasks that run at the same time, if limited.
    pub concurrency_limit: Option<usize>,
}

impl ExecutionConfig {
    /// One process per task, [`DEFAULT_WORKERS`] workers, no limit on
    /// concurrency.
    pub fn new() -> (config: Self)
        ensures
            config.mode == ExecutionMode::Process,
            config.workers == DEFAULT_WORKERS,
            config.concurrency_limit is None,
    {
        ExecutionConfig {
            mode: ExecutionMode::Process,
            workers: DEFAULT_WORKERS,
            concurrency_limit: None,
        }
    }

    /// The same settings with the given mode.
    pub fn with_mode(self, mode: ExecutionMode) -> (config: Self)
        ensures
            config == (ExecutionConfig { mode, ..self }),
    {
        ExecutionConfig { mode, workers: self.workers, concurrency_limit: self.concurrency_limit }
    }

    /// The same settings with the given number of workers.
    pub fn with_workers(self, workers: usize) -> (config: Self)
        ensures
            config == (ExecutionConfig { workers, ..self }),
    {
        ExecutionConfig { mode: self.mode, workers, concurrency_limit: self.concurrency_limit }
    }

    /// The same settings with at most `limit` tasks running at the same
    /// time.
    pub fn with_concurrency_limit(self, limit: usize) -> (config: Self)
        ensures
            config == (ExecutionConfig { concurrency_limit: Some(limit), ..self }),
    {
        ExecutionConfig { mode: self.mode, workers: self.workers, concurrency_limit: Some(limit) }
    }

    /// The backend that serves the mode.
    pub open spec fn backend_type(self) -> BackendType {
        match self.mode {
            ExecutionMode::Thread => BackendType::ThreadPool,
            ExecutionMode::Process => BackendType::Process,
            ExecutionMode::ProcessPool => BackendType::ProcessPool,
        }
    }

    /// The settings of the backend that serves these settings: the backend
    /// of the mode, the same workers and limit, and no pool size.
    pub open spec fn backend_settings(self) -> BackendConfig {
        BackendConfig {
            backend_type: self.backend_type(),
            workers: self.workers,
            pool_size: None,
            concurrency_limit: self.concurrency_limit,
        }
    }

    /// The settings of the backend that serves these settings: the backend
    /// of the mode, the same workers and limit, and no pool size.
    pub fn backend_config(&self) -> (config: BackendConfig)
        ensures
            config == self.backend_settings(),
    {
        let backend_type = match self.mode {
            ExecutionMode::Thread => BackendType::ThreadPool,
            ExecutionMode::Process => BackendType::Process,
            ExecutionMode::ProcessPool => BackendType::ProcessPool,
        };
        BackendConfig {
            backend_type,
            workers: self.workers,
            pool_size: None,
            concurrency_limit: self.concurrency_limit,
        }
    }
}

impl Default for ExecutionConfig {
    fn default() -> (config: Self)
        ensures
            config.mode == ExecutionMode::Process,
            config.workers == DEFAULT_WORKERS,
            config.concurrency_limit is None,
    {
        ExecutionConfig::new()
    }
}

} // verus!
