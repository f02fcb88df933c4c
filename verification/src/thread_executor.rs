//! The thread executor: a stack of tasks of any kind for worker threads.
//!
//! Unlike the pools, the thread executor hands out the task that was
//! submitted last.

use crate::backend::BackendType;
use crate::config::CommandConfig;
use crate::error::ExecuteError;
use crate::executor::{execute_command, ProcessAction, ProcessPhase, ProcessRun};
use crate::pool::{ExecutorChoice, LaunchPlan};
use std::time::Duration;
use vstd::prelude::*;

verus! {

/// A task that a worker thread can execute.  Callers implement it for
/// their own kinds of task.
pub trait ThreadTask {
    /// Executes the task.
    fn execute(&self) -> Result<(), ExecuteError>;
}

/// What a worker thread of a thread executor does next.
#[derive(Debug)]
pub enum ThreadAction<T> {
    /// Execute the item carried here, which has left the executor, and ask
    /// again whatever comes of it.
    Run(T),
    /// No task waits: sleep for the polling interval and ask again.
    Sleep,
}

/// Tasks that wait for a fixed number of worker threads.
#[derive(Debug)]
pub struct ThreadExecutor<T> {
    workers: usize,
    tasks: Vec<T>,
}

impl<T> ThreadExecutor<T> {
    /// The tasks that wait, in the order in which they were submitted.
    pub closed spec fn pending(self) -> Seq<T> {
        self.tasks@
    }

    /// The number of worker threads.
    pub closed spec fn worker_count(self) -> usize {
        self.workers
    }

    /// An executor for `workers` worker threads, with no task waiting.
    pub fn new(workers: usize) -> (executor: Self)
        ensures
            executor.worker_count() == workers,
            executor.pending() == Seq::<T>::empty(),
    {
        ThreadExecutor { workers, tasks: Vec::new() }
    }

    /// Adds a task.
    pub fn submit(&mut self, task: T)
        ensures
            final(self).worker_count() == old(self).worker_count(),
            final(self).pending() == old(self).pending().push(task),
    {
        self.tasks.push(task);
    }

    /// The number of worker threads.
    pub fn workers(&self) -> (workers: usize)
        ensures
            workers == self.worker_count(),
    {
        self.workers
    }

    /// The plan for the worker threads of this executor: as many as it was
    /// made for, which execute what they are handed without limit on
    /// concurrency.
    pub fn start(&self, interval: Duration) -> (plan: LaunchPlan)
        ensures
            plan == (LaunchPlan {
                workers: self.worker_count(),
                interval,
                executor: ExecutorChoice::Custom,
                concurrency_limit: None,
            }),
    {
        LaunchPlan {
            workers: self.workers,
            interval,
            executor: ExecutorChoice::Custom,
            concurrency_limit: None,
        }
    }

    /// What a worker thread does next: it executes the task that was
    /// submitted last, which leaves the executor, and sleeps if no task
    /// waits.
    pub fn next_action(&mut self) -> (action: ThreadAction<T>)
        ensures
            final(self).worker_count() == old(self).worker_count(),
            old(self).pending().len() == 0 ==> action is Sleep && final(self).pending() == old(
                self,
            ).pending(),
            old(self).pending().len() > 0 ==> action == ThreadAction::Run(
                old(self).pending().last(),
            ) && final(self).pending() == old(self).pending().drop_last(),
    {
        match self.tasks.pop() {
            Some(task) => {
                assert(self.tasks@ =~= old(self).tasks@.drop_last());
                ThreadAction::Run(task)
            },
            None => ThreadAction::Sleep,
        }
    }
}

/// A command as a task for a thread executor.
#[derive(Debug)]
pub struct CommandTask {
    config: CommandConfig,
}

impl CommandTask {
    /// The command that the task runs.
    pub closed spec fn command(self) -> CommandConfig {
        self.config
    }

    /// The task that runs `config`.
    pub fn new(config: CommandConfig) -> (task: Self)
        ensures
            task.command() == config,
    {
        CommandTask { config }
    }

    /// The command that the task runs.
    pub fn config(&self) -> (config: &CommandConfig)
        ensures
            *config == self.command(),
    {
        &self.config
    }

    /// Begins the run of the command as a process of its own.
    pub fn execute(&self) -> (begin: (ProcessRun, ProcessAction))
        ensures
            begin.0.phase() == ProcessPhase::Spawning,
            begin.0.timeout() == self.command()@.timeout,
            begin.1 == ProcessAction::Spawn,
    {
        execute_command(&self.config)
    }
}

impl Clone for CommandTask {
    fn clone(&self) -> (copy: Self)
        ensures
            copy.command()@ == self.command()@,
    {
        CommandTask { config: self.config.clone() }
    }
}

/// A thread executor for commands.
#[derive(Debug)]
pub struct ThreadModeExecutor {
    executor: ThreadExecutor<CommandTask>,
}

impl ThreadModeExecutor {
    /// The commands that wait, in the order in which they were submitted.
    pub closed spec fn pending(self) -> Seq<CommandTask> {
        self.executor.pending()
    }

    /// The number of worker threads.
    pub closed spec fn worker_count(self) -> usize {
        self.executor.worker_count()
    }

    /// An executor for `workers` worker threads, with no command waiting.
    pub fn new(workers: usize) -> (executor: Self)
        ensures
            executor.worker_count() == workers,
            executor.pending() == Seq::<CommandTask>::empty(),
    {
        ThreadModeExecutor { executor: ThreadExecutor::new(workers) }
    }

    /// The plan for the worker threads of this executor: as many as it was
    /// made for, which run each command as a process of its own, without
    /// limit on concurrency.
    pub fn start(&self, interval: Duration) -> (plan: LaunchPlan)
        ensures
            plan == (LaunchPlan {
                workers: self.worker_count(),
                interval,
                executor: ExecutorChoice::Backend(BackendType::ThreadPool),
                concurrency_limit: None,
            }),
    {
        LaunchPlan {
            workers: self.executor.workers(),
            interval,
            executor: ExecutorChoice::Backend(BackendType::ThreadPool),
            concurrency_limit: None,
        }
    }

    /// Adds a command.
    pub fn submit(&mut self, config: CommandConfig)
        ensures
            final(self).worker_count() == old(self).worker_count(),
            final(self).pending().len() == old(self).pending().len() + 1,
            final(self).pending().drop_last() == old(self).pending(),
            final(self).pending().last().command() == config,
    {
        self.executor.submit(CommandTask::new(config));
        assert(self.executor.pending().drop_last() =~= old(self).executor.pending());
    }

    /// What a worker thread does next: it runs the command that was
    /// submitted last, which leaves the executor, and sleeps if no command
    /// waits.
    pub fn next_action(&mut self) -> (action: ThreadAction<CommandTask>)
        ensures
            final(self).worker_count() == old(self).worker_count(),
            old(self).pending().len() == 0 ==> action is Sleep && final(self).pending() == old(
                self,
            ).pending(),
            old(self).pending().len() > 0 ==> action == ThreadAction::Run(
                old(self).pending().last(),
            ) && final(self).pending() == old(self).pending().drop_last(),
    {
        self.executor.next_action()
    }
}

} // verus!
