//! The pool: a queue of tasks, and the lifecycle of the workers that drain
//! it.
//!
//! The pool is the state that producers and workers share.  Whoever shares
//! it between threads guards it with a lock; every operation here takes the
//! pool as it is at one instant and never waits.  Where a producer would
//! have to wait for room, the answer says so, and the caller waits and
//! asks again.

use crate::backend::{begins_process, Backend, BackendFactory, BackendType, Dispatch};
use crate::config::CommandConfig;
use crate::error::{ExecuteError, IoErrorKind};
use crate::execution_mode::{ExecutionConfig, ExecutionMode, DEFAULT_WORKERS};
use std::collections::VecDeque;
use std::time::Duration;
use vstd::prelude::*;

verus! {

/// What came of offering a task to a pool.
#[derive(Debug)]
pub enum PushOutcome {
    /// The task is in the queue.
    Queued,
    /// The queue is full.  The task comes back: offer it again once a task
    /// has been popped.
    Full(CommandConfig),
}

/// What came of offering a batch of tasks to a pool.
#[derive(Debug)]
pub struct BatchOutcome {
    /// How many tasks of the batch are in the queue now.
    pub queued: usize,
    /// The tasks that did not fit, in their order.  Offer them again once
    /// tasks have been popped; the batch is through when none is left.
    pub waiting: Vec<CommandConfig>,
}

/// Who executes the tasks that workers take from the queue.
#[derive(Debug, Clone, Copy, PartialEq, Eq, Structural)]
pub enum ExecutorChoice {
    /// The backend of the pool.
    Backend(BackendType),
    /// An executor that the caller supplies.
    Custom,
}

/// What starting a pool takes: the worker threads to launch.
#[derive(Debug, Clone, Copy)]
pub struct LaunchPlan {
    /// The number of worker threads.
    pub workers: usize,
    /// How long a worker sleeps when it finds the queue empty.
    pub interval: Duration,
    /// Who executes the tasks.
    pub executor: ExecutorChoice,
    /// The largest number of tasks that run at the same time, if limited.
    pub concurrency_limit: Option<usize>,
}

/// What a worker does next.
#[derive(Debug)]
pub enum WorkerAction {
    /// Execute the command carried here, which has left the queue, and ask
    /// again whatever comes of it: a failure does not stop the worker.
    /// Where the plan of the launch limits concurrency, hold a permit of
    /// the throttle while the command runs.
    Execute(CommandConfig),
    /// The queue is empty: sleep for the polling interval and ask again.
    Sleep,
    /// The pool is not running: end the thread.
    Exit,
}

/// A queue of tasks with the lifecycle of the workers that drain it.
#[derive(Debug)]
pub struct CommandPool {
    tasks: VecDeque<CommandConfig>,
    config: ExecutionConfig,
    backend: Backend,
    running: bool,
    workers: usize,
    max_size: Option<usize>,
}

impl CommandPool {
    /// What holds of every pool: under a limit, no more tasks wait than the
    /// limit allows; the backend is the one that the settings ask for; and
    /// a pool that does not run has no worker threads.
    pub open spec fn wf(self) -> bool {
        &&& self.limit() matches Some(max) ==> self.queue().len() <= max
        &&& self.backend().made_from(self.settings().backend_settings())
        &&& !self.running() ==> self.launched() == 0
    }

    /// The backend that executes the tasks.
    pub closed spec fn backend(self) -> Backend {
        self.backend
    }

    /// The tasks that wait, oldest first.
    pub closed spec fn queue(self) -> Seq<CommandConfig> {
        self.tasks@
    }

    /// The largest number of tasks that may wait, if limited.
    pub closed spec fn limit(self) -> Option<usize> {
        self.max_size
    }

    /// The settings the pool was made with.
    pub closed spec fn settings(self) -> ExecutionConfig {
        self.config
    }

    /// Whether the workers are meant to run.
    pub closed spec fn running(self) -> bool {
        self.running
    }

    /// The number of worker threads that were launched and not yet joined.
    pub closed spec fn launched(self) -> nat {
        self.workers as nat
    }

    /// Whether no further task fits.
    pub open spec fn is_full(self) -> bool {
        self.limit() matches Some(max) && self.queue().len() >= max
    }

    /// How many further tasks fit, where that is limited.
    pub open spec fn room(self) -> Option<nat> {
        match self.limit() {
            Some(max) => Some((max - self.queue().len()) as nat),
            None => None,
        }
    }

    /// The task that the next pop hands out, if any: the oldest.
    pub open spec fn head(self) -> Option<CommandConfig> {
        if self.queue().len() > 0 {
            Some(self.queue()[0])
        } else {
            None
        }
    }

    /// Whether offering `task` to this pool leaves the pool `after`: with
    /// the task at the tail of the queue if it fits, and unchanged if the
    /// queue is full.
    pub open spec fn push_leads_to(self, task: CommandConfig, after: Self) -> bool {
        &&& self.same_but_queue(after)
        &&& after.queue() == if self.is_full() {
            self.queue()
        } else {
            self.queue().push(task)
        }
    }

    /// Whether popping from this pool leaves the pool `after`: without its
    /// oldest task, and unchanged if no task waits.
    pub open spec fn pop_leads_to(self, after: Self) -> bool {
        &&& self.same_but_queue(after)
        &&& after.queue() == if self.queue().len() > 0 {
            self.queue().drop_first()
        } else {
            self.queue()
        }
    }

    /// Whether the two pools differ in nothing but their queues.
    pub open spec fn same_but_queue(self, other: Self) -> bool {
        &&& self.limit() == other.limit()
        &&& self.settings() == other.settings()
        &&& self.backend() == other.backend()
        &&& self.running() == other.running()
        &&& self.launched() == other.launched()
    }

    /// Whether the two pools differ in nothing but their lifecycle.
    pub open spec fn same_but_lifecycle(self, other: Self) -> bool {
        &&& self.limit() == other.limit()
        &&& self.settings() == other.settings()
        &&& self.backend() == other.backend()
        &&& self.queue() == other.queue()
    }
}

impl CommandPool {
    /// A pool with the default settings, an empty queue without limit, and
    /// no workers running.
    pub fn new() -> (pool: Self)
        ensures
            pool.wf(),
            pool.queue() == Seq::<CommandConfig>::empty(),
            pool.limit() is None,
            pool.settings().mode == ExecutionMode::Process,
            pool.settings().workers == DEFAULT_WORKERS,
            pool.settings().concurrency_limit is None,
            !pool.running(),
            pool.launched() == 0,
    {
        CommandPool::with_config(ExecutionConfig::new())
    }

    /// A pool with the given settings, an empty queue without limit, and no
    /// workers running.
    pub fn with_config(config: ExecutionConfig) -> (pool: Self)
        ensures
            pool.wf(),
            pool.queue() == Seq::<CommandConfig>::empty(),
            pool.limit() is None,
            pool.settings() == config,
            !pool.running(),
            pool.launched() == 0,
    {
        let backend = BackendFactory::create(&config.backend_config());
        CommandPool {
            tasks: VecDeque::new(),
            config,
            backend,
            running: false,
            workers: 0,
            max_size: None,
        }
    }

    /// A pool with the given settings, an empty queue that holds at most
    /// `max_size` tasks, and no workers running.
    pub fn with_config_and_limit(config: ExecutionConfig, max_size: usize) -> (pool: Self)
        ensures
            pool.wf(),
            pool.queue() == Seq::<CommandConfig>::empty(),
            pool.limit() == Some(max_size),
            pool.settings() == config,
            !pool.running(),
            pool.launched() == 0,
    {
        let backend = BackendFactory::create(&config.backend_config());
        CommandPool {
            tasks: VecDeque::new(),
            config,
            backend,
            running: false,
            workers: 0,
            max_size: Some(max_size),
        }
    }

    /// The number of tasks that wait.
    pub fn len(&self) -> (n: usize)
        ensures
            n == self.queue().len(),
    {
        self.tasks.len()
    }

    /// Whether no task waits.
    pub fn is_empty(&self) -> (empty: bool)
        ensures
            empty == (self.queue().len() == 0),
    {
        self.tasks.len() == 0
    }

    /// The largest number of tasks that may wait, if limited.
    pub fn max_size(&self) -> (max: Option<usize>)
        ensures
            max == self.limit(),
    {
        self.max_size
    }

    /// The mode the pool was made with.
    pub fn execution_mode(&self) -> (mode: ExecutionMode)
        ensures
            mode == self.settings().mode,
    {
        self.config.mode
    }

    /// Whether the workers are meant to run.
    pub fn is_running(&self) -> (running: bool)
        ensures
            running == self.running(),
    {
        self.running
    }

    /// Whether no further task fits.
    pub fn at_capacity(&self) -> (full: bool)
        ensures
            full == self.is_full(),
    {
        match self.max_size {
            Some(max) => self.tasks.len() >= max,
            None => false,
        }
    }

    /// Offers a task to the queue.  It goes to the tail if it fits.  If the
    /// queue is full, nothing changes and the task comes back: the caller
    /// waits until a task has been popped and offers it again.
    pub fn push_task(&mut self, task: CommandConfig) -> (outcome: PushOutcome)
        requires
            old(self).wf(),
        ensures
            final(self).wf(),
            old(self).push_leads_to(task, *final(self)),
            outcome == if old(self).is_full() {
                PushOutcome::Full(task)
            } else {
                PushOutcome::Queued
            },
    {
        if self.at_capacity() {
            PushOutcome::Full(task)
        } else {
            self.tasks.push_back(task);
            PushOutcome::Queued
        }
    }

    /// Puts a task at the tail of the queue if it fits.  If the queue is
    /// full, nothing changes, the task is dropped, and the answer is an I/O
    /// error of kind `WouldBlock` that reads "task queue is full".
    pub fn try_push_task(&mut self, task: CommandConfig) -> (result: Result<(), ExecuteError>)
        requires
            old(self).wf(),
        ensures
            final(self).wf(),
            old(self).push_leads_to(task, *final(self)),
            old(self).is_full() ==> (result matches Err(error) && error.is_io(
                IoErrorKind::WouldBlock,
                "task queue is full"@,
            )),
            !old(self).is_full() ==> result is Ok,
    {
        if self.at_capacity() {
            Err(ExecuteError::io(IoErrorKind::WouldBlock, "task queue is full"))
        } else {
            self.tasks.push_back(task);
            Ok(())
        }
    }

    /// Takes the oldest task from the queue, or answers `None` at once if
    /// no task waits.
    pub fn pop_task(&mut self) -> (task: Option<CommandConfig>)
        requires
            old(self).wf(),
        ensures
            final(self).wf(),
            old(self).pop_leads_to(*final(self)),
            task == old(self).head(),
    {
        let task = self.tasks.pop_front();
        assert(task is Some ==> self.tasks@ =~= old(self).tasks@.drop_first());
        task
    }

    /// Drops all tasks that wait and says how many they were.
    pub fn clear(&mut self) -> (dropped: usize)
        requires
            old(self).wf(),
        ensures
            final(self).wf(),
            old(self).same_but_queue(*final(self)),
            dropped == old(self).queue().len(),
            final(self).queue() == Seq::<CommandConfig>::empty(),
    {
        let dropped = self.tasks.len();
        self.tasks.clear();
        dropped
    }
}

impl CommandPool {
    /// How many of `count` offered tasks fit: all of them without a limit,
    /// and as many as there is room for under one.
    pub open spec fn fitting(self, count: nat) -> nat {
        match self.room() {
            Some(room) => if count <= room {
                count
            } else {
                room
            },
            None => count,
        }
    }

    /// Moves the first `fit` tasks of `tasks` to the tail of the queue and
    /// hands back the rest.
    fn enqueue_front(&mut self, tasks: Vec<CommandConfig>, fit: usize) -> (rest: Vec<CommandConfig>)
        requires
            old(self).wf(),
            fit == old(self).fitting(tasks@.len()),
        ensures
            final(self).wf(),
            old(self).same_but_queue(*final(self)),
            final(self).queue() == old(self).queue() + tasks@.take(fit as int),
            rest@ == tasks@.skip(fit as int),
    {
        let mut batch = tasks;
        let rest = batch.split_off(fit);
        let ghost taken = batch@;
        assert(taken =~= tasks@.take(fit as int));
        assert(rest@ =~= tasks@.skip(fit as int));
        let ghost before = self.tasks@;
        assert(self.tasks@ =~= before + taken.take(0));
        for task in it: batch.into_iter()
            invariant
                it.seq() == taken,
                self.tasks@ == before + taken.take(it.index()),
                self.config == old(self).config,
                self.backend == old(self).backend,
                self.running == old(self).running,
                self.workers == old(self).workers,
                self.max_size == old(self).max_size,
        {
            let ghost index = it.index();
            self.tasks.push_back(task);
            assert(self.tasks@ =~= before + taken.take(index + 1));
        }
        assert(taken.take(taken.len() as int) =~= taken);
        rest
    }

    /// The number of the `count` offered tasks that fit.
    fn count_fitting(&self, count: usize) -> (fit: usize)
        requires
            self.wf(),
        ensures
            fit == self.fitting(count as nat),
    {
        match self.max_size {
            Some(max) => {
                let room = max - self.tasks.len();
                if count <= room {
                    count
                } else {
                    room
                }
            },
            None => count,
        }
    }

    /// Offers a batch of tasks to the queue.  As many as fit go to the tail
    /// in their order; the rest come back, in their order, for the caller
    /// to offer again once tasks have been popped.
    pub fn push_tasks_batch(&mut self, tasks: Vec<CommandConfig>) -> (outcome: BatchOutcome)
        requires
            old(self).wf(),
        ensures
            final(self).wf(),
            old(self).same_but_queue(*final(self)),
            outcome.queued == old(self).fitting(tasks@.len()),
            final(self).queue() == old(self).queue() + tasks@.take(outcome.queued as int),
            outcome.waiting@ == tasks@.skip(outcome.queued as int),
    {
        let queued = self.count_fitting(tasks.len());
        let waiting = self.enqueue_front(tasks, queued);
        BatchOutcome { queued, waiting }
    }

    /// Puts as many tasks of a batch as fit at the tail of the queue, in
    /// their order, drops the rest, and says how many went in.
    pub fn try_push_tasks_batch(&mut self, tasks: Vec<CommandConfig>) -> (queued: usize)
        requires
            old(self).wf(),
        ensures
            final(self).wf(),
            old(self).same_but_queue(*final(self)),
            queued == old(self).fitting(tasks@.len()),
            final(self).queue() == old(self).queue() + tasks@.take(queued as int),
    {
        let queued = self.count_fitting(tasks.len());
        let _ = self.enqueue_front(tasks, queued);
        queued
    }
}

impl CommandPool {
    /// Whether starting this pool with `workers` worker threads leaves the
    /// pool `after` and takes `plan`.
    ///
    /// Starting a pool that runs changes nothing and takes nothing.
    /// Starting any other pool makes it run; the plan launches `workers`
    /// threads that poll at `interval`, execute with `executor`, and keep
    /// to the concurrency limit of the settings.
    pub open spec fn start_leads_to(
        self,
        workers: usize,
        interval: Duration,
        executor: ExecutorChoice,
        limit: Option<usize>,
        after: Self,
        plan: Option<LaunchPlan>,
    ) -> bool {
        &&& self.same_but_lifecycle(after)
        &&& if self.running() {
            &&& plan is None
            &&& after.running()
            &&& after.launched() == self.launched()
        } else {
            &&& plan == Some(LaunchPlan { workers, interval, executor, concurrency_limit: limit })
            &&& after.running()
            &&& after.launched() == workers
        }
    }

    /// Starts the pool, if it does not run yet, or asks to.
    fn launch(
        &mut self,
        workers: usize,
        interval: Duration,
        executor: ExecutorChoice,
        limit: Option<usize>,
    ) -> (plan: Option<LaunchPlan>)
        requires
            old(self).wf(),
        ensures
            final(self).wf(),
            old(self).start_leads_to(workers, interval, executor, limit, *final(self), plan),
    {
        if self.running {
            None
        } else {
            self.running = true;
            self.workers = workers;
            Some(LaunchPlan { workers, interval, executor, concurrency_limit: limit })
        }
    }

    /// Starts the workers of the pool: as many as the settings say, which
    /// execute with the backend of the pool and keep to the concurrency
    /// limit of the settings.  Starting a pool that runs is a no-op.
    pub fn start_executor(&mut self, interval: Duration) -> (plan: Option<LaunchPlan>)
        requires
            old(self).wf(),
        ensures
            final(self).wf(),
            old(self).start_leads_to(
                old(self).settings().workers,
                interval,
                ExecutorChoice::Backend(old(self).settings().backend_type()),
                old(self).settings().concurrency_limit,
                *final(self),
                plan,
            ),
    {
        let executor = ExecutorChoice::Backend(self.backend.backend_type());
        self.launch(self.config.workers, interval, executor, self.config.concurrency_limit)
    }

    /// Starts `workers` workers, which execute with the backend of the pool
    /// and keep to the concurrency limit of the settings.  Starting a pool
    /// that runs is a no-op.
    pub fn start_executor_with_workers(&mut self, interval: Duration, workers: usize) -> (plan:
        Option<LaunchPlan>)
        requires
            old(self).wf(),
        ensures
            final(self).wf(),
            old(self).start_leads_to(
                workers,
                interval,
                ExecutorChoice::Backend(old(self).settings().backend_type()),
                old(self).settings().concurrency_limit,
                *final(self),
                plan,
            ),
    {
        let executor = ExecutorChoice::Backend(self.backend.backend_type());
        self.launch(workers, interval, executor, self.config.concurrency_limit)
    }

    /// Starts `workers` workers, which execute with the backend of the pool
    /// and of which at most `limit` execute at the same time.  Starting a
    /// pool that runs is a no-op.
    pub fn start_executor_with_workers_and_limit(
        &mut self,
        interval: Duration,
        workers: usize,
        limit: usize,
    ) -> (plan: Option<LaunchPlan>)
        requires
            old(self).wf(),
        ensures
            final(self).wf(),
            old(self).start_leads_to(
                workers,
                interval,
                ExecutorChoice::Backend(old(self).settings().backend_type()),
                Some(limit),
                *final(self),
                plan,
            ),
    {
        let executor = ExecutorChoice::Backend(self.backend.backend_type());
        self.launch(workers, interval, executor, Some(limit))
    }

    /// Starts the workers of the pool as [`CommandPool::start_executor`]
    /// does, but to execute with an executor that the caller supplies.
    pub fn start_with_executor(&mut self, interval: Duration) -> (plan: Option<LaunchPlan>)
        requires
            old(self).wf(),
        ensures
            final(self).wf(),
            old(self).start_leads_to(
                old(self).settings().workers,
                interval,
                ExecutorChoice::Custom,
                old(self).settings().concurrency_limit,
                *final(self),
                plan,
            ),
    {
        self.launch(
            self.config.workers,
            interval,
            ExecutorChoice::Custom,
            self.config.concurrency_limit,
        )
    }

    /// Stops the pool: it no longer runs, and the caller joins the worker
    /// threads that were launched, whose number is the answer.
    pub fn stop(&mut self) -> (to_join: usize)
        requires
            old(self).wf(),
        ensures
            final(self).wf(),
            old(self).same_but_lifecycle(*final(self)),
            !final(self).running(),
            final(self).launched() == 0,
            to_join == old(self).launched(),
    {
        let to_join = self.workers;
        self.running = false;
        self.workers = 0;
        to_join
    }

    /// What a worker does next.  In a pool that does not run it exits.  In
    /// a pool that runs it executes the oldest task, which leaves the
    /// queue; if no task waits it sleeps.
    pub fn next_action(&mut self) -> (action: WorkerAction)
        requires
            old(self).wf(),
        ensures
            final(self).wf(),
            old(self).same_but_queue(*final(self)),
            !old(self).running() ==> action is Exit && final(self).queue() == old(self).queue(),
            old(self).running() ==> old(self).pop_leads_to(*final(self)) && action == match old(
                self,
            ).head() {
                Some(task) => WorkerAction::Execute(task),
                None => WorkerAction::Sleep,
            },
    {
        if !self.running {
            return WorkerAction::Exit;
        }
        match self.pop_task() {
            Some(task) => WorkerAction::Execute(task),
            None => WorkerAction::Sleep,
        }
    }

    /// How `config` is to be executed by the backend of the pool: by the
    /// resident worker pool in process pool mode, and as a process of its
    /// own in every other mode.
    pub fn execute_task(&self, config: &CommandConfig) -> (dispatch: Dispatch)
        requires
            self.wf(),
        ensures
            self.settings().mode == ExecutionMode::ProcessPool ==> dispatch is Resident,
            self.settings().mode != ExecutionMode::ProcessPool ==> begins_process(dispatch, config),
    {
        self.backend.execute(config)
    }
}

impl Default for CommandPool {
    fn default() -> (pool: Self)
        ensures
            pool.wf(),
            pool.queue() == Seq::<CommandConfig>::empty(),
            pool.limit() is None,
            !pool.running(),
    {
        CommandPool::new()
    }
}

/// First in, first out.  Tasks pushed one after the other into an empty
/// queue without limit come out in the order in which they went in, and
/// after the last of them the queue answers that it is empty.
///
/// `filling[i]` is the pool before the push of `tasks[i]`, and
/// `draining[k]` the pool before the pop numbered `k`.
pub proof fn lemma_fifo(
    filling: Seq<CommandPool>,
    tasks: Seq<CommandConfig>,
    draining: Seq<CommandPool>,
)
    requires
        filling.len() == tasks.len() + 1,
        filling[0].queue().len() == 0,
        filling[0].limit() is None,
        forall|i: int|
            0 <= i < tasks.len() ==> (#[trigger] filling[i]).push_leads_to(tasks[i], filling[i + 1]),
        draining.len() == tasks.len() + 2,
        draining[0] == filling.last(),
        forall|k: int| 0 <= k <= tasks.len() ==> (#[trigger] draining[k]).pop_leads_to(draining[k + 1]),
    ensures
        forall|k: int| 0 <= k < tasks.len() ==> (#[trigger] draining[k]).head() == Some(tasks[k]),
        draining[tasks.len() as int].head() is None,
{
    let n = tasks.len() as int;
    assert forall|i: int| 0 <= i <= n implies (#[trigger] filling[i]).queue() == tasks.take(i)
        && filling[i].limit() is None by {
        lemma_filled(filling, tasks, i);
    }
    assert(tasks.take(n) =~= tasks);
    assert forall|k: int| 0 <= k <= n + 1 implies (#[trigger] draining[k]).queue() == tasks.skip(
        if k <= n {
            k
        } else {
            n
        },
    ) by {
        lemma_drained(draining, tasks, k);
    }
}

/// After `i` pushes into an empty queue without limit, the queue holds the
/// first `i` tasks.
proof fn lemma_filled(filling: Seq<CommandPool>, tasks: Seq<CommandConfig>, i: int)
    requires
        filling.len() == tasks.len() + 1,
        filling[0].queue().len() == 0,
        filling[0].limit() is None,
        forall|j: int|
            0 <= j < tasks.len() ==> (#[trigger] filling[j]).push_leads_to(tasks[j], filling[j + 1]),
        0 <= i <= tasks.len(),
    ensures
        filling[i].queue() == tasks.take(i),
        filling[i].limit() is None,
    decreases i,
{
    if i == 0 {
        assert(filling[0].queue() =~= tasks.take(0));
    } else {
        lemma_filled(filling, tasks, i - 1);
        assert(filling[i - 1].push_leads_to(tasks[i - 1], filling[i]));
        assert(tasks.take(i - 1).push(tasks[i - 1]) =~= tasks.take(i));
    }
}

/// After `k` pops from a queue that holds `tasks`, the queue holds all but
/// the first `k` of them, and nothing once they are all gone.
proof fn lemma_drained(draining: Seq<CommandPool>, tasks: Seq<CommandConfig>, k: int)
    requires
        draining.len() == tasks.len() + 2,
        draining[0].queue() == tasks,
        forall|j: int| 0 <= j <= tasks.len() ==> (#[trigger] draining[j]).pop_leads_to(draining[j + 1]),
        0 <= k <= tasks.len() + 1,
    ensures
        draining[k].queue() == tasks.skip(
            if k <= tasks.len() {
                k
            } else {
                tasks.len() as int
            },
        ),
    decreases k,
{
    if k == 0 {
        assert(tasks.skip(0) =~= tasks);
    } else {
        lemma_drained(draining, tasks, k - 1);
        assert(draining[k - 1].pop_leads_to(draining[k]));
        if k <= tasks.len() {
            assert(tasks.skip(k - 1).drop_first() =~= tasks.skip(k));
        }
    }
}

/// Backpressure.  A full queue takes no further task: the offer leaves it
/// as it is.  Once a task has been popped from it, the same offer is
/// taken, and the task stands at the tail.
pub proof fn lemma_backpressure(
    full: CommandPool,
    task: CommandConfig,
    refused: CommandPool,
    popped: CommandPool,
    accepted: CommandPool,
)
    requires
        full.wf(),
        full.is_full(),
        full.queue().len() > 0,
        full.push_leads_to(task, refused),
        full.pop_leads_to(popped),
        popped.push_leads_to(task, accepted),
    ensures
        refused.queue() == full.queue(),
        !popped.is_full(),
        accepted.queue() == full.queue().drop_first().push(task),
{
}

/// A bounded queue never holds more tasks than its limit, whatever is
/// offered: offers beyond the limit are the ones that are refused.
pub proof fn lemma_limit_holds(before: CommandPool, task: CommandConfig, after: CommandPool)
    requires
        before.wf(),
        before.push_leads_to(task, after),
    ensures
        after.limit() matches Some(max) ==> after.queue().len() <= max,
        after.queue().len() == before.queue().len() + 1 <==> !before.is_full(),
{
}

/// Popping an empty queue changes nothing, however often it is done:
/// every pop answers that the queue is empty and leaves it empty.
///
/// `pops[k]` is the pool before the pop numbered `k`.
pub proof fn lemma_pop_empty_is_idempotent(pops: Seq<CommandPool>, k: int)
    requires
        pops.len() >= 1,
        pops[0].queue().len() == 0,
        forall|j: int| 0 <= j < pops.len() - 1 ==> (#[trigger] pops[j]).pop_leads_to(pops[j + 1]),
        0 <= k < pops.len(),
    ensures
        pops[k].head() is None,
        pops[k].queue() == pops[0].queue(),
        pops[0].same_but_queue(pops[k]),
    decreases k,
{
    if k > 0 {
        lemma_pop_empty_is_idempotent(pops, k - 1);
        assert(pops[k - 1].pop_leads_to(pops[k]));
    }
}

} // verus!
