//! The pool on a segmented queue: the same queue discipline as
//! [`CommandPool`](crate::pool::CommandPool), without a limit and without a
//! lifecycle, on the queue of `crossbeam_queue`.
//!
//! The operations here take the pool exclusively.  With the pool to itself
//! a caller sees strict first in, first out; when several producers share
//! the underlying queue by other means, only the order of each producer's
//! own tasks is kept.

use crate::backend::BackendType;
use crate::config::CommandConfig;
use crate::execution_mode::DEFAULT_WORKERS;
use crate::pool::{ExecutorChoice, LaunchPlan, WorkerAction};
use crossbeam_queue::SegQueue;
use std::time::Duration;
use vstd::prelude::*;

verus! {

/// `crossbeam_queue::SegQueue`, the unbounded queue made of segments.
/// What is inside one is known only through [`seg_queue_tasks`].
#[verifier::external_type_specification]
#[verifier::external_body]
#[verifier::reject_recursive_types(T)]
pub struct ExSegQueue<T>(SegQueue<T>);

/// The tasks that a segmented queue holds, from its head to its tail.
pub uninterp spec fn seg_queue_tasks(queue: SegQueue<CommandConfig>) -> Seq<CommandConfig>;

/// `SegQueue::new` makes a queue that holds nothing.
#[verifier::external_body]
fn seg_queue_new() -> (queue: SegQueue<CommandConfig>)
    ensures
        seg_queue_tasks(queue) == Seq::<CommandConfig>::empty(),
{
    SegQueue::new()
}

/// `SegQueue::push` puts the value at the tail of the queue.  Called by
/// the only holder of the queue, it changes nothing else.
#[verifier::external_body]
fn seg_queue_push(queue: &mut SegQueue<CommandConfig>, task: CommandConfig)
    ensures
        seg_queue_tasks(*final(queue)) == seg_queue_tasks(*old(queue)).push(task),
{
    queue.push(task)
}

/// `SegQueue::pop` takes the value at the head of the queue, and returns
/// `None` and changes nothing if the queue holds nothing.
#[verifier::external_body]
fn seg_queue_pop(queue: &mut SegQueue<CommandConfig>) -> (task: Option<CommandConfig>)
    ensures
        seg_queue_tasks(*old(queue)).len() == 0 ==> task is None && seg_queue_tasks(*final(queue))
            == seg_queue_tasks(*old(queue)),
        seg_queue_tasks(*old(queue)).len() > 0 ==> task == Some(seg_queue_tasks(*old(queue))[0])
            && seg_queue_tasks(*final(queue)) == seg_queue_tasks(*old(queue)).drop_first(),
{
    queue.pop()
}

/// `SegQueue::is_empty` says whether the queue holds nothing.
#[verifier::external_body]
fn seg_queue_is_empty(queue: &SegQueue<CommandConfig>) -> (empty: bool)
    ensures
        empty == (seg_queue_tasks(*queue).len() == 0),
{
    queue.is_empty()
}

/// A queue of tasks without limit, on a segmented queue.
pub struct CommandPoolSeg {
    tasks: SegQueue<CommandConfig>,
}

impl CommandPoolSeg {
    /// The tasks that wait, oldest first.
    pub closed spec fn queue(self) -> Seq<CommandConfig> {
        seg_queue_tasks(self.tasks)
    }

    /// The task that the next pop hands out, if any: the oldest.
    pub open spec fn head(self) -> Option<CommandConfig> {
        if self.queue().len() > 0 {
            Some(self.queue()[0])
        } else {
            None
        }
    }

    /// Whether popping from this pool leaves the pool `after`: without its
    /// oldest task, and unchanged if no task waits.
    pub open spec fn pop_leads_to(self, after: Self) -> bool {
        after.queue() == if self.queue().len() > 0 {
            self.queue().drop_first()
        } else {
            self.queue()
        }
    }

    /// A pool in which no task waits.
    pub fn new() -> (pool: Self)
        ensures
            pool.queue() == Seq::<CommandConfig>::empty(),
    {
        CommandPoolSeg { tasks: seg_queue_new() }
    }

    /// Puts a task at the tail of the queue.  There is always room.
    pub fn push_task(&mut self, task: CommandConfig)
        ensures
            final(self).queue() == old(self).queue().push(task),
    {
        seg_queue_push(&mut self.tasks, task);
    }

    /// Takes the oldest task from the queue, or answers `None` at once if
    /// no task waits.
    pub fn pop_task(&mut self) -> (task: Option<CommandConfig>)
        ensures
            old(self).pop_leads_to(*final(self)),
            task == old(self).head(),
    {
        seg_queue_pop(&mut self.tasks)
    }

    /// Whether no task waits.
    pub fn is_empty(&self) -> (empty: bool)
        ensures
            empty == (self.queue().len() == 0),
    {
        seg_queue_is_empty(&self.tasks)
    }

    /// What a worker does next: it executes the oldest task, which leaves
    /// the queue, and sleeps if no task waits.  Workers of this pool never
    /// exit.
    pub fn next_action(&mut self) -> (action: WorkerAction)
        ensures
            old(self).pop_leads_to(*final(self)),
            action == match old(self).head() {
                Some(task) => WorkerAction::Execute(task),
                None => WorkerAction::Sleep,
            },
    {
        match self.pop_task() {
            Some(task) => WorkerAction::Execute(task),
            None => WorkerAction::Sleep,
        }
    }

    /// The plan for [`DEFAULT_WORKERS`] workers that execute each task as a
    /// process of its own, without limit on concurrency.
    pub fn start_executor(&self, interval: Duration) -> (plan: LaunchPlan)
        ensures
            plan == (LaunchPlan {
                workers: DEFAULT_WORKERS,
                interval,
                executor: ExecutorChoice::Backend(BackendType::Process),
                concurrency_limit: None,
            }),
    {
        self.start_executor_with_workers(interval, DEFAULT_WORKERS)
    }

    /// The plan for `workers` workers that execute each task as a process
    /// of its own, without limit on concurrency.
    pub fn start_executor_with_workers(&self, interval: Duration, workers: usize) -> (plan:
        LaunchPlan)
        ensures
            plan == (LaunchPlan {
                workers,
                interval,
                executor: ExecutorChoice::Backend(BackendType::Process),
                concurrency_limit: None,
            }),
    {
        LaunchPlan {
            workers,
            interval,
            executor: ExecutorChoice::Backend(BackendType::Process),
            concurrency_limit: None,
        }
    }

    /// The plan for `workers` workers that execute each task as a process
    /// of its own, at most `limit` of them at the same time.
    pub fn start_executor_with_workers_and_limit(
        &self,
        interval: Duration,
        workers: usize,
        limit: usize,
    ) -> (plan: LaunchPlan)
        ensures
            plan == (LaunchPlan {
                workers,
                interval,
                executor: ExecutorChoice::Backend(BackendType::Process),
                concurrency_limit: Some(limit),
            }),
    {
        LaunchPlan {
            workers,
            interval,
            executor: ExecutorChoice::Backend(BackendType::Process),
            concurrency_limit: Some(limit),
        }
    }

    /// The plan for [`DEFAULT_WORKERS`] workers that execute with an
    /// executor that the caller supplies.
    pub fn start_executor_with_executor(&self, interval: Duration) -> (plan: LaunchPlan)
        ensures
            plan == (LaunchPlan {
                workers: DEFAULT_WORKERS,
                interval,
                executor: ExecutorChoice::Custom,
                concurrency_limit: None,
            }),
    {
        self.start_executor_with_workers_and_executor(interval, DEFAULT_WORKERS)
    }

    /// The plan for `workers` workers that execute with an executor that
    /// the caller supplies.
    pub fn start_executor_with_workers_and_executor(&self, interval: Duration, workers: usize)
        -> (plan: LaunchPlan)
        ensures
            plan == (LaunchPlan {
                workers,
                interval,
                executor: ExecutorChoice::Custom,
                concurrency_limit: None,
            }),
    {
        LaunchPlan { workers, interval, executor: ExecutorChoice::Custom, concurrency_limit: None }
    }

    /// The plan for `workers` workers that execute with an executor that
    /// the caller supplies, at most `limit` of them at the same time.
    pub fn start_executor_with_executor_and_limit(
        &self,
        interval: Duration,
        workers: usize,
        limit: usize,
    ) -> (plan: LaunchPlan)
        ensures
            plan == (LaunchPlan {
                workers,
                interval,
                executor: ExecutorChoice::Custom,
                concurrency_limit: Some(limit),
            }),
    {
        LaunchPlan {
            workers,
            interval,
            executor: ExecutorChoice::Custom,
            concurrency_limit: Some(limit),
        }
    }
}

impl Default for CommandPoolSeg {
    fn default() -> (pool: Self)
        ensures
            pool.queue() == Seq::<CommandConfig>::empty(),
    {
        CommandPoolSeg::new()
    }
}

/// First in, first out, for the pool on a segmented queue: a task pushed
/// behind the tasks that wait comes out after them, and they come out in
/// their order.  After `k` pops of a queue that held `tasks`, the head is
/// `tasks[k]`, and once all are gone every pop answers that the queue is
/// empty.
///
/// `draining[k]` is the pool before the pop numbered `k`.
pub proof fn lemma_seg_fifo(draining: Seq<CommandPoolSeg>, tasks: Seq<CommandConfig>, k: int)
    requires
        draining.len() >= 1,
        draining[0].queue() == tasks,
        forall|j: int|
            0 <= j < draining.len() - 1 ==> (#[trigger] draining[j]).pop_leads_to(draining[j + 1]),
        0 <= k < draining.len(),
    ensures
        k < tasks.len() ==> draining[k].head() == Some(tasks[k]),
        k >= tasks.len() ==> draining[k].head() is None,
        draining[k].queue() == tasks.skip(
            if k <= tasks.len() {
                k
            } else {
                tasks.len() as int
            },
        ),
    decreases k,
{
    if k == 0 {
        assert(tasks.skip(0) =~= tasks);
    } else {
        lemma_seg_fifo(draining, tasks, k - 1);
        assert(draining[k - 1].pop_leads_to(draining[k]));
        if k <= tasks.len() {
            assert(tasks.skip(k - 1).drop_first() =~= tasks.skip(k));
        }
    }
}

} // verus!
