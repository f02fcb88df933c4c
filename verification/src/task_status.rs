//! Task numbers and the status of each task.

use std::collections::HashMap;
use vstd::prelude::*;
use vstd::std_specs::hash::{group_hash_axioms, spec_keys_iter};
use vstd::std_specs::iter::IteratorSpec;

verus! {

/// Where a task stands.
#[derive(Debug, Clone, Copy, PartialEq, Eq, Structural)]
pub enum TaskStatus {
    /// In the queue.
    Pending,
    /// Being executed.
    Running,
    /// Executed with success.
    Completed,
    /// Executed without success.
    Failed,
}

impl TaskStatus {
    /// The status in words.
    pub open spec fn text(self) -> Seq<char> {
        match self {
            TaskStatus::Pending => "pending"@,
            TaskStatus::Running => "running"@,
            TaskStatus::Completed => "completed"@,
            TaskStatus::Failed => "failed"@,
        }
    }

    /// The status in words, in lower case.
    pub fn as_str(&self) -> (text: &'static str)
        ensures
            text@ == self.text(),
    {
        match self {
            TaskStatus::Pending => "pending",
            TaskStatus::Running => "running",
            TaskStatus::Completed => "completed",
            TaskStatus::Failed => "failed",
        }
    }

    /// The status in words, in lower case.
    pub fn to_string(&self) -> (text: String)
        ensures
            text@ == self.text(),
    {
        self.as_str().to_owned()
    }
}

/// The number that the first task gets.
pub const FIRST_TASK_ID: u64 = 1;

/// Hands out task numbers: one after the other, starting at one.
#[derive(Debug)]
pub struct TaskIdGenerator {
    counter: u64,
}

impl TaskIdGenerator {
    /// The number that is handed out next.
    pub closed spec fn upcoming(self) -> u64 {
        self.counter
    }

    /// A generator whose first number is [`FIRST_TASK_ID`].
    pub fn new() -> (generator: Self)
        ensures
            generator.upcoming() == FIRST_TASK_ID,
    {
        TaskIdGenerator { counter: FIRST_TASK_ID }
    }

    /// The next number.  The number after it is larger by one; after the
    /// largest number of all, counting starts again at zero.
    pub fn next_id(&mut self) -> (id: u64)
        ensures
            id == old(self).upcoming(),
            final(self).upcoming() == if id == u64::MAX {
                0
            } else {
                (id + 1) as u64
            },
    {
        let id = self.counter;
        self.counter = if id == u64::MAX {
            0
        } else {
            id + 1
        };
        id
    }
}

impl Default for TaskIdGenerator {
    fn default() -> (generator: Self)
        ensures
            generator.upcoming() == FIRST_TASK_ID,
    {
        TaskIdGenerator::new()
    }
}

/// Numbers handed out one after the other differ, as long as the counter
/// does not start again: the number handed out `k` calls after `first`
/// is `first + k`.
///
/// `generators[i]` is the generator before the call numbered `i`.
pub proof fn lemma_ids_are_distinct(generators: Seq<TaskIdGenerator>, i: int, j: int)
    requires
        forall|k: int|
            0 <= k < generators.len() - 1 ==> (#[trigger] generators[k + 1]).upcoming()
                == if generators[k].upcoming() == u64::MAX {
                0
            } else {
                (generators[k].upcoming() + 1) as u64
            },
        0 <= i < j < generators.len(),
        generators[0].upcoming() + j <= u64::MAX,
    ensures
        generators[j].upcoming() == generators[0].upcoming() + j,
        generators[i].upcoming() != generators[j].upcoming(),
{
    lemma_ids_count_up(generators, i);
    lemma_ids_count_up(generators, j);
}

/// The number handed out `k` calls after the first is larger by `k`.
proof fn lemma_ids_count_up(generators: Seq<TaskIdGenerator>, k: int)
    requires
        forall|n: int|
            0 <= n < generators.len() - 1 ==> (#[trigger] generators[n + 1]).upcoming()
                == if generators[n].upcoming() == u64::MAX {
                0
            } else {
                (generators[n].upcoming() + 1) as u64
            },
        0 <= k < generators.len(),
        generators[0].upcoming() + k <= u64::MAX,
    ensures
        generators[k].upcoming() == generators[0].upcoming() + k,
    decreases k,
{
    if k > 0 {
        lemma_ids_count_up(generators, k - 1);
        assert(generators[(k - 1) + 1].upcoming() == generators[k - 1].upcoming() + 1);
    }
}

/// The number of the `ids` that `statuses` maps to `status`.
pub open spec fn count_with_status(
    ids: Seq<u64>,
    statuses: Map<u64, TaskStatus>,
    status: TaskStatus,
) -> nat
    decreases ids.len(),
{
    if ids.len() == 0 {
        0
    } else {
        count_with_status(ids.drop_last(), statuses, status) + if statuses[ids.last()] == status {
            1nat
        } else {
            0nat
        }
    }
}

/// The test whether `statuses` maps a task to `status`.
pub open spec fn has_status(statuses: Map<u64, TaskStatus>, status: TaskStatus) -> spec_fn(
    u64,
) -> bool {
    |id: u64| statuses[id] == status
}

/// The tasks that `statuses` maps to `status`.
pub open spec fn tasks_with_status(statuses: Map<u64, TaskStatus>, status: TaskStatus) -> Set<
    u64,
> {
    statuses.dom().filter(has_status(statuses, status))
}

/// Counting along a list that names every task once counts the tasks.
proof fn lemma_count_is_cardinality(
    ids: Seq<u64>,
    statuses: Map<u64, TaskStatus>,
    status: TaskStatus,
)
    requires
        ids.no_duplicates(),
    ensures
        count_with_status(ids, statuses, status) == ids.to_set().filter(
            has_status(statuses, status),
        ).len(),
        ids.to_set().finite(),
        count_with_status(ids, statuses, status) <= ids.len(),
    decreases ids.len(),
{
    let wanted = has_status(statuses, status);
    vstd::seq_lib::seq_to_set_is_finite(ids);
    if ids.len() == 0 {
        assert(ids.to_set().filter(wanted) =~= Set::<u64>::empty());
    } else {
        let front = ids.drop_last();
        let last = ids.last();
        lemma_count_is_cardinality(front, statuses, status);
        vstd::seq_lib::seq_to_set_is_finite(front);
        assert(!front.to_set().contains(last)) by {
            if front.to_set().contains(last) {
                let i = choose|i: int| 0 <= i < front.len() && front[i] == last;
                assert(ids[i] == ids[ids.len() - 1]);
            }
        }
        assert(ids.to_set() =~= front.to_set().insert(last)) by {
            assert forall|id: u64| ids.to_set().contains(id) implies front.to_set().insert(
                last,
            ).contains(id) by {
                let i = choose|i: int| 0 <= i < ids.len() && ids[i] == id;
                if i < front.len() {
                    assert(front[i] == id);
                }
            }
            assert forall|id: u64| front.to_set().insert(last).contains(
                id,
            ) implies ids.to_set().contains(id) by {
                if id == last {
                    assert(ids[ids.len() - 1] == id);
                } else {
                    let i = choose|i: int| 0 <= i < front.len() && front[i] == id;
                    assert(ids[i] == id);
                }
            }
        }
        front.to_set().lemma_len_filter(wanted);
        if statuses[last] == status {
            assert(ids.to_set().filter(wanted) =~= front.to_set().filter(wanted).insert(last));
        } else {
            assert(ids.to_set().filter(wanted) =~= front.to_set().filter(wanted));
        }
    }
}

/// Remembers the status of each task by its number.
#[derive(Debug)]
pub struct TaskStatusTracker {
    statuses: HashMap<u64, TaskStatus>,
}

impl View for TaskStatusTracker {
    type V = Map<u64, TaskStatus>;

    closed spec fn view(&self) -> Map<u64, TaskStatus> {
        self.statuses@
    }
}

impl TaskStatusTracker {
    /// A tracker that knows no task.
    pub fn new() -> (tracker: Self)
        ensures
            tracker@ == Map::<u64, TaskStatus>::empty(),
    {
        TaskStatusTracker { statuses: HashMap::new() }
    }

    /// Makes a task known as pending.
    pub fn register(&mut self, task_id: u64)
        ensures
            final(self)@ == old(self)@.insert(task_id, TaskStatus::Pending),
    {
        broadcast use group_hash_axioms;

        self.statuses.insert(task_id, TaskStatus::Pending);
    }

    /// Sets the status of a task, known or not.
    pub fn update(&mut self, task_id: u64, status: TaskStatus)
        ensures
            final(self)@ == old(self)@.insert(task_id, status),
    {
        broadcast use group_hash_axioms;

        self.statuses.insert(task_id, status);
    }

    /// The status of a task, if the task is known.
    pub fn get(&self, task_id: u64) -> (status: Option<TaskStatus>)
        ensures
            status == if self@.contains_key(task_id) {
                Some(self@[task_id])
            } else {
                None
            },
    {
        broadcast use group_hash_axioms;

        match self.statuses.get(&task_id) {
            Some(status) => Some(*status),
            None => None,
        }
    }

    /// Forgets a task and answers the status it had, if it was known.
    pub fn remove(&mut self, task_id: u64) -> (status: Option<TaskStatus>)
        ensures
            final(self)@ == old(self)@.remove(task_id),
            status == if old(self)@.contains_key(task_id) {
                Some(old(self)@[task_id])
            } else {
                None
            },
    {
        broadcast use group_hash_axioms;

        self.statuses.remove(&task_id)
    }

    /// A copy of all that is known.
    pub fn get_all(&self) -> (all: HashMap<u64, TaskStatus>)
        ensures
            all@ == self@,
    {
        self.statuses.clone()
    }

    /// The number of known tasks that have the given status.
    pub fn count_by_status(&self, status: TaskStatus) -> (count: usize)
        ensures
            count == tasks_with_status(self@, status).len(),
    {
        broadcast use group_hash_axioms;

        let mut count: usize = 0;
        let total = self.statuses.len();
        let ghost all = spec_keys_iter(&self.statuses).remaining().unref();
        proof {
            assert(all.no_duplicates()) by {
                let refs = spec_keys_iter(&self.statuses).remaining();
                assert forall|i: int, j: int| 0 <= i < all.len() && 0 <= j < all.len() && i
                    != j implies all[i] != all[j] by {
                    assert(refs[i] != refs[j]);
                }
            }
        }
        for id in it: self.statuses.keys()
            invariant
                it.seq().unref() == all,
                all.len() == total,
                count == count_with_status(all.take(it.index()), self.statuses@, status),
                count <= it.index(),
        {
            proof {
                let seen = all.take(it.index() + 1);
                assert(seen.drop_last() =~= all.take(it.index()));
                assert(seen.last() == *id);
            }
            match self.statuses.get(id) {
                Some(found) => {
                    if *found == status {
                        count = count + 1;
                    }
                },
                None => {
                    proof {
                        assert(all.to_set().contains(all[it.index()]));
                    }
                },
            }
        }
        proof {
            assert(all.take(all.len() as int) =~= all);
            assert(all.to_set() == self.statuses@.dom());
            lemma_count_is_cardinality(all, self.statuses@, status);
        }
        count
    }

    /// Forgets every task.
    pub fn clear(&mut self)
        ensures
            final(self)@ == Map::<u64, TaskStatus>::empty(),
    {
        self.statuses.clear();
    }
}

impl Default for TaskStatusTracker {
    fn default() -> (tracker: Self)
        ensures
            tracker@ == Map::<u64, TaskStatus>::empty(),
    {
        TaskStatusTracker::new()
    }
}

} // verus!
