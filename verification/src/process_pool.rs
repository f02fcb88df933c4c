//! The resident worker pool: which worker is free, and who holds which.
//!
//! The pool keeps the numbers of its workers that are free.  A worker is
//! either in that list or checked out to exactly one caller, who alone
//! writes to its pipe and reads from it: two callers on one worker would
//! mix their lines.  The processes themselves belong to the caller of this
//! module, who spawns one per number, exchanges the lines, and kills them
//! all at teardown.

use crate::config::CommandConfig;
use crate::error::{ExecuteError, IoFailure};
use crate::output::ProcessOutput;
use crate::protocol::{
    defect_message, encode_request, parse_response, parsed_response, request_line,
    response_defect,
};
use crate::text::is_one_line;
use std::collections::VecDeque;
use vstd::prelude::*;

verus! {

/// What to do with a task that was handed to the pool.
#[derive(Debug)]
pub enum PoolStep {
    /// Worker `worker` is checked out for the task: write `request` to its
    /// standard input, read one line from its standard output, and report
    /// it to [`ProcessPool::complete`].
    Send { worker: usize, request: Vec<u8> },
    /// No worker is free: wait until one has been returned and ask again.
    Wait,
}

/// The free list of a fixed set of resident workers, numbered from zero.
#[derive(Debug)]
pub struct ProcessPool {
    free: VecDeque<usize>,
    size: usize,
}

/// Whether no number occurs twice in `list`.
pub open spec fn no_duplicates(list: Seq<usize>) -> bool {
    forall|i: int, j: int| 0 <= i < j < list.len() ==> list[i] != list[j]
}

/// A list of different numbers below a bound is no longer than the bound.
pub proof fn lemma_distinct_are_few(list: Seq<usize>, bound: nat)
    requires
        no_duplicates(list),
        forall|i: int| 0 <= i < list.len() ==> (#[trigger] list[i]) < bound,
    ensures
        list.len() <= bound,
    decreases bound,
{
    if bound == 0 {
        if list.len() > 0 {
            assert(list[0] < bound);
        }
    } else {
        let top = (bound - 1) as nat;
        if exists|i: int| 0 <= i < list.len() && list[i] == top {
            let at = choose|i: int| 0 <= i < list.len() && list[i] == top;
            let rest = list.remove(at);
            assert forall|k: int| 0 <= k < rest.len() implies (#[trigger] rest[k]) < top by {
                if k < at {
                    assert(rest[k] == list[k]);
                    assert(list[k] != list[at]);
                } else {
                    assert(rest[k] == list[k + 1]);
                    assert(list[at] != list[k + 1]);
                }
            }
            assert forall|i: int, j: int| 0 <= i < j < rest.len() implies rest[i] != rest[j] by {
                let from_i = if i < at {
                    i
                } else {
                    i + 1
                };
                let from_j = if j < at {
                    j
                } else {
                    j + 1
                };
                assert(rest[i] == list[from_i]);
                assert(rest[j] == list[from_j]);
            }
            lemma_distinct_are_few(rest, top);
        } else {
            assert forall|k: int| 0 <= k < list.len() implies (#[trigger] list[k]) < top by {
                assert(list[k] < bound);
            }
            lemma_distinct_are_few(list, top);
        }
    }
}

impl ProcessPool {
    /// The number of workers.
    pub closed spec fn capacity(self) -> nat {
        self.size as nat
    }

    /// The free workers, the one that waits longest first.
    pub closed spec fn free_list(self) -> Seq<usize> {
        self.free@
    }

    /// Whether `worker` is a worker of this pool that is checked out.
    pub open spec fn is_checked_out(self, worker: usize) -> bool {
        worker < self.capacity() && !self.free_list().contains(worker)
    }

    /// What holds of every pool: the free list names workers of the pool,
    /// none of them twice, and so never more workers than the pool has.
    pub open spec fn wf(self) -> bool {
        &&& forall|i: int|
            0 <= i < self.free_list().len() ==> (#[trigger] self.free_list()[i]) < self.capacity()
        &&& no_duplicates(self.free_list())
        &&& self.free_list().len() <= self.capacity()
    }

    /// Whether checking a worker out of this pool gives `worker` and
    /// leaves the pool `after`: the free worker that waits longest leaves
    /// the free list, and nothing changes if no worker is free.
    pub open spec fn checkout_leads_to(self, worker: Option<usize>, after: Self) -> bool {
        &&& after.capacity() == self.capacity()
        &&& if self.free_list().len() > 0 {
            worker == Some(self.free_list()[0]) && after.free_list()
                == self.free_list().drop_first()
        } else {
            worker is None && after.free_list() == self.free_list()
        }
    }

    /// Whether returning `worker` to this pool leaves the pool `after`:
    /// the worker stands at the end of the free list.
    pub open spec fn return_leads_to(self, worker: usize, after: Self) -> bool {
        &&& after.capacity() == self.capacity()
        &&& after.free_list() == self.free_list().push(worker)
    }

    /// A pool of `size` workers, all of them free, in the order of their
    /// numbers.
    pub fn new(size: usize) -> (pool: Self)
        ensures
            pool.wf(),
            pool.capacity() == size,
            pool.free_list() == Seq::new(size as nat, |k: int| k as usize),
    {
        let mut free: VecDeque<usize> = VecDeque::new();
        let mut next: usize = 0;
        while next < size
            invariant
                next <= size,
                free@ == Seq::new(next as nat, |k: int| k as usize),
            decreases size - next,
        {
            free.push_back(next);
            assert(free@ =~= Seq::new((next + 1) as nat, |k: int| k as usize));
            next += 1;
        }
        ProcessPool { free, size }
    }

    /// The number of workers.
    pub fn size(&self) -> (size: usize)
        ensures
            size == self.capacity(),
    {
        self.size
    }

    /// The number of workers that are free.
    pub fn idle(&self) -> (idle: usize)
        ensures
            idle == self.free_list().len(),
    {
        self.free.len()
    }

    /// Whether `worker` is a worker of this pool that is checked out.
    pub fn holds(&self, worker: usize) -> (held: bool)
        ensures
            held == self.is_checked_out(worker),
    {
        if worker >= self.size {
            return false;
        }
        let mut i: usize = 0;
        while i < self.free.len()
            invariant
                i <= self.free@.len(),
                forall|k: int| 0 <= k < i ==> self.free@[k] != worker,
            decreases self.free@.len() - i,
        {
            if self.free[i] == worker {
                assert(self.free@.contains(self.free@[i as int]));
                return false;
            }
            i += 1;
        }
        true
    }

    /// Checks out the free worker that waits longest, or answers `None` if
    /// no worker is free.  The worker handed out is checked out from then
    /// on: it is in the free list no more.
    pub fn checkout(&mut self) -> (worker: Option<usize>)
        requires
            old(self).wf(),
        ensures
            final(self).wf(),
            old(self).checkout_leads_to(worker, *final(self)),
            worker matches Some(w) ==> final(self).is_checked_out(w),
    {
        let worker = self.free.pop_front();
        proof {
            if old(self).free@.len() > 0 {
                let before = old(self).free@;
                assert(self.free@ =~= before.drop_first());
                assert forall|i: int| 0 <= i < self.free@.len() implies self.free@[i]
                    != before[0] by {
                    assert(self.free@[i] == before[i + 1]);
                }
                assert forall|i: int, j: int| 0 <= i < j < self.free@.len() implies self.free@[i]
                    != self.free@[j] by {
                    assert(self.free@[i] == before[i + 1]);
                    assert(self.free@[j] == before[j + 1]);
                }
                assert forall|i: int| 0 <= i < self.free@.len() implies (
                #[trigger] self.free@[i]) < self.size by {
                    assert(self.free@[i] == before[i + 1]);
                }
            }
        }
        worker
    }

    /// Returns a worker that was checked out.  The caller wakes one of
    /// those who wait for a worker.
    pub fn give_back(&mut self, worker: usize)
        requires
            old(self).wf(),
            old(self).is_checked_out(worker),
        ensures
            final(self).wf(),
            old(self).return_leads_to(worker, *final(self)),
    {
        self.free.push_back(worker);
        proof {
            let before = old(self).free@;
            assert forall|i: int, j: int| 0 <= i < j < self.free@.len() implies self.free@[i]
                != self.free@[j] by {
                if j == before.len() {
                    assert(before.contains(before[i]));
                }
            }
            lemma_distinct_are_few(self.free@, self.size as nat);
        }
    }

    /// Hands a task to the pool.  If a worker is free, the one that waits
    /// longest is checked out for the task, and the answer carries the
    /// request to send to it, which is exactly one line.  If none is free,
    /// nothing changes and the caller waits.
    pub fn execute(&mut self, config: &CommandConfig) -> (step: PoolStep)
        requires
            old(self).wf(),
        ensures
            final(self).wf(),
            old(self).free_list().len() == 0 ==> step is Wait && old(self).checkout_leads_to(
                None,
                *final(self),
            ),
            old(self).free_list().len() > 0 ==> (step matches PoolStep::Send { worker, request }
                && old(self).checkout_leads_to(Some(worker), *final(self))
                && final(self).is_checked_out(worker) && request@ == request_line(config@)
                && is_one_line(request@)),
    {
        match self.checkout() {
            Some(worker) => PoolStep::Send { worker, request: encode_request(config) },
            None => PoolStep::Wait,
        }
    }

    /// Ends the exchange with `worker`: the worker goes back to the free
    /// list whatever came of the exchange, and the answer is what the
    /// exchange gave.  A failure of the pipe is that I/O error; a response
    /// line is read as [`parse_response`] reads it.
    pub fn complete(&mut self, worker: usize, response: Result<Vec<u8>, IoFailure>) -> (result:
        Result<ProcessOutput, ExecuteError>)
        requires
            old(self).wf(),
            old(self).is_checked_out(worker),
        ensures
            final(self).wf(),
            old(self).return_leads_to(worker, *final(self)),
            match response {
                Err(failure) => result == Err::<ProcessOutput, ExecuteError>(
                    ExecuteError::Io(failure),
                ),
                Ok(line) => match response_defect(line@) {
                    None => result matches Ok(output) && output@ == parsed_response(line@),
                    Some(defect) => result matches Err(error) && error.is_child(
                        defect_message(defect),
                    ),
                },
            },
    {
        self.give_back(worker);
        match response {
            Err(failure) => Err(ExecuteError::Io(failure)),
            Ok(line) => parse_response(line.as_slice()),
        }
    }

    /// Tears the pool down: no worker is free any more, and the answer
    /// names every worker of the pool, free or not, for the caller to kill.
    pub fn shutdown(&mut self) -> (workers: Vec<usize>)
        requires
            old(self).wf(),
        ensures
            final(self).wf(),
            final(self).capacity() == old(self).capacity(),
            final(self).free_list() == Seq::<usize>::empty(),
            workers@ == Seq::new(old(self).capacity(), |k: int| k as usize),
    {
        self.free.clear();
        let mut workers: Vec<usize> = Vec::new();
        let mut next: usize = 0;
        while next < self.size
            invariant
                next <= self.size,
                self.size == old(self).size,
                self.free@ == Seq::<usize>::empty(),
                workers@ == Seq::new(next as nat, |k: int| k as usize),
            decreases self.size - next,
        {
            workers.push(next);
            assert(workers@ =~= Seq::new((next + 1) as nat, |k: int| k as usize));
            next += 1;
        }
        workers
    }
}

/// A worker serves one caller at a time.  Two checkouts with no return
/// between them never hand out the same worker, and both workers are
/// checked out afterwards.
pub proof fn lemma_checkout_is_exclusive(
    before: ProcessPool,
    first: usize,
    between: ProcessPool,
    second: usize,
    after: ProcessPool,
)
    requires
        before.wf(),
        before.checkout_leads_to(Some(first), between),
        between.checkout_leads_to(Some(second), after),
    ensures
        first != second,
        after.is_checked_out(first),
        after.is_checked_out(second),
        after.wf(),
{
    let list = before.free_list();
    assert(between.free_list().len() > 0);
    assert(between.free_list()[0] == list[1]);
    assert(after.free_list() =~= list.skip(2));
    assert forall|i: int| 0 <= i < after.free_list().len() implies after.free_list()[i] != first
        && after.free_list()[i] != second && (#[trigger] after.free_list()[i])
        < after.capacity() by {
        assert(after.free_list()[i] == list[i + 2]);
    }
    assert forall|i: int, j: int| 0 <= i < j < after.free_list().len() implies after.free_list()[i]
        != after.free_list()[j] by {
        assert(after.free_list()[i] == list[i + 2]);
        assert(after.free_list()[j] == list[j + 2]);
    }
}

/// A worker that is returned can be checked out again, and not before:
/// while it is checked out no checkout hands it out, and after its return
/// it is the last in the free list.
pub proof fn lemma_returned_worker_is_free(
    before: ProcessPool,
    worker: usize,
    after: ProcessPool,
)
    requires
        before.wf(),
        before.is_checked_out(worker),
        before.return_leads_to(worker, after),
    ensures
        before.free_list().len() > 0 ==> before.free_list()[0] != worker,
        !after.is_checked_out(worker),
        after.free_list().last() == worker,
{
    if before.free_list().len() > 0 {
        assert(before.free_list().contains(before.free_list()[0]));
    }
    assert(after.free_list()[after.free_list().len() - 1] == worker);
    assert(after.free_list().contains(worker));
}

} // verus!
