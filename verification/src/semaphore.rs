//! The throttle: a counter of permits that bounds how many tasks run at the
//! same time.
//!
//! A task runs only while it holds a permit, and there are only as many
//! permits as the limit says.  The counter never waits: where no permit is
//! free, [`Semaphore::acquire`] says so, and the caller waits until a
//! permit has been released and asks again.  Whoever releases a permit
//! wakes one of those who wait.
//!
//! A semaphore is known by the number its maker gave it, and a guard
//! remembers the number of the semaphore it was taken from: a guard gives
//! its permit back to that semaphore and to no other.  Whoever keeps
//! several semaphores gives them different numbers.

use vstd::prelude::*;

verus! {

/// A counter of permits.
#[derive(Debug)]
pub struct Semaphore {
    permits: usize,
    capacity: usize,
    name: u64,
}

/// The proof of one permit taken.  It cannot be copied, and giving the
/// permit back consumes it, so no permit is given back twice; the scope
/// that holds it gives it back on every way out.
#[derive(Debug)]
pub struct SemaphoreGuard {
    semaphore: u64,
}

impl Semaphore {
    /// The number of permits that are free.
    pub closed spec fn available(self) -> nat {
        self.permits as nat
    }

    /// The number of permits there are in all.
    pub closed spec fn capacity(self) -> nat {
        self.capacity as nat
    }

    /// The number by which the semaphore is known.
    pub closed spec fn identity(self) -> u64 {
        self.name
    }

    /// The number of permits that are taken.
    pub open spec fn in_use(self) -> int {
        self.capacity() - self.available()
    }

    /// What holds of every semaphore: no more permits are free than there
    /// are, so that never more are taken than there are.
    pub open spec fn wf(self) -> bool {
        self.available() <= self.capacity()
    }

    /// Whether asking this semaphore for a permit leaves it `after`: with
    /// one permit less if one was free, and unchanged if none was.
    pub open spec fn acquire_leads_to(self, after: Self) -> bool {
        &&& after.capacity() == self.capacity()
        &&& after.identity() == self.identity()
        &&& after.available() == if self.available() > 0 {
            self.available() - 1
        } else {
            0
        }
    }

    /// Whether giving a permit back to this semaphore leaves it `after`:
    /// with one permit more.
    pub open spec fn release_leads_to(self, after: Self) -> bool {
        &&& after.capacity() == self.capacity()
        &&& after.identity() == self.identity()
        &&& after.available() == self.available() + 1
    }

    /// A semaphore with `permits` permits, all of them free, known by the
    /// number zero.
    pub fn new(permits: usize) -> (semaphore: Self)
        ensures
            semaphore.wf(),
            semaphore.capacity() == permits,
            semaphore.available() == permits,
            semaphore.identity() == 0,
    {
        Semaphore { permits, capacity: permits, name: 0 }
    }

    /// A semaphore with `permits` permits, all of them free, known by the
    /// number `name`.
    pub fn named(permits: usize, name: u64) -> (semaphore: Self)
        ensures
            semaphore.wf(),
            semaphore.capacity() == permits,
            semaphore.available() == permits,
            semaphore.identity() == name,
    {
        Semaphore { permits, capacity: permits, name }
    }

    /// The number by which the semaphore is known.
    pub fn name(&self) -> (name: u64)
        ensures
            name == self.identity(),
    {
        self.name
    }

    /// The number of permits that are free.
    pub fn available_permits(&self) -> (free: usize)
        ensures
            free == self.available(),
    {
        self.permits
    }

    /// The number of permits that are taken.
    pub fn permits_in_use(&self) -> (taken: usize)
        requires
            self.wf(),
        ensures
            taken == self.in_use(),
            taken <= self.capacity(),
    {
        self.capacity - self.permits
    }

    /// Takes a permit if one is free and says whether it did.  Where none
    /// is free, nothing changes: the caller waits until a permit has been
    /// released and asks again.
    pub fn acquire(&mut self) -> (granted: bool)
        requires
            old(self).wf(),
        ensures
            final(self).wf(),
            old(self).acquire_leads_to(*final(self)),
            granted == (old(self).available() > 0),
    {
        if self.permits > 0 {
            self.permits = self.permits - 1;
            true
        } else {
            false
        }
    }

    /// Gives a permit back.  The caller wakes one of those who wait for a
    /// permit.  Only a permit that was taken can be given back.
    pub fn release(&mut self)
        requires
            old(self).wf(),
            old(self).in_use() > 0,
        ensures
            final(self).wf(),
            old(self).release_leads_to(*final(self)),
    {
        self.permits = self.permits + 1;
    }

    /// Takes a permit if one is free, as [`Semaphore::acquire`] does, and
    /// hands out the guard that stands for it: a guard of this semaphore.
    pub fn acquire_guard(&mut self) -> (guard: Option<SemaphoreGuard>)
        requires
            old(self).wf(),
        ensures
            final(self).wf(),
            old(self).acquire_leads_to(*final(self)),
            guard is Some == (old(self).available() > 0),
            guard matches Some(taken) ==> taken.belongs_to(*final(self)),
    {
        if self.acquire() {
            Some(SemaphoreGuard { semaphore: self.name })
        } else {
            None
        }
    }
}

impl SemaphoreGuard {
    /// The number of the semaphore that the guard was taken from.
    pub closed spec fn owner(self) -> u64 {
        self.semaphore
    }

    /// Whether the guard was taken from `semaphore`.
    pub open spec fn belongs_to(self, semaphore: Semaphore) -> bool {
        self.owner() == semaphore.identity()
    }

    /// Whether the guard was taken from `semaphore`.
    pub fn is_from(&self, semaphore: &Semaphore) -> (own: bool)
        ensures
            own == self.belongs_to(*semaphore),
    {
        self.semaphore == semaphore.name
    }

    /// Gives the permit of this guard back to the semaphore it was taken
    /// from, and to no other, as [`Semaphore::release`] does.  The guard
    /// is used up.
    pub fn release(self, semaphore: &mut Semaphore)
        requires
            old(semaphore).wf(),
            self.belongs_to(*old(semaphore)),
            old(semaphore).in_use() > 0,
        ensures
            final(semaphore).wf(),
            old(semaphore).release_leads_to(*final(semaphore)),
    {
        semaphore.release();
    }
}

/// One operation on a semaphore.
pub enum ThrottleStep {
    /// A permit is asked for.
    Acquire,
    /// A permit that was taken is given back.
    Release,
}

/// Whether `steps` lead from `states[0]` through `states`: step `i` leads
/// from `states[i]` to `states[i + 1]`, and a permit is given back only
/// while one is taken.
pub open spec fn throttle_history(states: Seq<Semaphore>, steps: Seq<ThrottleStep>) -> bool {
    &&& states.len() == steps.len() + 1
    &&& forall|i: int|
        0 <= i < steps.len() ==> match #[trigger] steps[i] {
            ThrottleStep::Acquire => states[i].acquire_leads_to(states[i + 1]),
            ThrottleStep::Release => states[i].in_use() > 0 && states[i].release_leads_to(
                states[i + 1],
            ),
        }
}

/// The throttle holds.  Whatever permits are asked for and given back, in
/// whatever order, never more permits are taken than the semaphore was
/// made with: with a limit of `n`, at no instant do more than `n` tasks
/// hold a permit.
pub proof fn lemma_throttle_holds(states: Seq<Semaphore>, steps: Seq<ThrottleStep>, k: int)
    requires
        states[0].wf(),
        throttle_history(states, steps),
        0 <= k <= steps.len(),
    ensures
        states[k].wf(),
        states[k].capacity() == states[0].capacity(),
        0 <= states[k].in_use() <= states[0].capacity(),
    decreases k,
{
    if k > 0 {
        lemma_throttle_holds(states, steps, k - 1);
        assert(steps[k - 1] is Acquire || steps[k - 1] is Release);
    }
}

/// A permit is granted exactly while fewer are taken than there are, so a
/// grant never takes the number of running tasks over the limit; and a
/// permit that is taken and given back leaves the semaphore as it was.
pub proof fn lemma_permit_round_trip(before: Semaphore, held: Semaphore, after: Semaphore)
    requires
        before.wf(),
        before.available() > 0,
        before.acquire_leads_to(held),
        held.release_leads_to(after),
    ensures
        held.in_use() == before.in_use() + 1,
        held.in_use() <= before.capacity(),
        after.available() == before.available(),
        after.capacity() == before.capacity(),
{
}

} // verus!
