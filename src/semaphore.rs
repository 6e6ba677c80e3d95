use vstd::prelude::*;

verus! {

/// The count of a bounded counting semaphore: how many of its permissions are in use. This is
/// the state kept under the semaphore's lock; blocking until a permission frees up, and
/// handing one back when its guard goes away, are the caller's.
pub struct Semaphore {
    used: usize,
    capacity: usize,
}

impl Semaphore {
    /// The number of permissions in use.
    pub closed spec fn spec_used(&self) -> nat {
        self.used as nat
    }

    /// The number of permissions.
    pub closed spec fn spec_capacity(&self) -> nat {
        self.capacity as nat
    }

    /// The invariant: never more permissions in use than there are.
    pub open spec fn wf(&self) -> bool {
        self.spec_used() <= self.spec_capacity()
    }

    /// Creates a semaphore with all its permissions free.
    pub fn new(capacity: usize) -> (r: Self)
        ensures
            r.wf(),
            r.spec_used() == 0,
            r.spec_capacity() == capacity,
    {
        Semaphore { used: 0, capacity }
    }

    /// Takes a permission if one is free; `false` when all are in use (a blocking caller waits
    /// then).
    pub fn try_acquire(&mut self) -> (r: bool)
        requires
            old(self).wf(),
        ensures
            final(self).wf(),
            final(self).spec_capacity() == old(self).spec_capacity(),
            r == (old(self).spec_used() < old(self).spec_capacity()),
            final(self).spec_used() == old(self).spec_used() + (if r { 1int } else { 0 }),
    {
        if self.used == self.capacity {
            return false;
        }
        self.used += 1;
        true
    }

    /// Hands a permission back (one waiter is to be woken).
    pub fn release(&mut self)
        requires
            old(self).wf(),
            old(self).spec_used() > 0,
        ensures
            final(self).wf(),
            final(self).spec_capacity() == old(self).spec_capacity(),
            final(self).spec_used() == old(self).spec_used() - 1,
    {
        self.used -= 1;
    }

    /// Returns the number of permissions.
    pub fn capacity(&self) -> (r: usize)
        ensures
            r == self.spec_capacity(),
    {
        self.capacity
    }

    /// Returns the number of free permissions.
    pub fn available(&self) -> (r: usize)
        requires
            self.wf(),
        ensures
            r == self.spec_capacity() - self.spec_used(),
    {
        self.capacity - self.used
    }

    /// Returns the number of permissions in use.
    pub fn used(&self) -> (r: usize)
        ensures
            r == self.spec_used(),
    {
        self.used
    }
}

/// The number of permissions in use stays within `[0, capacity]` through any acquisition and
/// release.
pub proof fn lemma_semaphore_count_bounded(s: Semaphore, acquired: Semaphore, released: Semaphore)
    requires
        s.wf(),
        acquired.spec_capacity() == s.spec_capacity(),
        acquired.spec_used() == s.spec_used() + (if s.spec_used() < s.spec_capacity() {
            1int
        } else {
            0
        }),
        s.spec_used() > 0 ==> released.spec_used() == s.spec_used() - 1
            && released.spec_capacity() == s.spec_capacity(),
    ensures
        0 <= acquired.spec_used() <= acquired.spec_capacity(),
        s.spec_used() > 0 ==> 0 <= released.spec_used() <= released.spec_capacity(),
{
}

} // verus!
