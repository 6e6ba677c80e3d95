use vstd::prelude::*;

verus! {

/// The first pause of a condition variable's notify loop, in microseconds.
pub const BACKOFF_START_US: u32 = 50;

/// How much each further pause grows, in microseconds.
pub const BACKOFF_STEP_US: u32 = 25;

/// The longest pause, in microseconds.
pub const BACKOFF_MAX_US: u32 = 200;

/// The pauses of a notifier that retries while a waiter has released the mutex but not yet
/// parked: 50 µs first, then 25 µs more each time, up to 200 µs. Yielding alone is not enough
/// under FIFO scheduling; the pause itself is the caller's.
pub struct Backoff {
    n: u32,
}

impl Backoff {
    /// The pause the next retry takes, in microseconds.
    pub closed spec fn spec_next_us(&self) -> u32 {
        self.n
    }

    /// The invariant: the pause lies between the first and the longest one, on the grid of
    /// the steps.
    pub open spec fn wf(&self) -> bool {
        &&& BACKOFF_START_US <= self.spec_next_us() <= BACKOFF_MAX_US
        &&& self.spec_next_us() % BACKOFF_STEP_US == 0
    }

    /// Starts with the first pause.
    pub fn new() -> (r: Self)
        ensures
            r.wf(),
            r.spec_next_us() == BACKOFF_START_US,
    {
        Backoff { n: BACKOFF_START_US }
    }

    /// Returns the pause to take now and grows the next one, up to the longest.
    pub fn next_delay_us(&mut self) -> (r: u32)
        requires
            old(self).wf(),
        ensures
            final(self).wf(),
            r == old(self).spec_next_us(),
            final(self).spec_next_us() == (if old(self).spec_next_us() < BACKOFF_MAX_US {
                old(self).spec_next_us() + BACKOFF_STEP_US
            } else {
                old(self).spec_next_us() as int
            }),
    {
        let r = self.n;
        if self.n < BACKOFF_MAX_US {
            self.n = self.n + BACKOFF_STEP_US;
        }
        r
    }
}

} // verus!
