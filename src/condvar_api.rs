use vstd::prelude::*;

verus! {

/// What a wait with a timeout on a condition variable gave.
#[derive(Debug, Clone, Copy, PartialEq, Eq, Structural)]
pub struct WaitTimeoutResult {
    timed_out: bool,
}

impl WaitTimeoutResult {
    /// Whether the wait ended by its timeout.
    pub closed spec fn spec_timed_out(&self) -> bool {
        self.timed_out
    }

    /// Creates a new result.
    pub fn new(timed_out: bool) -> (r: Self)
        ensures
            r.spec_timed_out() == timed_out,
    {
        WaitTimeoutResult { timed_out }
    }

    /// Returns `true` if the wait timed out.
    pub fn timed_out(&self) -> (r: bool)
        ensures
            r == self.spec_timed_out(),
    {
        self.timed_out
    }
}

} // verus!
