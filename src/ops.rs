use crate::error::{Error, Result};
use vstd::prelude::*;

verus! {

/// A time-limited operation: when it started on the monotonic clock and how long it may take,
/// both in nanoseconds.
#[derive(Debug, Clone, Copy, PartialEq, Eq, Structural)]
pub struct Operation {
    started_at: u64,
    timeout: u64,
}

/// The time that passed from `start` to `now` on the monotonic clock (none if `now` reads
/// earlier).
pub open spec fn elapsed_between(start: u64, now: u64) -> int {
    if now >= start {
        now - start
    } else {
        0
    }
}

/// What is left of `timeout` after `elapsed`, or `Timeout` once it is exceeded.
pub open spec fn remaining_of(timeout: u64, elapsed: int) -> Result<u64> {
    if elapsed > timeout {
        Err(Error::Timeout)
    } else {
        Ok((timeout - elapsed) as u64)
    }
}

impl Operation {
    /// Monotonic time of the start, in nanoseconds.
    pub closed spec fn spec_started_at(&self) -> u64 {
        self.started_at
    }

    /// The time the operation may take, in nanoseconds.
    pub closed spec fn spec_timeout(&self) -> u64 {
        self.timeout
    }

    /// Starts an operation now, with the given timeout in nanoseconds.
    pub fn new(timeout: u64) -> (r: Self)
        ensures
            r.spec_timeout() == timeout,
    {
        Operation { started_at: monotonic_now_ns(), timeout }
    }

    /// An operation that started at the given monotonic time.
    pub fn new_for_monotonic(started_at: u64, timeout: u64) -> (r: Self)
        ensures
            r.spec_started_at() == started_at,
            r.spec_timeout() == timeout,
    {
        Operation { started_at, timeout }
    }

    /// Monotonic time of the start, in nanoseconds.
    pub fn started_at(&self) -> (r: u64)
        ensures
            r == self.spec_started_at(),
    {
        self.started_at
    }

    /// What is left of the timeout at monotonic time `now`, or `Timeout` once it is exceeded.
    pub fn remaining_at(&self, now: u64) -> (r: Result<u64>)
        ensures
            r == remaining_of(self.spec_timeout(), elapsed_between(self.spec_started_at(), now)),
    {
        self.remaining_for_at(self.timeout, now)
    }

    /// What is left of another timeout at monotonic time `now`, or `Timeout` once it is
    /// exceeded.
    pub fn remaining_for_at(&self, timeout: u64, now: u64) -> (r: Result<u64>)
        ensures
            r == remaining_of(timeout, elapsed_between(self.spec_started_at(), now)),
    {
        let elapsed = if now >= self.started_at {
            now - self.started_at
        } else {
            0
        };
        if elapsed > timeout {
            Err(Error::Timeout)
        } else {
            Ok(timeout - elapsed)
        }
    }

    /// Whether, at monotonic time `now`, the expected duration still fits in the timeout.
    pub fn enough_at(&self, expected: u64, now: u64) -> (r: Result<()>)
        ensures
            r == (if elapsed_between(self.spec_started_at(), now) + expected
                <= self.spec_timeout() {
                Ok::<(), Error>(())
            } else {
                Err::<(), Error>(Error::Timeout)
            }),
    {
        let elapsed = if now >= self.started_at {
            now - self.started_at
        } else {
            0
        };
        if elapsed as u128 + expected as u128 <= self.timeout as u128 {
            Ok(())
        } else {
            Err(Error::Timeout)
        }
    }

    /// What is left of the timeout now, or `Timeout` once it is exceeded.
    pub fn remaining(&self) -> (r: Result<u64>)
        ensures
            r is Ok ==> r->Ok_0 <= self.spec_timeout(),
    {
        let now = monotonic_now_ns();
        self.remaining_at(now)
    }

    /// What is left of another timeout now, or `Timeout` once it is exceeded.
    pub fn remaining_for(&self, timeout: u64) -> (r: Result<u64>)
        ensures
            r is Ok ==> r->Ok_0 <= timeout,
    {
        let now = monotonic_now_ns();
        self.remaining_for_at(timeout, now)
    }

    /// Whether the expected duration still fits in the timeout now.
    pub fn enough(&self, expected: u64) -> (r: Result<()>)
        ensures
            r is Ok ==> expected <= self.spec_timeout(),
    {
        let now = monotonic_now_ns();
        self.enough_at(expected, now)
    }
}

/// Relies on `bma_ts::Monotonic::now`, the system's monotonic clock, read in nanoseconds
/// (`Monotonic::as_nanos`, which fits 64 bits for centuries of uptime). Nothing is known of the
/// value read.
#[verifier::external_body]
fn monotonic_now_ns() -> (r: u64) {
    bma_ts::Monotonic::now().as_nanos() as u64
}

} // verus!
