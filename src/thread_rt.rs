use crate::error::{Error, Result};
use vstd::prelude::*;

verus! {

/// Scheduling policy of a thread (Linux).
#[derive(Debug, Copy, Clone, PartialEq, Eq, Structural)]
pub enum Scheduling {
    /// Round-robin
    RoundRobin,
    /// First in, first out
    FIFO,
    /// Idle
    Idle,
    /// Batch
    Batch,
    /// Deadline
    DeadLine,
    /// Other (the default)
    Other,
}

impl Default for Scheduling {
    fn default() -> (r: Self)
        ensures
            r == Scheduling::Other,
    {
        Scheduling::Other
    }
}

/// Thread scheduler and CPU affinity parameters.
#[derive(Debug, Clone, PartialEq, Eq)]
pub struct Params {
    priority: Option<i32>,
    scheduling: Scheduling,
    cpu_ids: Vec<usize>,
}

/// What applying [`Params`] to a thread does, in order: pin it to the CPUs (where `affinity`
/// is set), then set its scheduler policy and priority (where `scheduler` is given).
#[derive(Debug, Clone, Copy, PartialEq, Eq, Structural)]
pub struct SchedulingPlan {
    /// Whether the CPU affinity is set.
    pub affinity: bool,
    /// The scheduler policy and priority to set, if any.
    pub scheduler: Option<SchedulerSetting>,
}

/// A scheduler policy with the priority to run under it.
#[derive(Debug, Clone, Copy, PartialEq, Eq, Structural)]
pub struct SchedulerSetting {
    /// The scheduler policy.
    pub policy: Scheduling,
    /// The priority.
    pub priority: i32,
}

impl Params {
    /// The thread priority to set, if any.
    pub closed spec fn spec_priority(&self) -> Option<i32> {
        self.priority
    }

    /// The scheduler policy.
    pub closed spec fn spec_scheduling(&self) -> Scheduling {
        self.scheduling
    }

    /// The CPUs the thread is pinned to (none: no pinning).
    pub closed spec fn spec_cpu_ids(&self) -> Seq<usize> {
        self.cpu_ids@
    }

    /// Creates parameters that change nothing.
    pub fn new() -> (r: Self)
        ensures
            r.spec_priority() == None::<i32>,
            r.spec_scheduling() == Scheduling::Other,
            r.spec_cpu_ids() == Seq::<usize>::empty(),
    {
        Params { priority: None, scheduling: Scheduling::Other, cpu_ids: Vec::new() }
    }

    /// Sets the thread priority.
    pub fn with_priority(self, priority: Option<i32>) -> (r: Self)
        ensures
            r.spec_priority() == priority,
            r.spec_scheduling() == self.spec_scheduling(),
            r.spec_cpu_ids() == self.spec_cpu_ids(),
    {
        Params { priority, ..self }
    }

    /// Sets the scheduler policy.
    pub fn with_scheduling(self, scheduling: Scheduling) -> (r: Self)
        ensures
            r.spec_priority() == self.spec_priority(),
            r.spec_scheduling() == scheduling,
            r.spec_cpu_ids() == self.spec_cpu_ids(),
    {
        Params { scheduling, ..self }
    }

    /// Sets the CPU affinity.
    pub fn with_cpu_ids(self, cpu_ids: &[usize]) -> (r: Self)
        ensures
            r.spec_priority() == self.spec_priority(),
            r.spec_scheduling() == self.spec_scheduling(),
            r.spec_cpu_ids() == cpu_ids@,
    {
        let mut ids: Vec<usize> = Vec::new();
        let mut i: usize = 0;
        while i < cpu_ids.len()
            invariant
                i <= cpu_ids@.len(),
                ids@ == cpu_ids@.take(i as int),
            decreases cpu_ids@.len() - i,
        {
            ids.push(cpu_ids[i]);
            i += 1;
            proof {
                assert(ids@ =~= cpu_ids@.take(i as int));
            }
        }
        proof {
            assert(cpu_ids@.take(i as int) =~= cpu_ids@);
        }
        Params { cpu_ids: ids, ..self }
    }

    /// Returns the thread priority.
    pub fn priority(&self) -> (r: Option<i32>)
        ensures
            r == self.spec_priority(),
    {
        self.priority
    }

    /// Returns the scheduler policy.
    pub fn scheduling(&self) -> (r: Scheduling)
        ensures
            r == self.spec_scheduling(),
    {
        self.scheduling
    }

    /// Returns the CPU affinity.
    pub fn cpu_ids(&self) -> (r: &[usize])
        ensures
            r@ == self.spec_cpu_ids(),
    {
        self.cpu_ids.as_slice()
    }

    /// Decides what applying the parameters does for a caller with the given user id. Only root
    /// may change the affinity or the priority; a priority of zero always means the `Other`
    /// policy.
    pub fn plan(&self, user_id: u32) -> (r: Result<SchedulingPlan>)
        ensures
            (self.spec_cpu_ids().len() > 0 || self.spec_priority() is Some) && user_id != 0 ==> r
                == Err::<SchedulingPlan, Error>(Error::AccessDenied),
            !((self.spec_cpu_ids().len() > 0 || self.spec_priority() is Some) && user_id != 0)
                ==> r == Ok::<SchedulingPlan, Error>(
                SchedulingPlan {
                    affinity: self.spec_cpu_ids().len() > 0,
                    scheduler: match self.spec_priority() {
                        Some(p) => Some(
                            SchedulerSetting {
                                policy: if p == 0 {
                                    Scheduling::Other
                                } else {
                                    self.spec_scheduling()
                                },
                                priority: p,
                            },
                        ),
                        None => None,
                    },
                },
            ),
    {
        let affinity = self.cpu_ids.len() > 0;
        if (affinity || self.priority.is_some()) && user_id != 0 {
            return Err(Error::AccessDenied);
        }
        let scheduler = match self.priority {
            Some(p) => {
                let sched = if p == 0 {
                    Scheduling::Other
                } else {
                    self.scheduling
                };
                Some(SchedulerSetting { policy: sched, priority: p })
            },
            None => None,
        };
        Ok(SchedulingPlan { affinity, scheduler })
    }
}

impl Default for Params {
    fn default() -> (r: Self)
        ensures
            r.spec_priority() == None::<i32>,
            r.spec_scheduling() == Scheduling::Other,
            r.spec_cpu_ids() == Seq::<usize>::empty(),
    {
        Params::new()
    }
}

/// Whether preallocating a heap region of `size` bytes has anything to do: a zero size is a
/// success with no work.
pub fn heap_preallocation_needed(size: usize) -> (r: bool)
    ensures
        r == (size > 0),
{
    size > 0
}

} // verus!
