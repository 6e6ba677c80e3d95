use crate::error::{Error, Result};
use vstd::prelude::*;

verus! {

/// A single-slot cell: a value set replaces the previous one, a read takes it out. Acts like a
/// ring-buffer channel of capacity 1. This is the state kept under the cell's lock; the
/// waiting and the waking are the caller's.
pub struct DataCell<P> {
    current: Option<P>,
    closed: bool,
}

impl<P> DataCell<P> {
    /// The value waiting in the cell.
    pub closed spec fn spec_current(&self) -> Option<P> {
        self.current
    }

    /// Whether the cell is closed.
    pub closed spec fn spec_closed(&self) -> bool {
        self.closed
    }

    /// Creates an empty, open cell.
    pub fn new() -> (r: Self)
        ensures
            r.spec_current() == None::<P>,
            !r.spec_closed(),
    {
        DataCell { current: None, closed: false }
    }

    /// Closes the cell: every read fails from now on (all waiters are to be woken).
    pub fn close(&mut self)
        ensures
            final(self).spec_closed(),
            final(self).spec_current() == old(self).spec_current(),
    {
        self.closed = true;
    }

    /// Whether the cell is closed.
    pub fn is_closed(&self) -> (r: bool)
        ensures
            r == self.spec_closed(),
    {
        self.closed
    }

    /// Sets the value (one waiter is to be woken).
    pub fn set(&mut self, data: P)
        ensures
            final(self).spec_current() == Some(data),
            final(self).spec_closed() == old(self).spec_closed(),
    {
        self.current = Some(data);
    }

    /// Sets the value and returns the previous one, if any (one waiter is to be woken).
    pub fn replace(&mut self, data: P) -> (r: Option<P>)
        ensures
            r == old(self).spec_current(),
            final(self).spec_current() == Some(data),
            final(self).spec_closed() == old(self).spec_closed(),
    {
        let prev = self.current.take();
        self.current = Some(data);
        prev
    }

    /// Takes the value out: `ChannelClosed` once closed, `ChannelEmpty` when there is none (a
    /// blocking reader waits then).
    pub fn try_get(&mut self) -> (r: Result<P>)
        ensures
            old(self).spec_closed() ==> r == Err::<P, Error>(Error::ChannelClosed) && *final(self)
                == *old(self),
            !old(self).spec_closed() ==> final(self).spec_current() == None::<P>
                && final(self).spec_closed() == old(self).spec_closed() && r == match old(
                self,
            ).spec_current() {
                Some(v) => Ok::<P, Error>(v),
                None => Err::<P, Error>(Error::ChannelEmpty),
            },
    {
        if self.closed {
            return Err(Error::ChannelClosed);
        }
        match self.current.take() {
            Some(v) => Ok(v),
            None => Err(Error::ChannelEmpty),
        }
    }
}

impl<P> Default for DataCell<P> {
    fn default() -> (r: Self)
        ensures
            r.spec_current() == None::<P>,
            !r.spec_closed(),
    {
        DataCell::new()
    }
}

} // verus!
