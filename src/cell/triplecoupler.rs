use crate::error::{Error, Result};
use vstd::prelude::*;

verus! {

/// A cell whose primary value is coupled with the latest values of two auxiliary slots: reading
/// takes all three out, the auxiliary ones possibly absent. This is the state kept under the
/// cell's lock; the waiting and the waking are the caller's.
pub struct TripleCoupler<P, S, T> {
    primary: Option<P>,
    second: Option<S>,
    third: Option<T>,
    closed: bool,
}

impl<P, S, T> TripleCoupler<P, S, T> {
    /// The primary value waiting in the cell.
    pub closed spec fn spec_primary(&self) -> Option<P> {
        self.primary
    }

    /// The secondary value waiting in the cell.
    pub closed spec fn spec_second(&self) -> Option<S> {
        self.second
    }

    /// The tertiary value waiting in the cell.
    pub closed spec fn spec_third(&self) -> Option<T> {
        self.third
    }

    /// Whether the cell is closed.
    pub closed spec fn spec_closed(&self) -> bool {
        self.closed
    }

    /// Creates an empty, open cell.
    pub fn new() -> (r: Self)
        ensures
            r.spec_primary() == None::<P>,
            r.spec_second() == None::<S>,
            r.spec_third() == None::<T>,
            !r.spec_closed(),
    {
        TripleCoupler { primary: None, second: None, third: None, closed: false }
    }

    /// Closes the cell: every read fails from now on (all waiters are to be woken).
    pub fn close(&mut self)
        ensures
            final(self).spec_closed(),
            final(self).spec_primary() == old(self).spec_primary(),
            final(self).spec_second() == old(self).spec_second(),
            final(self).spec_third() == old(self).spec_third(),
    {
        self.closed = true;
    }

    /// Whether the cell is closed.
    pub fn is_closed(&self) -> (r: bool)
        ensures
            r == self.spec_closed(),
    {
        self.closed
    }

    /// Sets the primary value (one waiter is to be woken).
    pub fn set(&mut self, data: P)
        ensures
            final(self).spec_primary() == Some(data),
            final(self).spec_second() == old(self).spec_second(),
            final(self).spec_third() == old(self).spec_third(),
            final(self).spec_closed() == old(self).spec_closed(),
    {
        self.primary = Some(data);
    }

    /// Sets the primary value and returns the previous one (one waiter is to be woken).
    pub fn replace(&mut self, data: P) -> (r: Option<P>)
        ensures
            r == old(self).spec_primary(),
            final(self).spec_primary() == Some(data),
            final(self).spec_second() == old(self).spec_second(),
            final(self).spec_third() == old(self).spec_third(),
            final(self).spec_closed() == old(self).spec_closed(),
    {
        let prev = self.primary.take();
        self.primary = Some(data);
        prev
    }

    /// Sets the secondary value; nobody is woken.
    pub fn set_second(&mut self, data: S)
        ensures
            final(self).spec_primary() == old(self).spec_primary(),
            final(self).spec_second() == Some(data),
            final(self).spec_third() == old(self).spec_third(),
            final(self).spec_closed() == old(self).spec_closed(),
    {
        self.second = Some(data);
    }

    /// Sets the secondary value and returns the previous one; nobody is woken.
    pub fn replace_second(&mut self, data: S) -> (r: Option<S>)
        ensures
            r == old(self).spec_second(),
            final(self).spec_primary() == old(self).spec_primary(),
            final(self).spec_second() == Some(data),
            final(self).spec_third() == old(self).spec_third(),
            final(self).spec_closed() == old(self).spec_closed(),
    {
        let prev = self.second.take();
        self.second = Some(data);
        prev
    }

    /// Sets the tertiary value; nobody is woken.
    pub fn set_third(&mut self, data: T)
        ensures
            final(self).spec_primary() == old(self).spec_primary(),
            final(self).spec_second() == old(self).spec_second(),
            final(self).spec_third() == Some(data),
            final(self).spec_closed() == old(self).spec_closed(),
    {
        self.third = Some(data);
    }

    /// Sets the tertiary value and returns the previous one; nobody is woken.
    pub fn replace_third(&mut self, data: T) -> (r: Option<T>)
        ensures
            r == old(self).spec_third(),
            final(self).spec_primary() == old(self).spec_primary(),
            final(self).spec_second() == old(self).spec_second(),
            final(self).spec_third() == Some(data),
            final(self).spec_closed() == old(self).spec_closed(),
    {
        let prev = self.third.take();
        self.third = Some(data);
        prev
    }

    /// Takes the primary value out with the two auxiliary ones, clearing all three:
    /// `ChannelClosed` once closed, `ChannelEmpty` without a primary value (a blocking reader
    /// waits then).
    pub fn try_get(&mut self) -> (r: Result<(P, Option<S>, Option<T>)>)
        ensures
            old(self).spec_closed() ==> r == Err::<(P, Option<S>, Option<T>), Error>(
                Error::ChannelClosed,
            ) && *final(self) == *old(self),
            !old(self).spec_closed() && old(self).spec_primary() is None ==> r == Err::<
                (P, Option<S>, Option<T>),
                Error,
            >(Error::ChannelEmpty) && *final(self) == *old(self),
            !old(self).spec_closed() && old(self).spec_primary() is Some ==> {
                &&& r == Ok::<(P, Option<S>, Option<T>), Error>(
                    (
                        old(self).spec_primary()->0,
                        old(self).spec_second(),
                        old(self).spec_third(),
                    ),
                )
                &&& final(self).spec_primary() == None::<P>
                &&& final(self).spec_second() == None::<S>
                &&& final(self).spec_third() == None::<T>
                &&& !final(self).spec_closed()
            },
    {
        if self.closed {
            return Err(Error::ChannelClosed);
        }
        match self.primary.take() {
            Some(p) => Ok((p, self.second.take(), self.third.take())),
            None => Err(Error::ChannelEmpty),
        }
    }
}

impl<P, S, T> Default for TripleCoupler<P, S, T> {
    fn default() -> (r: Self)
        ensures
            r.spec_primary() == None::<P>,
            r.spec_second() == None::<S>,
            r.spec_third() == None::<T>,
            !r.spec_closed(),
    {
        TripleCoupler::new()
    }
}

} // verus!
