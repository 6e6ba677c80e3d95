use crate::error::{Error, Result};
use vstd::prelude::*;

verus! {

/// A cell whose primary value is coupled with the latest secondary value: reading takes both
/// out, the secondary possibly absent. This is the state kept under the cell's lock; the
/// waiting and the waking are the caller's.
pub struct Coupler<P, S> {
    primary: Option<P>,
    second: Option<S>,
    closed: bool,
}

impl<P, S> Coupler<P, S> {
    /// The primary value waiting in the cell.
    pub closed spec fn spec_primary(&self) -> Option<P> {
        self.primary
    }

    /// The secondary value waiting in the cell.
    pub closed spec fn spec_second(&self) -> Option<S> {
        self.second
    }

    /// Whether the cell is closed.
    pub closed spec fn spec_closed(&self) -> bool {
        self.closed
    }

    /// The cell after its primary value is set to `v`.
    pub closed spec fn spec_set(self, v: P) -> Self {
        Coupler { primary: Some(v), ..self }
    }

    /// The cell after its secondary value is set to `v`.
    pub closed spec fn spec_set_second(self, v: S) -> Self {
        Coupler { second: Some(v), ..self }
    }

    /// What a non-blocking read gives, and the cell after it.
    pub closed spec fn spec_try_get(self) -> (Self, Result<(P, Option<S>)>) {
        if self.closed {
            (self, Err(Error::ChannelClosed))
        } else {
            match self.primary {
                Some(p) => (Coupler { primary: None, second: None, ..self }, Ok((p, self.second))),
                None => (self, Err(Error::ChannelEmpty)),
            }
        }
    }

    /// Creates an empty, open cell.
    pub fn new() -> (r: Self)
        ensures
            r.spec_primary() == None::<P>,
            r.spec_second() == None::<S>,
            !r.spec_closed(),
    {
        Coupler { primary: None, second: None, closed: false }
    }

    /// Closes the cell: every read fails from now on (all waiters are to be woken).
    pub fn close(&mut self)
        ensures
            final(self).spec_closed(),
            final(self).spec_primary() == old(self).spec_primary(),
            final(self).spec_second() == old(self).spec_second(),
    {
        self.closed = true;
    }

    /// Whether the cell is closed.
    pub fn is_closed(&self) -> (r: bool)
        ensures
            r == self.spec_closed(),
    {
        self.closed
    }

    /// Sets the primary value (one waiter is to be woken).
    pub fn set(&mut self, data: P)
        ensures
            *final(self) == old(self).spec_set(data),
    {
        self.primary = Some(data);
    }

    /// Sets the primary value and returns the previous one (one waiter is to be woken).
    pub fn replace(&mut self, data: P) -> (r: Option<P>)
        ensures
            r == old(self).spec_primary(),
            *final(self) == old(self).spec_set(data),
    {
        let prev = self.primary.take();
        self.primary = Some(data);
        prev
    }

    /// Sets the secondary value; nobody is woken.
    pub fn set_second(&mut self, data: S)
        ensures
            *final(self) == old(self).spec_set_second(data),
    {
        self.second = Some(data);
    }

    /// Sets the secondary value and returns the previous one; nobody is woken.
    pub fn replace_second(&mut self, data: S) -> (r: Option<S>)
        ensures
            r == old(self).spec_second(),
            *final(self) == old(self).spec_set_second(data),
    {
        let prev = self.second.take();
        self.second = Some(data);
        prev
    }

    /// Takes the primary value out with the secondary one, clearing both: `ChannelClosed` once
    /// closed, `ChannelEmpty` without a primary value (a blocking reader waits then).
    pub fn try_get(&mut self) -> (r: Result<(P, Option<S>)>)
        ensures
            (*final(self), r) == old(self).spec_try_get(),
    {
        if self.closed {
            return Err(Error::ChannelClosed);
        }
        match self.primary.take() {
            Some(p) => Ok((p, self.second.take())),
            None => Err(Error::ChannelEmpty),
        }
    }
}

impl<P, S> Default for Coupler<P, S> {
    fn default() -> (r: Self)
        ensures
            r.spec_primary() == None::<P>,
            r.spec_second() == None::<S>,
            !r.spec_closed(),
    {
        Coupler::new()
    }
}

/// A read gives the last primary value set, with the secondary value that stood beside it: a
/// later `set` replaces the primary value and keeps the secondary one until a read takes it.
pub proof fn lemma_coupler_set_then_get<P, S>(c: Coupler<P, S>, a: P, b: P)
    requires
        !c.spec_closed(),
    ensures
        c.spec_set(b).spec_try_get().1 == Ok::<(P, Option<S>), Error>((b, c.spec_second())),
        c.spec_set(a).spec_set(b).spec_try_get().1 == Ok::<(P, Option<S>), Error>(
            (b, c.spec_second()),
        ),
        c.spec_set(b).spec_try_get().0.spec_primary() == None::<P>,
        c.spec_set(b).spec_try_get().0.spec_second() == None::<S>,
{
}

/// Once closed, a cell refuses every read.
pub proof fn lemma_coupler_closed_refuses<P, S>(c: Coupler<P, S>)
    requires
        c.spec_closed(),
    ensures
        c.spec_try_get().1 == Err::<(P, Option<S>), Error>(Error::ChannelClosed),
{
}

} // verus!
