use std::collections::VecDeque;
use vstd::prelude::*;

verus! {

/// A capacity-limited buffer of data, for telemetry batches where loss under overload is the
/// desired policy. This is the state kept under the buffer's lock.
pub struct DataBuffer<T> {
    data: VecDeque<T>,
    capacity: usize,
    preallocated: bool,
}

impl<T> View for DataBuffer<T> {
    type V = Seq<T>;

    closed spec fn view(&self) -> Seq<T> {
        self.data@
    }
}

impl<T> DataBuffer<T> {
    /// The bound on the number of buffered values.
    pub closed spec fn spec_capacity(&self) -> nat {
        self.capacity as nat
    }

    /// Whether the storage is allocated up front, at creation and at each take.
    pub closed spec fn spec_preallocated(&self) -> bool {
        self.preallocated
    }

    /// The buffer's invariant.
    pub open spec fn wf(&self) -> bool {
        0 < self.spec_capacity() && self@.len() <= self.spec_capacity()
    }

    /// Creates an empty buffer, allocated as values come.
    pub fn bounded(capacity: usize) -> (r: Self)
        requires
            capacity > 0,
        ensures
            r.wf(),
            r@ == Seq::<T>::empty(),
            r.spec_capacity() == capacity,
            !r.spec_preallocated(),
    {
        DataBuffer { data: VecDeque::new(), capacity, preallocated: false }
    }

    /// Creates an empty buffer whose storage is allocated up front, and again at each take.
    pub fn bounded_prealloc(capacity: usize) -> (r: Self)
        requires
            capacity > 0,
        ensures
            r.wf(),
            r@ == Seq::<T>::empty(),
            r.spec_capacity() == capacity,
            r.spec_preallocated(),
    {
        DataBuffer { data: VecDeque::with_capacity(capacity), capacity, preallocated: true }
    }

    /// Appends the value if there is room; otherwise hands it back.
    pub fn try_push(&mut self, value: T) -> (r: Option<T>)
        requires
            old(self).wf(),
        ensures
            final(self).wf(),
            final(self).spec_capacity() == old(self).spec_capacity(),
            final(self).spec_preallocated() == old(self).spec_preallocated(),
            old(self)@.len() < old(self).spec_capacity() ==> r is None && final(self)@ == old(
                self,
            )@.push(value),
            old(self)@.len() >= old(self).spec_capacity() ==> r == Some(value) && final(self)@
                == old(self)@,
    {
        if self.data.len() >= self.capacity {
            return Some(value);
        }
        self.data.push_back(value);
        None
    }

    /// Appends the value, dropping the oldest one if there is no room; `true` when nothing was
    /// dropped.
    pub fn force_push(&mut self, value: T) -> (r: bool)
        requires
            old(self).wf(),
        ensures
            final(self).wf(),
            final(self).spec_capacity() == old(self).spec_capacity(),
            final(self).spec_preallocated() == old(self).spec_preallocated(),
            r == (old(self)@.len() < old(self).spec_capacity()),
            r ==> final(self)@ == old(self)@.push(value),
            !r ==> final(self)@ == old(self)@.skip(1).push(value),
    {
        let mut res = true;
        if self.data.len() >= self.capacity {
            self.data.pop_front();
            res = false;
        }
        self.data.push_back(value);
        res
    }

    /// The number of buffered values.
    pub fn len(&self) -> (r: usize)
        ensures
            r == self@.len(),
    {
        self.data.len()
    }

    /// Whether no value is buffered.
    pub fn is_empty(&self) -> (r: bool)
        ensures
            r == (self@.len() == 0),
    {
        self.data.len() == 0
    }

    /// Takes the buffered values out, leaving the buffer empty.
    pub fn take(&mut self) -> (r: VecDeque<T>)
        requires
            old(self).wf(),
        ensures
            final(self).wf(),
            r@ == old(self)@,
            final(self)@ == Seq::<T>::empty(),
            final(self).spec_capacity() == old(self).spec_capacity(),
            final(self).spec_preallocated() == old(self).spec_preallocated(),
    {
        let mut fresh = if self.preallocated {
            VecDeque::with_capacity(self.capacity)
        } else {
            VecDeque::new()
        };
        core::mem::swap(&mut self.data, &mut fresh);
        fresh
    }
}

} // verus!
