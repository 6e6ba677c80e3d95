use crate::base_channel::ChannelStorage;
use crate::data_policy::StorageTryPushOutput;
use std::collections::VecDeque;
use vstd::prelude::*;

verus! {

/// A bounded first-in, first-out queue: the storage of plain channels.
pub struct Fifo<T> {
    data: VecDeque<T>,
    capacity: usize,
}

impl<T> View for Fifo<T> {
    type V = Seq<T>;

    closed spec fn view(&self) -> Seq<T> {
        self.data@
    }
}

impl<T> Fifo<T> {
    /// The bound on the number of queued values.
    pub closed spec fn fifo_capacity(&self) -> nat {
        self.capacity as nat
    }

    /// Creates an empty queue.
    pub fn bounded(capacity: usize) -> (r: Self)
        ensures
            r@ == Seq::<T>::empty(),
            r.fifo_capacity() == capacity,
    {
        Fifo { data: VecDeque::with_capacity(capacity), capacity }
    }

    /// The capacity of the queue.
    pub fn capacity(&self) -> (r: usize)
        ensures
            r == self.fifo_capacity(),
    {
        self.capacity
    }
}

impl<T> ChannelStorage<T> for Fifo<T> {
    open spec fn storage_wf(&self) -> bool {
        self@.len() <= self.fifo_capacity()
    }

    open spec fn spec_len(&self) -> nat {
        self@.len()
    }

    open spec fn spec_capacity(&self) -> nat {
        self.fifo_capacity()
    }

    open spec fn spec_supports_ordering() -> bool {
        false
    }

    open spec fn spec_push(&self, v: T, after: Self, r: StorageTryPushOutput<T>) -> bool {
        if self@.len() < self.fifo_capacity() {
            r is Pushed && after@ == self@.push(v)
        } else {
            r == StorageTryPushOutput::Full(v) && after@ == self@
        }
    }

    open spec fn spec_get(&self, after: Self, r: Option<T>) -> bool {
        if self@.len() == 0 {
            r is None && after@ == self@
        } else {
            r == Some(self@[0]) && after@ == self@.skip(1)
        }
    }

    proof fn lemma_get_on_empty(&self, after: Self, r: Option<T>) {
    }

    fn with_capacity_and_ordering(capacity: usize, ordering: bool) -> (r: Self) {
        Fifo::bounded(capacity)
    }

    fn try_push(&mut self, value: T) -> (r: StorageTryPushOutput<T>) {
        if self.data.len() >= self.capacity {
            StorageTryPushOutput::Full(value)
        } else {
            self.data.push_back(value);
            StorageTryPushOutput::Pushed
        }
    }

    fn get(&mut self) -> (r: Option<T>) {
        let r = self.data.pop_front();
        proof {
            assert(self.data@ =~= old(self).data@.skip(1) || old(self).data@.len() == 0);
        }
        r
    }

    fn len(&self) -> (r: usize) {
        self.data.len()
    }

    fn is_full(&self) -> (r: bool) {
        self.data.len() == self.capacity
    }

    fn is_empty(&self) -> (r: bool) {
        self.data.len() == 0
    }
}

/// The values that a queue holds after `sent` were pushed in order, each finding room.
pub open spec fn pushed_all<T>(q: Seq<T>, sent: Seq<T>) -> Seq<T>
    decreases sent.len(),
{
    if sent.len() == 0 {
        q
    } else {
        pushed_all(q, sent.drop_last()).push(sent.last())
    }
}

/// Sent-then-received values keep their send order: values pushed one by one stand behind
/// the queued ones in the order they were sent, and retrievals take them from the front.
pub proof fn lemma_fifo_keeps_send_order<T>(q: Seq<T>, sent: Seq<T>)
    ensures
        pushed_all(q, sent) == q + sent,
    decreases sent.len(),
{
    if sent.len() > 0 {
        lemma_fifo_keeps_send_order(q, sent.drop_last());
        assert(q + sent =~= (q + sent.drop_last()).push(sent.last()));
    }
}

/// A value pushed into an empty queue with room is the one that the next retrieval hands out.
pub proof fn lemma_fifo_push_then_pop<T>(f: Fifo<T>, v: T, g: Fifo<T>, r: StorageTryPushOutput<T>, h: Fifo<T>, o: Option<T>)
    requires
        f@.len() == 0,
        f.fifo_capacity() >= 1,
        f.spec_push(v, g, r),
        g.spec_get(h, o),
    ensures
        r is Pushed,
        o == Some(v),
        h@.len() == 0,
{
}

} // verus!
