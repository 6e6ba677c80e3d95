use crate::base_channel::ChannelStorage;
use crate::data_policy::{DataDeliveryPolicy, StorageTryPushOutput};
use crate::pdeque::{admits, pop_live, Deque};
use vstd::prelude::*;

verus! {

impl<T: DataDeliveryPolicy> ChannelStorage<T> for Deque<T> {
    open spec fn storage_wf(&self) -> bool {
        self.wf()
    }

    open spec fn spec_len(&self) -> nat {
        self@.len()
    }

    open spec fn spec_capacity(&self) -> nat {
        self.spec_capacity()
    }

    open spec fn spec_supports_ordering() -> bool {
        true
    }

    open spec fn spec_push(&self, v: T, after: Self, r: StorageTryPushOutput<T>) -> bool {
        admits(self@, self.spec_capacity(), self.spec_ordered(), v, after@, r)
            && after.spec_ordered() == self.spec_ordered()
    }

    open spec fn spec_get(&self, after: Self, r: Option<T>) -> bool {
        (r, after@) == pop_live(self@) && after.spec_ordered() == self.spec_ordered()
    }

    proof fn lemma_get_on_empty(&self, after: Self, r: Option<T>) {
    }

    fn with_capacity_and_ordering(capacity: usize, ordering: bool) -> (r: Self) {
        Deque::bounded(capacity).set_ordering(ordering)
    }

    fn try_push(&mut self, value: T) -> (r: StorageTryPushOutput<T>) {
        Deque::try_push(self, value)
    }

    fn get(&mut self) -> (r: Option<T>) {
        Deque::get(self)
    }

    fn len(&self) -> (r: usize) {
        Deque::len(self)
    }

    fn is_full(&self) -> (r: bool) {
        Deque::is_full(self)
    }

    fn is_empty(&self) -> (r: bool) {
        Deque::is_empty(self)
    }
}

} // verus!
