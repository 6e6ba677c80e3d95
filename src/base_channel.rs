use crate::data_policy::StorageTryPushOutput;
use crate::error::{Error, Result};
use vstd::prelude::*;

verus! {

/// A bounded queue that a channel can be built on.
pub trait ChannelStorage<T>: Sized {
    /// The storage's invariant.
    spec fn storage_wf(&self) -> bool;

    /// The number of stored values.
    spec fn spec_len(&self) -> nat;

    /// The bound on the number of stored values.
    spec fn spec_capacity(&self) -> nat;

    /// Whether the storage can keep its values ordered by priority.
    spec fn spec_supports_ordering() -> bool;

    /// The storage's admission rule: offered `v`, `self` becomes `after` and the attempt gives
    /// `r`.
    spec fn spec_push(&self, v: T, after: Self, r: StorageTryPushOutput<T>) -> bool;

    /// The storage's retrieval rule: `self` becomes `after` and hands out `r`.
    spec fn spec_get(&self, after: Self, r: Option<T>) -> bool;

    /// An empty storage hands out nothing.
    proof fn lemma_get_on_empty(&self, after: Self, r: Option<T>)
        requires
            self.spec_len() == 0,
            self.spec_get(after, r),
        ensures
            r is None,
    ;

    /// Creates an empty storage.
    fn with_capacity_and_ordering(capacity: usize, ordering: bool) -> (r: Self)
        requires
            capacity > 0,
            ordering ==> Self::spec_supports_ordering(),
        ensures
            r.storage_wf(),
            r.spec_len() == 0,
            r.spec_capacity() == capacity,
    ;

    /// Tries to store a value; a value that finds no room is handed back as it came.
    fn try_push(&mut self, value: T) -> (r: StorageTryPushOutput<T>)
        requires
            old(self).storage_wf(),
        ensures
            final(self).storage_wf(),
            final(self).spec_capacity() == old(self).spec_capacity(),
            old(self).spec_push(value, *final(self), r),
            r is Full ==> r == StorageTryPushOutput::Full(value),
    ;

    /// Takes the next value out; nothing comes out exactly when nothing deliverable is left.
    fn get(&mut self) -> (r: Option<T>)
        requires
            old(self).storage_wf(),
        ensures
            final(self).storage_wf(),
            final(self).spec_capacity() == old(self).spec_capacity(),
            old(self).spec_get(*final(self), r),
            old(self).spec_len() == 0 ==> r is None,
            r is None ==> final(self).spec_len() == 0,
    ;

    /// The number of stored values.
    fn len(&self) -> (r: usize)
        ensures
            r == self.spec_len(),
    ;

    /// Whether the storage is at its capacity.
    fn is_full(&self) -> (r: bool)
        ensures
            r == (self.spec_len() == self.spec_capacity()),
    ;

    /// Whether the storage holds no value.
    fn is_empty(&self) -> (r: bool)
        ensures
            r == (self.spec_len() == 0),
    ;
}

/// A data channel or hub, as its users see one end of it.
pub trait DataChannel<T: Sized> {
    /// Sends a value to the channel.
    fn send(&self, value: T) -> Result<()>;

    /// Tries to send a value to the channel (non-blocking).
    fn try_send(&self, value: T) -> Result<()>;

    /// Receives a value from the channel.
    fn recv(&self) -> Result<T>;

    /// Tries to receive a value from the channel (non-blocking).
    fn try_recv(&self) -> Result<T>;

    /// Whether the other end of the channel is still there.
    fn is_alive(&self) -> bool;
}

/// One step of a blocking send, taken under the channel's lock.
pub enum SendStep<T> {
    /// The send is over with this result; on `Ok` one waiting receiver is to be woken.
    Done(Result<()>),
    /// No room: the value comes back and the sender waits for space.
    Wait(T),
}

/// The state a bounded channel keeps under its lock: the queue and the number of handles of
/// each side. The decisions of sending and receiving are taken here; the lock, the waiting and
/// the waking are left to the caller.
pub struct ChannelState<T, S: ChannelStorage<T>> {
    queue: S,
    senders: usize,
    receivers: usize,
    _value: core::marker::PhantomData<T>,
}

impl<T, S: ChannelStorage<T>> ChannelState<T, S> {
    /// The queue.
    pub closed spec fn spec_queue(&self) -> S {
        self.queue
    }

    /// The number of sender handles.
    pub closed spec fn spec_senders(&self) -> nat {
        self.senders as nat
    }

    /// The number of receiver handles.
    pub closed spec fn spec_receivers(&self) -> nat {
        self.receivers as nat
    }

    /// The channel's invariant.
    pub open spec fn wf(&self) -> bool {
        self.spec_queue().storage_wf()
    }

    /// Creates the state of a new channel with one sender and one receiver.
    pub fn new(capacity: usize, ordering: bool) -> (r: Self)
        requires
            capacity > 0,
            ordering ==> S::spec_supports_ordering(),
        ensures
            r.wf(),
            r.spec_queue().spec_len() == 0,
            r.spec_queue().spec_capacity() == capacity,
            r.spec_senders() == 1,
            r.spec_receivers() == 1,
    {
        ChannelState {
            queue: S::with_capacity_and_ordering(capacity, ordering),
            senders: 1,
            receivers: 1,
            _value: core::marker::PhantomData,
        }
    }

    /// The attempt of a non-blocking send: `ChannelClosed` without receivers, otherwise what
    /// the queue's admission gives (`Ok` on a push, after which one receiver is to be woken).
    pub fn try_send(&mut self, value: T) -> (r: Result<()>)
        requires
            old(self).wf(),
        ensures
            final(self).wf(),
            final(self).spec_senders() == old(self).spec_senders(),
            final(self).spec_receivers() == old(self).spec_receivers(),
            old(self).spec_receivers() == 0 ==> r == Err::<(), Error>(Error::ChannelClosed)
                && final(self).spec_queue() == old(self).spec_queue(),
            old(self).spec_receivers() > 0 ==> exists|o: StorageTryPushOutput<T>|
                #[trigger] old(self).spec_queue().spec_push(value, final(self).spec_queue(), o)
                    && r == push_result(o, Error::ChannelFull),
    {
        if self.receivers == 0 {
            return Err(Error::ChannelClosed);
        }
        let o = self.queue.try_push(value);
        proof {
            assert(old(self).spec_queue().spec_push(value, self.queue, o));
        }
        match o {
            StorageTryPushOutput::Pushed => Ok(()),
            StorageTryPushOutput::Skipped => Err(Error::ChannelSkipped),
            StorageTryPushOutput::Full(_) => Err(Error::ChannelFull),
        }
    }

    /// One step of a blocking send: like [`ChannelState::try_send`], but a value that finds no
    /// room comes back to wait with.
    pub fn send_step(&mut self, value: T) -> (r: SendStep<T>)
        requires
            old(self).wf(),
        ensures
            final(self).wf(),
            final(self).spec_senders() == old(self).spec_senders(),
            final(self).spec_receivers() == old(self).spec_receivers(),
            old(self).spec_receivers() == 0 ==> r == SendStep::<T>::Done(
                Err(Error::ChannelClosed),
            ) && final(self).spec_queue() == old(self).spec_queue(),
            old(self).spec_receivers() > 0 ==> exists|o: StorageTryPushOutput<T>|
                #[trigger] old(self).spec_queue().spec_push(value, final(self).spec_queue(), o)
                    && match o {
                    StorageTryPushOutput::Full(_) => r == SendStep::<T>::Wait(value),
                    _ => r == SendStep::<T>::Done(push_result(o, Error::ChannelFull)),
                },
    {
        if self.receivers == 0 {
            return SendStep::Done(Err(Error::ChannelClosed));
        }
        let o = self.queue.try_push(value);
        proof {
            assert(old(self).spec_queue().spec_push(value, self.queue, o));
        }
        match o {
            StorageTryPushOutput::Pushed => SendStep::Done(Ok(())),
            StorageTryPushOutput::Skipped => SendStep::Done(Err(Error::ChannelSkipped)),
            StorageTryPushOutput::Full(v) => SendStep::Wait(v),
        }
    }

    /// The attempt of a non-blocking receive: the next value (after which one sender is to be
    /// woken), else `ChannelClosed` without senders, else `ChannelEmpty` (a blocking receiver
    /// waits).
    pub fn try_recv(&mut self) -> (r: Result<T>)
        requires
            old(self).wf(),
        ensures
            final(self).wf(),
            final(self).spec_senders() == old(self).spec_senders(),
            final(self).spec_receivers() == old(self).spec_receivers(),
            exists|o: Option<T>|
                #[trigger] old(self).spec_queue().spec_get(final(self).spec_queue(), o) && r
                    == recv_result(o, old(self).spec_senders()),
            old(self).spec_queue().spec_len() == 0 && old(self).spec_senders() == 0 ==> r == Err::<
                T,
                Error,
            >(Error::ChannelClosed),
            old(self).spec_queue().spec_len() == 0 && old(self).spec_senders() > 0 ==> r == Err::<
                T,
                Error,
            >(Error::ChannelEmpty),
    {
        let o = self.queue.get();
        let ghost go = o;
        let r = match o {
            Some(v) => Ok(v),
            None => if self.senders == 0 {
                Err(Error::ChannelClosed)
            } else {
                Err(Error::ChannelEmpty)
            },
        };
        proof {
            assert(old(self).spec_queue().spec_get(self.spec_queue(), go));
        }
        r
    }

    /// Counts one more sender handle.
    pub fn add_sender(&mut self)
        requires
            old(self).spec_senders() < usize::MAX,
        ensures
            final(self).spec_senders() == old(self).spec_senders() + 1,
            final(self).spec_receivers() == old(self).spec_receivers(),
            final(self).spec_queue() == old(self).spec_queue(),
    {
        self.senders += 1;
    }

    /// Counts one sender handle less; `true` when it was the last one, after which every
    /// waiting receiver is to be woken.
    pub fn remove_sender(&mut self) -> (r: bool)
        requires
            old(self).spec_senders() > 0,
        ensures
            final(self).spec_senders() == old(self).spec_senders() - 1,
            final(self).spec_receivers() == old(self).spec_receivers(),
            final(self).spec_queue() == old(self).spec_queue(),
            r == (final(self).spec_senders() == 0),
    {
        self.senders -= 1;
        self.senders == 0
    }

    /// Counts one more receiver handle.
    pub fn add_receiver(&mut self)
        requires
            old(self).spec_receivers() < usize::MAX,
        ensures
            final(self).spec_receivers() == old(self).spec_receivers() + 1,
            final(self).spec_senders() == old(self).spec_senders(),
            final(self).spec_queue() == old(self).spec_queue(),
    {
        self.receivers += 1;
    }

    /// Counts one receiver handle less; `true` when it was the last one, after which every
    /// waiting sender is to be woken.
    pub fn remove_receiver(&mut self) -> (r: bool)
        requires
            old(self).spec_receivers() > 0,
        ensures
            final(self).spec_receivers() == old(self).spec_receivers() - 1,
            final(self).spec_senders() == old(self).spec_senders(),
            final(self).spec_queue() == old(self).spec_queue(),
            r == (final(self).spec_receivers() == 0),
    {
        self.receivers -= 1;
        self.receivers == 0
    }

    /// The number of sender handles.
    pub fn senders(&self) -> (r: usize)
        ensures
            r == self.spec_senders(),
    {
        self.senders
    }

    /// The number of receiver handles.
    pub fn receivers(&self) -> (r: usize)
        ensures
            r == self.spec_receivers(),
    {
        self.receivers
    }

    /// The number of queued values.
    pub fn len(&self) -> (r: usize)
        ensures
            r == self.spec_queue().spec_len(),
    {
        self.queue.len()
    }

    /// Whether the queue is at its capacity.
    pub fn is_full(&self) -> (r: bool)
        ensures
            r == (self.spec_queue().spec_len() == self.spec_queue().spec_capacity()),
    {
        self.queue.is_full()
    }

    /// Whether the queue is empty.
    pub fn is_empty(&self) -> (r: bool)
        ensures
            r == (self.spec_queue().spec_len() == 0),
    {
        self.queue.is_empty()
    }
}

/// What a receive reports for a retrieval outcome, with `senders` sender handles left.
pub open spec fn recv_result<T>(o: Option<T>, senders: nat) -> Result<T> {
    match o {
        Some(v) => Ok(v),
        None => if senders == 0 {
            Err(Error::ChannelClosed)
        } else {
            Err(Error::ChannelEmpty)
        },
    }
}

/// What a send reports for an admission outcome; `full` is the error for a value that found no
/// room.
pub open spec fn push_result<T>(o: StorageTryPushOutput<T>, full: Error) -> Result<()> {
    match o {
        StorageTryPushOutput::Pushed => Ok(()),
        StorageTryPushOutput::Skipped => Err(Error::ChannelSkipped),
        StorageTryPushOutput::Full(_) => Err(full),
    }
}

/// Once the last sender is gone, a receiver that finds the queue empty is told that the channel
/// is closed, and so is every receiver that was waiting (they are all woken).
pub proof fn lemma_no_senders_closes<T, S: ChannelStorage<T>>(
    st: ChannelState<T, S>,
    after: ChannelState<T, S>,
    r: Result<T>,
)
    requires
        st.spec_senders() == 0,
        st.spec_queue().spec_len() == 0,
        exists|o: Option<T>|
            #[trigger] st.spec_queue().spec_get(after.spec_queue(), o) && r == recv_result(
                o,
                st.spec_senders(),
            ),
    ensures
        r == Err::<T, Error>(Error::ChannelClosed),
{
    let o = choose|o: Option<T>|
        #[trigger] st.spec_queue().spec_get(after.spec_queue(), o) && r == recv_result(
            o,
            st.spec_senders(),
        );
    st.spec_queue().lemma_get_on_empty(after.spec_queue(), o);
}

} // verus!
