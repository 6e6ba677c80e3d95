use crate::base_channel::{push_result, ChannelStorage};
use crate::data_policy::StorageTryPushOutput;
use crate::error::{Error, Result};
use std::collections::{BTreeSet, VecDeque};
use vstd::prelude::*;

verus! {

broadcast use vstd::laws_cmp::group_laws_cmp;

/// A queued waiter: an asynchronous operation's waker `W` with the operation's identifier, or
/// `None` for a blocking caller that parks on a condition variable.
pub type Waiter<W> = Option<(W, usize)>;

/// The identifier of the operation that a waiter is, or -1 for a blocking caller.
pub open spec fn op_of<W>(e: Waiter<W>) -> int {
    match e {
        Some((_, i)) => i as int,
        None => -1,
    }
}

/// Whether the waiter is the asynchronous operation `id`.
pub open spec fn is_op<W>(e: Waiter<W>, id: usize) -> bool {
    op_of(e) == id
}

/// Whether no two queued waiters are the same operation.
pub open spec fn unique_ops<W>(s: Seq<Waiter<W>>) -> bool {
    forall|i: int, j: int|
        0 <= i < s.len() && 0 <= j < s.len() && op_of(#[trigger] s[i]) >= 0 && op_of(s[i])
            == op_of(#[trigger] s[j]) ==> i == j
}

/// The identifiers of the queued asynchronous operations.
pub open spec fn queued_ops<W>(s: Seq<Waiter<W>>) -> Set<usize> {
    Set::new(|id: usize| exists|i: int| 0 <= i < s.len() && is_op(#[trigger] s[i], id))
}

/// The position of operation `id` among the waiters, or -1.
pub open spec fn position_of<W>(s: Seq<Waiter<W>>, id: usize) -> int
    decreases s.len(),
{
    if s.len() == 0 {
        -1
    } else if is_op(s[0], id) {
        0
    } else {
        let k = position_of(s.skip(1), id);
        if k < 0 {
            -1
        } else {
            k + 1
        }
    }
}

/// The wakers of the asynchronous waiters, in their order.
pub open spec fn wakers_of<W>(s: Seq<Waiter<W>>) -> Seq<W>
    decreases s.len(),
{
    if s.len() == 0 {
        Seq::empty()
    } else {
        match s.last() {
            Some((w, _)) => wakers_of(s.drop_last()).push(w),
            None => wakers_of(s.drop_last()),
        }
    }
}

/// Whom a wake reaches.
pub enum Wake<W> {
    /// Nobody was waiting.
    Nobody,
    /// A blocking caller: the condition variable is to be notified once.
    Blocked,
    /// An asynchronous operation: this waker is to be woken.
    Waker(W),
}

/// The abstract state of a waiter queue: the waiters in order, and the operations that were
/// woken but have not polled again yet.
pub struct WaitersView<W> {
    pub entries: Seq<Waiter<W>>,
    pub pending: Set<usize>,
}

/// Waking the first waiter: it leaves the queue and, if it is an asynchronous operation, stays
/// pending until it polls.
pub open spec fn wake_next_spec<W>(v: WaitersView<W>) -> (WaitersView<W>, Wake<W>) {
    if v.entries.len() == 0 {
        (v, Wake::Nobody)
    } else {
        match v.entries[0] {
            Some((w, id)) => (
                WaitersView { entries: v.entries.skip(1), pending: v.pending.insert(id) },
                Wake::Waker(w),
            ),
            None => (WaitersView { entries: v.entries.skip(1), pending: v.pending }, Wake::Blocked),
        }
    }
}

/// Dropping operation `id`: its queued entry leaves; if it had been woken and not polled, the
/// wake it was given passes on to the next waiter.
pub open spec fn drop_spec<W>(v: WaitersView<W>, id: usize) -> (WaitersView<W>, Wake<W>) {
    let k = position_of(v.entries, id);
    let entries = if k >= 0 {
        v.entries.remove(k)
    } else {
        v.entries
    };
    if v.pending.contains(id) {
        wake_next_spec(WaitersView { entries, pending: v.pending.remove(id) })
    } else {
        (WaitersView { entries, pending: v.pending }, Wake::Nobody)
    }
}

/// The queue of the waiters of one role (senders or receivers) of an asynchronous channel, in
/// their order of arrival.
pub struct WaiterQueue<W> {
    entries: VecDeque<Waiter<W>>,
    ids: BTreeSet<usize>,
    pending: BTreeSet<usize>,
}

impl<W> View for WaiterQueue<W> {
    type V = WaitersView<W>;

    closed spec fn view(&self) -> WaitersView<W> {
        WaitersView { entries: self.entries@, pending: self.pending@ }
    }
}

impl<W> WaiterQueue<W> {
    /// The invariant: each operation waits at most once, and the set of queued identifiers is
    /// exact.
    pub closed spec fn wf(&self) -> bool {
        &&& unique_ops(self.entries@)
        &&& self.ids@ == queued_ops(self.entries@)
    }

    /// Creates an empty queue.
    pub fn new() -> (r: Self)
        ensures
            r.wf(),
            r@.entries == Seq::<Waiter<W>>::empty(),
            r@.pending == Set::<usize>::empty(),
    {
        let r = WaiterQueue { entries: VecDeque::new(), ids: BTreeSet::new(), pending: BTreeSet::new() };
        proof {
            assert(queued_ops(r.entries@) =~= Set::<usize>::empty());
        }
        r
    }

    /// Whether nobody waits.
    pub fn is_empty(&self) -> (r: bool)
        ensures
            r == (self@.entries.len() == 0),
    {
        self.entries.len() == 0
    }

    /// Queues the waker of operation `id`, unless the operation already waits (a re-poll).
    pub fn append_waker(&mut self, waker: W, id: usize)
        requires
            old(self).wf(),
        ensures
            final(self).wf(),
            final(self)@.pending == old(self)@.pending,
            queued_ops(old(self)@.entries).contains(id) ==> final(self)@.entries == old(self)@.entries,
            !queued_ops(old(self)@.entries).contains(id) ==> final(self)@.entries == old(self)@.entries.push(Some((waker, id))),
    {
        let ghost ids_before = self.ids@;
        proof {
            assert(vstd::laws_cmp::obeys_cmp::<usize>());
        }
        if self.ids.insert(id) {
            let ghost before = self.entries@;
            self.entries.push_back(Some((waker, id)));
            proof {
                let s = self.entries@;
                assert forall|i: int| 0 <= i < before.len() implies s[i] == before[i] by {}
                assert(!queued_ops(before).contains(id));
                assert(unique_ops(s)) by {
                    assert forall|i: int, j: int|
                        0 <= i < s.len() && 0 <= j < s.len() && op_of(#[trigger] s[i]) >= 0
                            && op_of(s[i]) == op_of(#[trigger] s[j]) implies i == j by {
                        if i < before.len() && j == before.len() {
                            assert(s[i] == before[i]);
                            assert(is_op(before[i], id));
                            assert(queued_ops(before).contains(id));
                        } else if j < before.len() && i == before.len() {
                            assert(s[j] == before[j]);
                            assert(is_op(before[j], id));
                            assert(queued_ops(before).contains(id));
                        } else if i < before.len() && j < before.len() {
                            assert(s[i] == before[i] && s[j] == before[j]);
                        }
                    }
                }
                assert(queued_ops(s) =~= queued_ops(before).insert(id)) by {
                    assert(is_op(s[before.len() as int], id));
                    assert forall|x: usize| queued_ops(s).contains(x) implies queued_ops(
                        before,
                    ).insert(id).contains(x) by {
                        let i = choose|i: int| 0 <= i < s.len() && is_op(#[trigger] s[i], x);
                        if i < before.len() {
                            assert(is_op(before[i], x));
                        }
                    }
                    assert forall|x: usize| queued_ops(before).contains(x) implies queued_ops(
                        s,
                    ).contains(x) by {
                        let i = choose|i: int| 0 <= i < before.len() && is_op(#[trigger] before[i], x);
                        assert(is_op(s[i], x));
                    }
                }
            }
        } else {
            proof {
                assert(self.ids@ =~= ids_before);
            }
        }
    }

    /// Queues a blocking caller, which parks on the condition variable.
    pub fn append_blocked(&mut self)
        requires
            old(self).wf(),
        ensures
            final(self).wf(),
            final(self)@.pending == old(self)@.pending,
            final(self)@.entries == old(self)@.entries.push(None),
    {
        let ghost before = self.entries@;
        self.entries.push_back(None);
        proof {
            let s = self.entries@;
            assert forall|i: int| 0 <= i < before.len() implies s[i] == before[i] by {}
            assert(unique_ops(s)) by {
                assert forall|i: int, j: int|
                    0 <= i < s.len() && 0 <= j < s.len() && op_of(#[trigger] s[i]) >= 0 && op_of(
                        s[i],
                    ) == op_of(#[trigger] s[j]) implies i == j by {
                    assert(i < before.len() && j < before.len());
                    assert(s[i] == before[i] && s[j] == before[j]);
                }
            }
            assert(queued_ops(s) =~= queued_ops(before)) by {
                assert forall|x: usize| queued_ops(s).contains(x) implies queued_ops(
                    before,
                ).contains(x) by {
                    let i = choose|i: int| 0 <= i < s.len() && is_op(#[trigger] s[i], x);
                    assert(is_op(before[i], x));
                }
                assert forall|x: usize| queued_ops(before).contains(x) implies queued_ops(
                    s,
                ).contains(x) by {
                    let i = choose|i: int| 0 <= i < before.len() && is_op(#[trigger] before[i], x);
                    assert(is_op(s[i], x));
                }
            }
        }
    }

    /// Records that operation `id` polled again after its wake.
    pub fn confirm_waked(&mut self, id: usize)
        requires
            old(self).wf(),
        ensures
            final(self).wf(),
            final(self)@.entries == old(self)@.entries,
            final(self)@.pending == old(self)@.pending.remove(id),
    {
        self.pending.remove(&id);
    }

    /// Wakes the first waiter, which leaves the queue.
    pub fn wake_next(&mut self) -> (r: Wake<W>)
        requires
            old(self).wf(),
        ensures
            final(self).wf(),
            (final(self)@, r) == wake_next_spec(old(self)@),
    {
        let ghost before = self.entries@;
        match self.entries.pop_front() {
            None => Wake::Nobody,
            Some(e) => {
                proof {
                    lemma_skip_first(before);
                }
                match e {
                    Some((w, id)) => {
                        self.ids.remove(&id);
                        self.pending.insert(id);
                        proof {
                            assert(is_op(before[0], id));
                            assert(queued_ops(self.entries@) =~= queued_ops(before).remove(id)) by {
                                assert forall|x: usize| queued_ops(before).remove(id).contains(x) implies queued_ops(
                                    self.entries@,
                                ).contains(x) by {
                                    let i = choose|i: int| 0 <= i < before.len() && is_op(#[trigger] before[i], x);
                                    assert(i != 0);
                                    assert(is_op(self.entries@[i - 1], x));
                                }
                                assert forall|x: usize| queued_ops(self.entries@).contains(x) implies queued_ops(
                                    before,
                                ).remove(id).contains(x) by {
                                    let i = choose|i: int| 0 <= i < self.entries@.len() && is_op(#[trigger] self.entries@[i], x);
                                    assert(is_op(before[i + 1], x));
                                    if x == id {
                                        assert(i + 1 == 0);
                                    }
                                }
                            }
                        }
                        Wake::Waker(w)
                    },
                    None => {
                        proof {
                            assert(queued_ops(self.entries@) =~= queued_ops(before)) by {
                                assert forall|x: usize| queued_ops(before).contains(x) implies queued_ops(
                                    self.entries@,
                                ).contains(x) by {
                                    let i = choose|i: int| 0 <= i < before.len() && is_op(#[trigger] before[i], x);
                                    assert(i != 0);
                                    assert(is_op(self.entries@[i - 1], x));
                                }
                                assert forall|x: usize| queued_ops(self.entries@).contains(x) implies queued_ops(
                                    before,
                                ).contains(x) by {
                                    let i = choose|i: int| 0 <= i < self.entries@.len() && is_op(#[trigger] self.entries@[i], x);
                                    assert(is_op(before[i + 1], x));
                                }
                            }
                        }
                        Wake::Blocked
                    },
                }
            },
        }
    }

    /// Takes every waiter out of the queue (the channel's other side is gone); the wakers of
    /// the asynchronous ones come back to be woken, and all blocking callers are to be notified.
    pub fn wake_all(&mut self) -> (r: Vec<W>)
        requires
            old(self).wf(),
        ensures
            final(self).wf(),
            final(self)@.entries == Seq::<Waiter<W>>::empty(),
            final(self)@.pending == old(self)@.pending,
            r@ == wakers_of(old(self)@.entries),
    {
        let mut wakers: Vec<W> = Vec::new();
        let ghost orig = self.entries@;
        let ghost mut k: int = 0;
        while self.entries.len() > 0
            invariant
                0 <= k <= orig.len(),
                self.entries@ == orig.skip(k),
                self.pending@ == old(self).pending@,
                wakers@ == wakers_of(orig.take(k)),
            decreases self.entries@.len(),
        {
            let e = self.entries.pop_front();
            proof {
                assert(orig.take(k + 1).drop_last() =~= orig.take(k));
                assert(orig.skip(k + 1) =~= orig.skip(k).skip(1));
                assert(orig.take(k + 1).last() == orig[k]);
            }
            match e {
                Some(Some((w, _))) => {
                    wakers.push(w);
                },
                _ => {},
            }
            proof {
                k = k + 1;
            }
        }
        proof {
            assert(orig.take(k) =~= orig);
        }
        self.ids.clear();
        proof {
            assert(queued_ops(self.entries@) =~= Set::<usize>::empty());
        }
        wakers
    }

    /// Forgets operation `id`, whose future was dropped: its queued entry leaves, and if it had
    /// been woken but not polled, its wake passes on to the next waiter.
    pub fn notify_drop(&mut self, id: usize) -> (r: Wake<W>)
        requires
            old(self).wf(),
        ensures
            final(self).wf(),
            (final(self)@, r) == drop_spec(old(self)@, id),
    {
        let ghost before = self.entries@;
        let mut i: usize = 0;
        let mut found = false;
        while i < self.entries.len() && !found
            invariant
                self.entries@ == before,
                self.wf(),
                self.pending@ == old(self).pending@,
                self.ids@ == old(self).ids@,
                i <= before.len(),
                found ==> i < before.len() && is_op(before[i as int], id),
                forall|j: int| 0 <= j < i ==> !is_op(#[trigger] before[j], id),
            decreases before.len() - i + (if found { 0int } else { 1 }),
        {
            let hit = match &self.entries[i] {
                Some((_, x)) => *x == id,
                None => false,
            };
            if hit {
                found = true;
            } else {
                i += 1;
            }
        }
        proof {
            lemma_position_of(before, id, i as int);
        }
        if found {
            self.entries.remove(i);
            self.ids.remove(&id);
            proof {
                lemma_remove_op(before, i as int, id);
            }
        }
        let ghost pending_before = self.pending@;
        if self.pending.remove(&id) {
            self.wake_next()
        } else {
            proof {
                assert(self.pending@ =~= pending_before);
            }
            Wake::Nobody
        }
    }
}

/// The waiters after operation `id` (re)queues its waker `w`; a re-poll adds no second entry.
pub open spec fn append_spec<W>(v: WaitersView<W>, w: W, id: usize) -> WaitersView<W> {
    if queued_ops(v.entries).contains(id) {
        v
    } else {
        WaitersView { entries: v.entries.push(Some((w, id))), pending: v.pending }
    }
}

/// The waiters once operation `id` polls again: if it was queued for a wake, it no longer is
/// pending.
pub open spec fn confirm_spec<W>(v: WaitersView<W>, id: usize, queued: bool) -> WaitersView<W> {
    if queued {
        WaitersView { entries: v.entries, pending: v.pending.remove(id) }
    } else {
        v
    }
}

/// What polling a send future or taking a blocking send step gives.
pub enum SendPoll<T, W> {
    /// The send is over with this result; the wake reaches a waiting receiver.
    Ready(Result<()>, Wake<W>),
    /// The send must wait: the value comes back to be offered on the next poll.
    Pending(T),
}

/// What polling a receive future or taking a blocking receive step gives.
pub enum RecvPoll<T, W> {
    /// The receive is over with this result; the wake reaches a waiting sender.
    Ready(Result<T>, Wake<W>),
    /// The receive must wait.
    Pending,
}

/// The state an asynchronous bounded channel keeps under its lock: the queue, the number of
/// handles of each side, and the waiters of each side, both futures (whose wakers are `W`) and
/// blocking callers. Polls and blocking steps are decided here; the lock, the parking and the
/// waking are left to the caller.
pub struct AsyncChannelState<T, S: ChannelStorage<T>, W> {
    queue: S,
    senders: usize,
    receivers: usize,
    send_waiters: WaiterQueue<W>,
    recv_waiters: WaiterQueue<W>,
    _value: core::marker::PhantomData<T>,
}

impl<T, S: ChannelStorage<T>, W> AsyncChannelState<T, S, W> {
    /// The queue.
    pub closed spec fn spec_queue(&self) -> S {
        self.queue
    }

    /// The number of sender handles.
    pub closed spec fn spec_senders(&self) -> nat {
        self.senders as nat
    }

    /// The number of receiver handles.
    pub closed spec fn spec_receivers(&self) -> nat {
        self.receivers as nat
    }

    /// The waiting senders.
    pub closed spec fn spec_send_waiters(&self) -> WaitersView<W> {
        self.send_waiters@
    }

    /// The waiting receivers.
    pub closed spec fn spec_recv_waiters(&self) -> WaitersView<W> {
        self.recv_waiters@
    }

    /// The channel's invariant.
    pub closed spec fn wf(&self) -> bool {
        &&& self.queue.storage_wf()
        &&& self.send_waiters.wf()
        &&& self.recv_waiters.wf()
    }

    /// Creates the state of a new channel with one sender, one receiver and nobody waiting.
    pub fn new(capacity: usize, ordering: bool) -> (r: Self)
        requires
            capacity > 0,
            ordering ==> S::spec_supports_ordering(),
        ensures
            r.wf(),
            r.spec_queue().spec_len() == 0,
            r.spec_queue().spec_capacity() == capacity,
            r.spec_senders() == 1,
            r.spec_receivers() == 1,
            r.spec_send_waiters().entries.len() == 0,
            r.spec_recv_waiters().entries.len() == 0,
    {
        AsyncChannelState {
            queue: S::with_capacity_and_ordering(capacity, ordering),
            senders: 1,
            receivers: 1,
            send_waiters: WaiterQueue::new(),
            recv_waiters: WaiterQueue::new(),
            _value: core::marker::PhantomData,
        }
    }

    /// Polls the send future `id`, which offers `value` and was `queued` for a wake before.
    /// Without receivers it fails with `ChannelClosed`. It may push only when no earlier sender
    /// waits or it is the one woken; a push wakes one receiver. Otherwise its waker queues (once)
    /// and the value comes back.
    pub fn poll_send(&mut self, id: usize, queued: bool, value: T, waker: W) -> (r: SendPoll<T, W>)
        requires
            old(self).wf(),
        ensures
            final(self).wf(),
            final(self).spec_senders() == old(self).spec_senders(),
            final(self).spec_receivers() == old(self).spec_receivers(),
            ({
                let sw = confirm_spec(old(self).spec_send_waiters(), id, queued);
                if old(self).spec_receivers() == 0 {
                    &&& (r matches SendPoll::Ready(Err(Error::ChannelClosed), Wake::Nobody))
                    &&& final(self).spec_queue() == old(self).spec_queue()
                    &&& final(self).spec_send_waiters() == sw
                    &&& final(self).spec_recv_waiters() == old(self).spec_recv_waiters()
                } else if old(self).spec_send_waiters().entries.len() == 0 || queued {
                    exists|o: StorageTryPushOutput<T>|
                        #[trigger] old(self).spec_queue().spec_push(
                            value,
                            final(self).spec_queue(),
                            o,
                        ) && match o {
                            StorageTryPushOutput::Pushed => r == SendPoll::<T, W>::Ready(Ok(()), wake_next_spec(old(self).spec_recv_waiters()).1) && final(self).spec_recv_waiters() == wake_next_spec(old(self).spec_recv_waiters()).0 && final(self).spec_send_waiters() == sw,
                            StorageTryPushOutput::Skipped => (r matches SendPoll::Ready(
                                Err(Error::ChannelSkipped),
                                Wake::Nobody,
                            )) && final(self).spec_send_waiters() == sw
                                && final(self).spec_recv_waiters() == old(self).spec_recv_waiters(),
                            StorageTryPushOutput::Full(_) => r == SendPoll::<T, W>::Pending(value)
                                && final(self).spec_send_waiters() == append_spec(sw, waker, id)
                                && final(self).spec_recv_waiters() == old(self).spec_recv_waiters(),
                        }
                } else {
                    &&& r == SendPoll::<T, W>::Pending(value)
                    &&& final(self).spec_queue() == old(self).spec_queue()
                    &&& final(self).spec_send_waiters() == append_spec(sw, waker, id)
                    &&& final(self).spec_recv_waiters() == old(self).spec_recv_waiters()
                }
            }),
    {
        if queued {
            self.send_waiters.confirm_waked(id);
        }
        if self.receivers == 0 {
            return SendPoll::Ready(Err(Error::ChannelClosed), Wake::Nobody);
        }
        if self.send_waiters.is_empty() || queued {
            let ghost q0 = self.queue;
            let o = self.queue.try_push(value);
            let ghost go = o;
            proof {
                assert(q0.spec_push(value, self.queue, go));
            }
            match o {
                StorageTryPushOutput::Pushed => {
                    let w = self.recv_waiters.wake_next();
                    proof {
                        assert(old(self).spec_queue().spec_push(value, self.spec_queue(), go));
                    }
                    return SendPoll::Ready(Ok(()), w);
                },
                StorageTryPushOutput::Skipped => {
                    proof {
                        assert(old(self).spec_queue().spec_push(value, self.spec_queue(), go));
                    }
                    return SendPoll::Ready(Err(Error::ChannelSkipped), Wake::Nobody);
                },
                StorageTryPushOutput::Full(v) => {
                    self.send_waiters.append_waker(waker, id);
                    proof {
                        assert(old(self).spec_queue().spec_push(value, self.spec_queue(), go));
                    }
                    return SendPoll::Pending(v);
                },
            }
        }
        self.send_waiters.append_waker(waker, id);
        SendPoll::Pending(value)
    }

    /// Polls the receive future `id`, which was `queued` for a wake before. It may take a
    /// value only when no earlier receiver waits or it is the one woken; taking one wakes one
    /// sender. Finding nothing without senders, it fails with `ChannelClosed`. Otherwise its
    /// waker queues (once).
    pub fn poll_recv(&mut self, id: usize, queued: bool, waker: W) -> (r: RecvPoll<T, W>)
        requires
            old(self).wf(),
        ensures
            final(self).wf(),
            final(self).spec_senders() == old(self).spec_senders(),
            final(self).spec_receivers() == old(self).spec_receivers(),
            ({
                let rw = confirm_spec(old(self).spec_recv_waiters(), id, queued);
                if old(self).spec_recv_waiters().entries.len() == 0 || queued {
                    exists|o: Option<T>|
                        #[trigger] old(self).spec_queue().spec_get(final(self).spec_queue(), o)
                            && match o {
                            Some(v) => r == RecvPoll::<T, W>::Ready(
                                Ok(v),
                                wake_next_spec(old(self).spec_send_waiters()).1,
                            ) && final(self).spec_send_waiters() == wake_next_spec(
                                old(self).spec_send_waiters(),
                            ).0 && final(self).spec_recv_waiters() == rw,
                            None => if old(self).spec_senders() == 0 {
                                (r matches RecvPoll::Ready(Err(Error::ChannelClosed), Wake::Nobody))
                                    && final(self).spec_recv_waiters() == rw
                                    && final(self).spec_send_waiters() == old(self).spec_send_waiters()
                            } else {
                                r is Pending && final(self).spec_recv_waiters() == append_spec(
                                    rw,
                                    waker,
                                    id,
                                ) && final(self).spec_send_waiters() == old(self).spec_send_waiters()
                            },
                        }
                } else {
                    &&& r is Pending
                    &&& final(self).spec_queue() == old(self).spec_queue()
                    &&& final(self).spec_recv_waiters() == append_spec(rw, waker, id)
                    &&& final(self).spec_send_waiters() == old(self).spec_send_waiters()
                }
            }),
    {
        if queued {
            self.recv_waiters.confirm_waked(id);
        }
        if self.recv_waiters.is_empty() || queued {
            let ghost q0 = self.queue;
            let o = self.queue.get();
            let ghost go = o;
            proof {
                assert(q0.spec_get(self.queue, go));
            }
            match o {
                Some(v) => {
                    let w = self.send_waiters.wake_next();
                    proof {
                        assert(old(self).spec_queue().spec_get(self.spec_queue(), go));
                    }
                    return RecvPoll::Ready(Ok(v), w);
                },
                None => {
                    if self.senders == 0 {
                        proof {
                            assert(old(self).spec_queue().spec_get(self.spec_queue(), go));
                        }
                        return RecvPoll::Ready(Err(Error::ChannelClosed), Wake::Nobody);
                    }
                    self.recv_waiters.append_waker(waker, id);
                    proof {
                        assert(old(self).spec_queue().spec_get(self.spec_queue(), go));
                    }
                    return RecvPoll::Pending;
                },
            }
        }
        self.recv_waiters.append_waker(waker, id);
        RecvPoll::Pending
    }

    /// A non-blocking send. It does not pass senders already waiting: while any waits it
    /// reports `ChannelFull`. A push wakes one receiver.
    pub fn try_send(&mut self, value: T) -> (r: (Result<()>, Wake<W>))
        requires
            old(self).wf(),
        ensures
            final(self).wf(),
            final(self).spec_senders() == old(self).spec_senders(),
            final(self).spec_receivers() == old(self).spec_receivers(),
            final(self).spec_send_waiters() == old(self).spec_send_waiters(),
            old(self).spec_receivers() == 0 ==> (r matches (Err(Error::ChannelClosed), Wake::Nobody))
                && final(self).spec_queue() == old(self).spec_queue(),
            old(self).spec_receivers() > 0 && old(self).spec_send_waiters().entries.len() > 0
                ==> (r matches (Err(Error::ChannelFull), Wake::Nobody)) && final(self).spec_queue()
                == old(self).spec_queue(),
            old(self).spec_receivers() > 0 && old(self).spec_send_waiters().entries.len() == 0
                ==> exists|o: StorageTryPushOutput<T>|
                #[trigger] old(self).spec_queue().spec_push(value, final(self).spec_queue(), o)
                    && r.0 == push_result(o, Error::ChannelFull) && if o is Pushed {
                    (final(self).spec_recv_waiters(), r.1) == wake_next_spec(
                        old(self).spec_recv_waiters(),
                    )
                } else {
                    r.1 is Nobody && final(self).spec_recv_waiters() == old(self).spec_recv_waiters()
                },
            old(self).spec_receivers() == 0 || old(self).spec_send_waiters().entries.len() > 0
                ==> final(self).spec_recv_waiters() == old(self).spec_recv_waiters(),
    {
        if self.receivers == 0 {
            return (Err(Error::ChannelClosed), Wake::Nobody);
        }
        if !self.send_waiters.is_empty() {
            return (Err(Error::ChannelFull), Wake::Nobody);
        }
        let ghost q0 = self.queue;
        let o = self.queue.try_push(value);
        let ghost go = o;
        proof {
            assert(q0.spec_push(value, self.queue, go));
        }
        let r = match o {
            StorageTryPushOutput::Pushed => {
                let w = self.recv_waiters.wake_next();
                (Ok(()), w)
            },
            StorageTryPushOutput::Skipped => (Err(Error::ChannelSkipped), Wake::Nobody),
            StorageTryPushOutput::Full(_) => (Err(Error::ChannelFull), Wake::Nobody),
        };
        proof {
            assert(old(self).spec_queue().spec_push(value, self.spec_queue(), go));
        }
        r
    }

    /// A non-blocking receive. It does not pass receivers already waiting: while any waits it
    /// reports `ChannelEmpty`. Taking a value wakes one sender.
    pub fn try_recv(&mut self) -> (r: (Result<T>, Wake<W>))
        requires
            old(self).wf(),
        ensures
            final(self).wf(),
            final(self).spec_senders() == old(self).spec_senders(),
            final(self).spec_receivers() == old(self).spec_receivers(),
            final(self).spec_recv_waiters() == old(self).spec_recv_waiters(),
            old(self).spec_recv_waiters().entries.len() > 0 ==> (r matches (
                Err(Error::ChannelEmpty),
                Wake::Nobody,
            )) && final(self).spec_queue() == old(self).spec_queue()
                && final(self).spec_send_waiters() == old(self).spec_send_waiters(),
            old(self).spec_recv_waiters().entries.len() == 0 ==> exists|o: Option<T>|
                #[trigger] old(self).spec_queue().spec_get(final(self).spec_queue(), o) && match o {
                    Some(v) => r.0 == Ok::<T, Error>(v) && (final(self).spec_send_waiters(), r.1)
                        == wake_next_spec(old(self).spec_send_waiters()),
                    None => r.1 is Nobody && final(self).spec_send_waiters() == old(self).spec_send_waiters() && r.0 == (if old(self).spec_senders() == 0 {
                        Err::<T, Error>(Error::ChannelClosed)
                    } else {
                        Err::<T, Error>(Error::ChannelEmpty)
                    }),
                },
    {
        if !self.recv_waiters.is_empty() {
            return (Err(Error::ChannelEmpty), Wake::Nobody);
        }
        let ghost q0 = self.queue;
        let o = self.queue.get();
        let ghost go = o;
        proof {
            assert(q0.spec_get(self.queue, go));
        }
        let r = match o {
            Some(v) => {
                let w = self.send_waiters.wake_next();
                (Ok(v), w)
            },
            None => if self.senders == 0 {
                (Err(Error::ChannelClosed), Wake::Nobody)
            } else {
                (Err(Error::ChannelEmpty), Wake::Nobody)
            },
        };
        proof {
            assert(old(self).spec_queue().spec_get(self.spec_queue(), go));
        }
        r
    }

    /// One step of a blocking send: like a first poll, except that a value finding no room
    /// queues a blocking caller, which parks on the condition variable.
    pub fn send_blocking_step(&mut self, value: T) -> (r: SendPoll<T, W>)
        requires
            old(self).wf(),
        ensures
            final(self).wf(),
            final(self).spec_senders() == old(self).spec_senders(),
            final(self).spec_receivers() == old(self).spec_receivers(),
            old(self).spec_receivers() == 0 ==> (r matches SendPoll::Ready(
                Err(Error::ChannelClosed),
                Wake::Nobody,
            )) && final(self).spec_queue() == old(self).spec_queue()
                && final(self).spec_send_waiters() == old(self).spec_send_waiters()
                && final(self).spec_recv_waiters() == old(self).spec_recv_waiters(),
            old(self).spec_receivers() > 0 ==> exists|o: StorageTryPushOutput<T>|
                #[trigger] old(self).spec_queue().spec_push(value, final(self).spec_queue(), o)
                    && match o {
                    StorageTryPushOutput::Pushed => r == SendPoll::<T, W>::Ready(Ok(()), wake_next_spec(old(self).spec_recv_waiters()).1) && final(self).spec_recv_waiters() == wake_next_spec(old(self).spec_recv_waiters()).0 && final(self).spec_send_waiters() == old(self).spec_send_waiters(),
                    StorageTryPushOutput::Skipped => (r matches SendPoll::Ready(
                        Err(Error::ChannelSkipped),
                        Wake::Nobody,
                    )) && final(self).spec_send_waiters() == old(self).spec_send_waiters()
                        && final(self).spec_recv_waiters() == old(self).spec_recv_waiters(),
                    StorageTryPushOutput::Full(_) => r == SendPoll::<T, W>::Pending(value)
                        && final(self).spec_send_waiters().entries == old(self).spec_send_waiters().entries.push(None) && final(self).spec_send_waiters().pending == old(self).spec_send_waiters().pending
                        && final(self).spec_recv_waiters() == old(self).spec_recv_waiters(),
                },
    {
        if self.receivers == 0 {
            return SendPoll::Ready(Err(Error::ChannelClosed), Wake::Nobody);
        }
        let ghost q0 = self.queue;
        let o = self.queue.try_push(value);
        let ghost go = o;
        proof {
            assert(q0.spec_push(value, self.queue, go));
        }
        let r = match o {
            StorageTryPushOutput::Pushed => {
                let w = self.recv_waiters.wake_next();
                SendPoll::Ready(Ok(()), w)
            },
            StorageTryPushOutput::Skipped => SendPoll::Ready(
                Err(Error::ChannelSkipped),
                Wake::Nobody,
            ),
            StorageTryPushOutput::Full(v) => {
                self.send_waiters.append_blocked();
                SendPoll::Pending(v)
            },
        };
        proof {
            assert(old(self).spec_queue().spec_push(value, self.spec_queue(), go));
        }
        r
    }

    /// One step of a blocking receive: a value if there is one (waking one sender), else
    /// `ChannelClosed` without senders, else a blocking caller queues and parks.
    pub fn recv_blocking_step(&mut self) -> (r: RecvPoll<T, W>)
        requires
            old(self).wf(),
        ensures
            final(self).wf(),
            final(self).spec_senders() == old(self).spec_senders(),
            final(self).spec_receivers() == old(self).spec_receivers(),
            exists|o: Option<T>|
                #[trigger] old(self).spec_queue().spec_get(final(self).spec_queue(), o) && match o {
                    Some(v) => r == RecvPoll::<T, W>::Ready(
                        Ok(v),
                        wake_next_spec(old(self).spec_send_waiters()).1,
                    ) && final(self).spec_send_waiters() == wake_next_spec(
                        old(self).spec_send_waiters(),
                    ).0 && final(self).spec_recv_waiters() == old(self).spec_recv_waiters(),
                    None => final(self).spec_send_waiters() == old(self).spec_send_waiters() && if old(self).spec_senders() == 0 {
                        (r matches RecvPoll::Ready(Err(Error::ChannelClosed), Wake::Nobody))
                            && final(self).spec_recv_waiters() == old(self).spec_recv_waiters()
                    } else {
                        r is Pending && final(self).spec_recv_waiters().entries == old(self).spec_recv_waiters().entries.push(None) && final(self).spec_recv_waiters().pending == old(self).spec_recv_waiters().pending
                    },
                },
    {
        let ghost q0 = self.queue;
        let o = self.queue.get();
        let ghost go = o;
        proof {
            assert(q0.spec_get(self.queue, go));
        }
        let r = match o {
            Some(v) => {
                let w = self.send_waiters.wake_next();
                RecvPoll::Ready(Ok(v), w)
            },
            None => {
                if self.senders == 0 {
                    RecvPoll::Ready(Err(Error::ChannelClosed), Wake::Nobody)
                } else {
                    self.recv_waiters.append_blocked();
                    RecvPoll::Pending
                }
            },
        };
        proof {
            assert(old(self).spec_queue().spec_get(self.spec_queue(), go));
        }
        r
    }

    /// The send future `id` was dropped; its wake, if it had one unused, passes on.
    pub fn drop_send_future(&mut self, id: usize) -> (r: Wake<W>)
        requires
            old(self).wf(),
        ensures
            final(self).wf(),
            (final(self).spec_send_waiters(), r) == drop_spec(old(self).spec_send_waiters(), id),
            final(self).spec_recv_waiters() == old(self).spec_recv_waiters(),
            final(self).spec_queue() == old(self).spec_queue(),
            final(self).spec_senders() == old(self).spec_senders(),
            final(self).spec_receivers() == old(self).spec_receivers(),
    {
        self.send_waiters.notify_drop(id)
    }

    /// The receive future `id` was dropped; its wake, if it had one unused, passes on.
    pub fn drop_recv_future(&mut self, id: usize) -> (r: Wake<W>)
        requires
            old(self).wf(),
        ensures
            final(self).wf(),
            (final(self).spec_recv_waiters(), r) == drop_spec(old(self).spec_recv_waiters(), id),
            final(self).spec_send_waiters() == old(self).spec_send_waiters(),
            final(self).spec_queue() == old(self).spec_queue(),
            final(self).spec_senders() == old(self).spec_senders(),
            final(self).spec_receivers() == old(self).spec_receivers(),
    {
        self.recv_waiters.notify_drop(id)
    }

    /// Counts one more sender handle.
    pub fn add_sender(&mut self)
        requires
            old(self).spec_senders() < usize::MAX,
        ensures
            final(self).spec_senders() == old(self).spec_senders() + 1,
            final(self).spec_receivers() == old(self).spec_receivers(),
            final(self).spec_queue() == old(self).spec_queue(),
            final(self).spec_send_waiters() == old(self).spec_send_waiters(),
            final(self).spec_recv_waiters() == old(self).spec_recv_waiters(),
            final(self).wf() == old(self).wf(),
    {
        self.senders += 1;
    }

    /// Counts one more receiver handle.
    pub fn add_receiver(&mut self)
        requires
            old(self).spec_receivers() < usize::MAX,
        ensures
            final(self).spec_receivers() == old(self).spec_receivers() + 1,
            final(self).spec_senders() == old(self).spec_senders(),
            final(self).spec_queue() == old(self).spec_queue(),
            final(self).spec_send_waiters() == old(self).spec_send_waiters(),
            final(self).spec_recv_waiters() == old(self).spec_recv_waiters(),
            final(self).wf() == old(self).wf(),
    {
        self.receivers += 1;
    }

    /// Counts one sender handle less. When it was the last one, every waiting receiver leaves
    /// its queue: the wakers returned are to be woken, and all blocked receivers notified.
    pub fn remove_sender(&mut self) -> (r: Option<Vec<W>>)
        requires
            old(self).wf(),
            old(self).spec_senders() > 0,
        ensures
            final(self).wf(),
            final(self).spec_senders() == old(self).spec_senders() - 1,
            final(self).spec_receivers() == old(self).spec_receivers(),
            final(self).spec_queue() == old(self).spec_queue(),
            final(self).spec_send_waiters() == old(self).spec_send_waiters(),
            r is Some == (final(self).spec_senders() == 0),
            r is Some ==> final(self).spec_recv_waiters().entries.len() == 0 && r->0@ == wakers_of(
                old(self).spec_recv_waiters().entries,
            ) && final(self).spec_recv_waiters().pending == old(self).spec_recv_waiters().pending,
            r is None ==> final(self).spec_recv_waiters() == old(self).spec_recv_waiters(),
    {
        self.senders -= 1;
        if self.senders == 0 {
            Some(self.recv_waiters.wake_all())
        } else {
            None
        }
    }

    /// Counts one receiver handle less. When it was the last one, every waiting sender leaves
    /// its queue: the wakers returned are to be woken, and all blocked senders notified.
    pub fn remove_receiver(&mut self) -> (r: Option<Vec<W>>)
        requires
            old(self).wf(),
            old(self).spec_receivers() > 0,
        ensures
            final(self).wf(),
            final(self).spec_receivers() == old(self).spec_receivers() - 1,
            final(self).spec_senders() == old(self).spec_senders(),
            final(self).spec_queue() == old(self).spec_queue(),
            final(self).spec_recv_waiters() == old(self).spec_recv_waiters(),
            r is Some == (final(self).spec_receivers() == 0),
            r is Some ==> final(self).spec_send_waiters().entries.len() == 0 && r->0@ == wakers_of(
                old(self).spec_send_waiters().entries,
            ) && final(self).spec_send_waiters().pending == old(self).spec_send_waiters().pending,
            r is None ==> final(self).spec_send_waiters() == old(self).spec_send_waiters(),
    {
        self.receivers -= 1;
        if self.receivers == 0 {
            Some(self.send_waiters.wake_all())
        } else {
            None
        }
    }

    /// The number of sender handles.
    pub fn senders(&self) -> (r: usize)
        ensures
            r == self.spec_senders(),
    {
        self.senders
    }

    /// The number of receiver handles.
    pub fn receivers(&self) -> (r: usize)
        ensures
            r == self.spec_receivers(),
    {
        self.receivers
    }

    /// The number of queued values.
    pub fn len(&self) -> (r: usize)
        ensures
            r == self.spec_queue().spec_len(),
    {
        self.queue.len()
    }

    /// Whether the queue is at its capacity.
    pub fn is_full(&self) -> (r: bool)
        ensures
            r == (self.spec_queue().spec_len() == self.spec_queue().spec_capacity()),
    {
        self.queue.is_full()
    }

    /// Whether the queue is empty.
    pub fn is_empty(&self) -> (r: bool)
        ensures
            r == (self.spec_queue().spec_len() == 0),
    {
        self.queue.is_empty()
    }
}

/// Cancelling an operation never loses a wake: one that was woken but had not polled passes
/// its wake on to exactly one other waiter, the first in line; one still queued just leaves the
/// line, the others keeping their order, and nobody is woken on its account.
pub proof fn lemma_cancel_keeps_wakeups<W>(v: WaitersView<W>, id: usize)
    requires
        unique_ops(v.entries),
    ensures
        v.pending.contains(id) && !queued_ops(v.entries).contains(id) && v.entries.len() > 0
            ==> {
            &&& drop_spec(v, id) == wake_next_spec(
                WaitersView { entries: v.entries, pending: v.pending.remove(id) },
            )
            &&& !(drop_spec(v, id).1 is Nobody)
            &&& drop_spec(v, id).0.entries == v.entries.skip(1)
        },
        !v.pending.contains(id) ==> {
            &&& drop_spec(v, id).1 is Nobody
            &&& drop_spec(v, id).0.pending == v.pending
            &&& queued_ops(v.entries).contains(id) ==> exists|k: int|
                0 <= k < v.entries.len() && is_op(#[trigger] v.entries[k], id) && drop_spec(
                    v,
                    id,
                ).0.entries == v.entries.remove(k)
            &&& !queued_ops(v.entries).contains(id) ==> drop_spec(v, id).0.entries == v.entries
        },
{
    let s = v.entries;
    if queued_ops(s).contains(id) {
        let k = choose|k: int| 0 <= k < s.len() && is_op(#[trigger] s[k], id);
        assert forall|j: int| 0 <= j < k implies !is_op(#[trigger] s[j], id) by {}
        lemma_position_of(s, id, k);
    } else {
        assert forall|j: int| 0 <= j < s.len() implies !is_op(#[trigger] s[j], id) by {
            if is_op(s[j], id) {
                assert(queued_ops(s).contains(id));
            }
        }
        lemma_position_of(s, id, s.len() as int);
    }
}

/// Dropping the first element keeps the rest, in order.
proof fn lemma_skip_first<W>(s: Seq<Waiter<W>>)
    requires
        s.len() > 0,
    ensures
        forall|i: int| 0 <= i < s.len() - 1 ==> s.skip(1)[i] == s[i + 1],
        unique_ops(s) ==> unique_ops(s.skip(1)),
{
    let t = s.skip(1);
    if unique_ops(s) {
        assert forall|i: int, j: int|
            0 <= i < t.len() && 0 <= j < t.len() && op_of(#[trigger] t[i]) >= 0 && op_of(t[i])
                == op_of(#[trigger] t[j]) implies i == j by {
            assert(t[i] == s[i + 1] && t[j] == s[j + 1]);
        }
    }
}

/// `position_of` finds the first entry of operation `id`, if any.
proof fn lemma_position_of<W>(s: Seq<Waiter<W>>, id: usize, i: int)
    requires
        0 <= i <= s.len(),
        forall|j: int| 0 <= j < i ==> !is_op(#[trigger] s[j], id),
        i < s.len() ==> is_op(s[i], id),
    ensures
        position_of(s, id) == (if i < s.len() { i } else { -1 }),
    decreases s.len(),
{
    if s.len() > 0 && i > 0 {
        let t = s.skip(1);
        assert forall|j: int| 0 <= j < i - 1 implies !is_op(#[trigger] t[j], id) by {
            assert(t[j] == s[j + 1]);
        }
        if i < s.len() {
            assert(t[i - 1] == s[i]);
        }
        assert(!is_op(s[0], id));
        lemma_position_of(t, id, i - 1);
    }
}

/// Removing the entry of operation `id` keeps the invariant and drops `id` from the queued
/// operations.
proof fn lemma_remove_op<W>(s: Seq<Waiter<W>>, i: int, id: usize)
    requires
        0 <= i < s.len(),
        is_op(s[i], id),
        unique_ops(s),
    ensures
        unique_ops(s.remove(i)),
        queued_ops(s.remove(i)) == queued_ops(s).remove(id),
{
    let t = s.remove(i);
    assert forall|j: int| 0 <= j < t.len() implies #[trigger] t[j] == (if j < i {
        s[j]
    } else {
        s[j + 1]
    }) by {}
    assert forall|a: int, b: int|
        0 <= a < t.len() && 0 <= b < t.len() && op_of(#[trigger] t[a]) >= 0 && op_of(t[a])
            == op_of(#[trigger] t[b]) implies a == b by {
        let a2 = if a < i { a } else { a + 1 };
        let b2 = if b < i { b } else { b + 1 };
        assert(t[a] == s[a2] && t[b] == s[b2]);
    }
    assert(queued_ops(t) =~= queued_ops(s).remove(id)) by {
        assert forall|x: usize| queued_ops(t).contains(x) implies queued_ops(s).remove(id).contains(
            x,
        ) by {
            let a = choose|a: int| 0 <= a < t.len() && is_op(#[trigger] t[a], x);
            let a2 = if a < i { a } else { a + 1 };
            assert(is_op(s[a2], x));
            if x == id {
                assert(a2 == i);
            }
        }
        assert forall|x: usize| queued_ops(s).remove(id).contains(x) implies queued_ops(t).contains(
            x,
        ) by {
            let a = choose|a: int| 0 <= a < s.len() && is_op(#[trigger] s[a], x);
            assert(a != i);
            let a2 = if a < i { a } else { a - 1 };
            assert(is_op(t[a2], x));
        }
    }
}

} // verus!
