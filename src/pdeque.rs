use crate::data_policy::{DataDeliveryPolicy, DeliveryPolicy, StorageTryPushOutput};
use std::collections::VecDeque;
use vstd::prelude::*;

verus! {

/// Whether the priorities along `s` never decrease.
pub open spec fn sorted_by_priority<T: DataDeliveryPolicy>(s: Seq<T>) -> bool {
    forall|i: int, j: int|
        0 <= i < j < s.len() ==> #[trigger] s[i].spec_priority() <= #[trigger] s[j].spec_priority()
}

/// Where a stable sort by priority puts `v` when it comes after all of `s`: right after the
/// last element whose priority is not greater than that of `v`.
pub open spec fn insert_pos<T: DataDeliveryPolicy>(s: Seq<T>, v: T) -> int
    decreases s.len(),
{
    if s.len() == 0 {
        0
    } else if s.last().spec_priority() <= v.spec_priority() {
        s.len() as int
    } else {
        insert_pos(s.drop_last(), v)
    }
}

/// `s` with `v` appended, then stably sorted by priority where the queue is ordered.
pub open spec fn appended<T: DataDeliveryPolicy>(s: Seq<T>, v: T, ordered: bool) -> Seq<T> {
    if ordered {
        s.insert(insert_pos(s, v), v)
    } else {
        s.push(v)
    }
}

/// Stable sort by priority, as insertion of each element in turn.
pub open spec fn sort_by_priority<T: DataDeliveryPolicy>(s: Seq<T>) -> Seq<T>
    decreases s.len(),
{
    if s.len() == 0 {
        s
    } else {
        appended(sort_by_priority(s.drop_last()), s.last(), true)
    }
}

/// Whether `x` survives the arrival of a `Single*` value `v`: it is of another kind and alive.
pub open spec fn survives_single<T: DataDeliveryPolicy>(x: T, v: T) -> bool {
    !x.spec_eq_kind(&v) && !x.spec_is_expired()
}

/// The elements of `s` that survive the arrival of a `Single*` value `v`, in their order.
pub open spec fn retain_for_single<T: DataDeliveryPolicy>(s: Seq<T>, v: T) -> Seq<T>
    decreases s.len(),
{
    if s.len() == 0 {
        s
    } else if survives_single(s.last(), v) {
        retain_for_single(s.drop_last(), v).push(s.last())
    } else {
        retain_for_single(s.drop_last(), v)
    }
}

/// The queue as the admission of `v` finds it after step 2 (removal of same-kind and expired
/// elements for a `Single*` value).
pub open spec fn cleared_for<T: DataDeliveryPolicy>(s: Seq<T>, v: T) -> Seq<T> {
    if v.spec_delivery_policy().spec_is_single() {
        retain_for_single(s, v)
    } else {
        s
    }
}

/// Whether a queued `x` may make room for a new `v` in a full queue: it has expired, is
/// optional, or is of the same kind as a `Latest` value `v`.
pub open spec fn evictable<T: DataDeliveryPolicy>(x: T, v: T) -> bool {
    x.spec_is_expired() || x.spec_delivery_policy().spec_is_optional() || (
    v.spec_delivery_policy() == DeliveryPolicy::Latest && x.spec_eq_kind(&v))
}

/// Whether `i` is the first position of `s` whose element may make room for `v`.
pub open spec fn first_evictable<T: DataDeliveryPolicy>(s: Seq<T>, v: T, i: int) -> bool {
    &&& 0 <= i < s.len()
    &&& evictable(s[i], v)
    &&& forall|j: int| 0 <= j < i ==> !evictable(#[trigger] s[j], v)
}

/// Whether no element of `s` may make room for `v`.
pub open spec fn none_evictable<T: DataDeliveryPolicy>(s: Seq<T>, v: T) -> bool {
    forall|j: int| 0 <= j < s.len() ==> !evictable(#[trigger] s[j], v)
}

/// The admission rule: the queue `s` of capacity `cap` becomes `n` and the attempt to admit `v`
/// gives `r`.
pub open spec fn admits<T: DataDeliveryPolicy>(
    s: Seq<T>,
    cap: nat,
    ordered: bool,
    v: T,
    n: Seq<T>,
    r: StorageTryPushOutput<T>,
) -> bool {
    let c = cleared_for(s, v);
    if v.spec_is_expired() {
        r is Pushed && n == s
    } else if c.len() < cap {
        r is Pushed && n == appended(c, v, ordered)
    } else if v.spec_delivery_policy().spec_is_optional() {
        r is Skipped && n == c
    } else if none_evictable(c, v) {
        r == StorageTryPushOutput::Full(v) && n == c
    } else {
        exists|i: int|
            first_evictable(c, v, i) && r is Pushed && n == appended(c.remove(i), v, ordered)
    }
}

/// What a retrieval gives from `s`: the first element that has not expired, and what remains
/// behind it.
pub open spec fn pop_live<T: DataDeliveryPolicy>(s: Seq<T>) -> (Option<T>, Seq<T>)
    decreases s.len(),
{
    if s.len() == 0 {
        (None, s)
    } else if !s[0].spec_is_expired() {
        (Some(s[0]), s.skip(1))
    } else {
        pop_live(s.skip(1))
    }
}

/// A bounded deque which stores values with respect of their [`DataDeliveryPolicy`].
pub struct Deque<T> where T: DataDeliveryPolicy {
    data: VecDeque<T>,
    capacity: usize,
    ordered: bool,
}

impl<T> View for Deque<T> where T: DataDeliveryPolicy {
    type V = Seq<T>;

    closed spec fn view(&self) -> Seq<T> {
        self.data@
    }
}

impl<T> Deque<T> where T: DataDeliveryPolicy {
    /// The bound on the number of stored values.
    pub closed spec fn spec_capacity(&self) -> nat {
        self.capacity as nat
    }

    /// Whether values are kept sorted by priority.
    pub closed spec fn spec_ordered(&self) -> bool {
        self.ordered
    }

    /// The deque's invariant: never over capacity, and sorted when ordered.
    pub open spec fn wf(&self) -> bool {
        &&& self@.len() <= self.spec_capacity()
        &&& self.spec_ordered() ==> sorted_by_priority(self@)
    }

    /// Creates a new empty, unordered deque.
    pub fn bounded(capacity: usize) -> (r: Self)
        requires
            capacity > 0,
        ensures
            r.wf(),
            r@ == Seq::<T>::empty(),
            r.spec_capacity() == capacity,
            !r.spec_ordered(),
    {
        Deque { data: VecDeque::with_capacity(capacity), capacity, ordered: false }
    }

    /// Enables or disables priority ordering; enabling it sorts the stored values stably.
    pub fn set_ordering(self, v: bool) -> (r: Self)
        requires
            self.wf(),
        ensures
            r.wf(),
            r.spec_capacity() == self.spec_capacity(),
            r.spec_ordered() == v,
            r@ == (if v && !self.spec_ordered() { sort_by_priority(self@) } else { self@ }),
    {
        let mut d = self;
        if v && !d.ordered {
            let mut rest = d.data;
            let ghost orig = rest@;
            let mut sorted: VecDeque<T> = VecDeque::with_capacity(d.capacity);
            let ghost mut k: int = 0;
            while rest.len() > 0
                invariant
                    0 <= k <= orig.len(),
                    rest@ == orig.skip(k),
                    sorted@ == sort_by_priority(orig.take(k)),
                    sorted_by_priority(sorted@),
                    sorted@.len() == k,
                decreases rest@.len(),
            {
                let x = rest.pop_front().unwrap();
                proof {
                    assert(orig.take(k + 1).drop_last() =~= orig.take(k));
                    assert(orig.skip(k + 1) =~= orig.skip(k).skip(1));
                    lemma_insert_sorted(sorted@, x);
                }
                insert_sorted(&mut sorted, x);
                proof {
                    k = k + 1;
                }
            }
            proof {
                assert(orig.take(k) =~= orig);
            }
            d.data = sorted;
        }
        d.ordered = v;
        d
    }

    /// Tries to store the value, applying the admission rule of the policies. An expired value
    /// is dropped and counts as pushed; a value that finds no room is handed back in `Full`.
    pub fn try_push(&mut self, value: T) -> (r: StorageTryPushOutput<T>)
        requires
            old(self).wf(),
        ensures
            final(self).wf(),
            final(self).spec_capacity() == old(self).spec_capacity(),
            final(self).spec_ordered() == old(self).spec_ordered(),
            admits(
                old(self)@,
                old(self).spec_capacity(),
                old(self).spec_ordered(),
                value,
                final(self)@,
                r,
            ),
    {
        if value.is_expired() {
            return StorageTryPushOutput::Pushed;
        }
        let policy = value.delivery_policy();
        if policy.is_single() {
            self.retain_unlike(&value);
        }
        if self.data.len() < self.capacity {
            self.append(value);
            return StorageTryPushOutput::Pushed;
        }
        if policy.is_optional() {
            return StorageTryPushOutput::Skipped;
        }
        let ghost c = self.data@;
        let mut i: usize = 0;
        while i < self.data.len()
            invariant
                self.wf(),
                self.capacity == old(self).capacity,
                self.ordered == old(self).ordered,
                self.data@ == c,
                c == cleared_for(old(self)@, value),
                c.len() >= self.capacity,
                policy == value.spec_delivery_policy(),
                !policy.spec_is_optional(),
                !value.spec_is_expired(),
                i <= c.len(),
                forall|j: int| 0 <= j < i ==> !evictable(#[trigger] c[j], value),
            decreases c.len() - i,
        {
            let x = &self.data[i];
            let xp = x.delivery_policy();
            let found = x.is_expired() || xp.is_optional() || (policy == DeliveryPolicy::Latest
                && x.eq_kind(&value));
            if found {
                self.data.remove(i);
                proof {
                    assert(first_evictable(c, value, i as int));
                    lemma_remove_keeps_sorted(c, i as int);
                }
                self.append(value);
                return StorageTryPushOutput::Pushed;
            }
            i += 1;
        }
        StorageTryPushOutput::Full(value)
    }

    /// Appends a value, keeping the order by priority where the deque is ordered.
    fn append(&mut self, value: T)
        requires
            old(self)@.len() < old(self).spec_capacity(),
            old(self).spec_ordered() ==> sorted_by_priority(old(self)@),
        ensures
            final(self).wf(),
            final(self).spec_capacity() == old(self).spec_capacity(),
            final(self).spec_ordered() == old(self).spec_ordered(),
            final(self)@ == appended(old(self)@, value, old(self).spec_ordered()),
    {
        if self.ordered {
            proof {
                lemma_insert_sorted(self.data@, value);
            }
            insert_sorted(&mut self.data, value);
        } else {
            self.data.push_back(value);
        }
    }

    /// Removes every stored element of the kind of `v`, and every expired one.
    fn retain_unlike(&mut self, v: &T)
        requires
            old(self).wf(),
        ensures
            final(self).wf(),
            final(self).spec_capacity() == old(self).spec_capacity(),
            final(self).spec_ordered() == old(self).spec_ordered(),
            final(self)@ == retain_for_single(old(self)@, *v),
    {
        let ghost orig = self.data@;
        let mut i: usize = 0;
        let ghost mut k: int = 0;
        while i < self.data.len()
            invariant
                self.capacity == old(self).capacity,
                self.ordered == old(self).ordered,
                0 <= i <= k <= orig.len(),
                self.data@ == retain_for_single(orig.take(k), *v) + orig.skip(k),
                retain_for_single(orig.take(k), *v).len() == i,
                self.data@.len() <= orig.len(),
                self.ordered ==> sorted_by_priority(self.data@),
            decreases self.data@.len() - i,
        {
            proof {
                assert(orig.take(k + 1).drop_last() =~= orig.take(k));
                assert(self.data@[i as int] == orig[k]);
            }
            let keep = !self.data[i].eq_kind(v) && !self.data[i].is_expired();
            if keep {
                proof {
                    assert(self.data@ =~= retain_for_single(orig.take(k + 1), *v) + orig.skip(k + 1));
                }
                i += 1;
            } else {
                let ghost before = self.data@;
                self.data.remove(i);
                proof {
                    lemma_remove_keeps_sorted(before, i as int);
                    assert(self.data@ =~= retain_for_single(orig.take(k + 1), *v) + orig.skip(k + 1));
                }
            }
            proof {
                k = k + 1;
            }
        }
        proof {
            assert(k == orig.len()) by {
                if k < orig.len() {
                    assert(self.data@.len() > i);
                }
            }
            assert(orig.take(k) =~= orig);
            assert(self.data@ =~= retain_for_single(orig, *v));
        }
    }

    /// Returns the first value that has not expired, dropping the expired ones before it.
    pub fn get(&mut self) -> (r: Option<T>)
        requires
            old(self).wf(),
        ensures
            final(self).wf(),
            final(self).spec_capacity() == old(self).spec_capacity(),
            final(self).spec_ordered() == old(self).spec_ordered(),
            (r, final(self)@) == pop_live(old(self)@),
            r is None ==> final(self)@.len() == 0,
    {
        loop
            invariant
                self.wf(),
                self.capacity == old(self).capacity,
                self.ordered == old(self).ordered,
                pop_live(self.data@) == pop_live(old(self)@),
            decreases self.data@.len(),
        {
            let ghost before = self.data@;
            match self.data.pop_front() {
                None => {
                    return None;
                },
                Some(v) => {
                    proof {
                        assert(self.data@ =~= before.skip(1));
                        lemma_remove_keeps_sorted(before, 0);
                        assert(before.remove(0) =~= before.skip(1));
                    }
                    if !v.is_expired() {
                        return Some(v);
                    }
                },
            }
        }
    }

    /// Removes all stored values.
    pub fn clear(&mut self)
        ensures
            final(self).wf(),
            final(self)@ == Seq::<T>::empty(),
            final(self).spec_capacity() == old(self).spec_capacity(),
            final(self).spec_ordered() == old(self).spec_ordered(),
    {
        self.data.clear();
    }

    /// The number of stored values.
    pub fn len(&self) -> (r: usize)
        ensures
            r == self@.len(),
    {
        self.data.len()
    }

    /// Whether the deque holds as many values as its capacity.
    pub fn is_full(&self) -> (r: bool)
        ensures
            r == (self@.len() == self.spec_capacity()),
    {
        self.data.len() == self.capacity
    }

    /// Whether the deque holds no value.
    pub fn is_empty(&self) -> (r: bool)
        ensures
            r == (self@.len() == 0),
    {
        self.data.len() == 0
    }

    /// The capacity of the deque.
    pub fn capacity(&self) -> (r: usize)
        ensures
            r == self.spec_capacity(),
    {
        self.capacity
    }
}

/// Inserts `value` where a stable sort by priority of `data` followed by `value` puts it.
fn insert_sorted<T: DataDeliveryPolicy>(data: &mut VecDeque<T>, value: T)
    ensures
        final(data)@ == appended(old(data)@, value, true),
{
    let p = value.priority();
    let mut pos = data.len();
    assert(data@.take(data@.len() as int) =~= data@);
    while pos > 0 && data[pos - 1].priority() > p
        invariant
            pos <= data@.len(),
            data@ == old(data)@,
            p == value.spec_priority(),
            insert_pos(data@, value) == insert_pos(data@.take(pos as int), value),
        decreases pos,
    {
        proof {
            assert(data@.take(pos as int).drop_last() =~= data@.take(pos - 1));
        }
        pos -= 1;
    }
    proof {
        if pos > 0 {
            assert(data@.take(pos as int).last() == data@[pos - 1]);
        }
        assert(insert_pos(data@.take(pos as int), value) == pos);
        assert(data@.take(data@.len() as int) =~= data@);
    }
    data.insert(pos, value);
}

/// Ordered admission is a stable sort step: into a sorted queue a value goes after every element
/// of its priority or better and before every worse one, the others keeping their order, and
/// the queue stays sorted.
pub proof fn lemma_insert_sorted<T: DataDeliveryPolicy>(s: Seq<T>, v: T)
    requires
        sorted_by_priority(s),
    ensures
        0 <= insert_pos(s, v) <= s.len(),
        forall|j: int| 0 <= j < insert_pos(s, v) ==> #[trigger] s[j].spec_priority() <= v.spec_priority(),
        forall|j: int| insert_pos(s, v) <= j < s.len() ==> #[trigger] s[j].spec_priority() > v.spec_priority(),
        appended(s, v, true) == s.insert(insert_pos(s, v), v),
        sorted_by_priority(appended(s, v, true)),
    decreases s.len(),
{
    if s.len() > 0 && s.last().spec_priority() > v.spec_priority() {
        let t = s.drop_last();
        assert(sorted_by_priority(t)) by {
            assert forall|i: int, j: int| 0 <= i < j < t.len() implies #[trigger] t[i].spec_priority()
                <= #[trigger] t[j].spec_priority() by {
                assert(t[i] == s[i] && t[j] == s[j]);
            }
        }
        lemma_insert_sorted(t, v);
        assert forall|j: int| 0 <= j < t.len() implies t[j] == s[j] by {}
    }
    let n = appended(s, v, true);
    let p = insert_pos(s, v);
    assert(forall|j: int| 0 <= j < p ==> n[j] == s[j]);
    assert(n[p] == v);
    assert(forall|j: int| p < j < n.len() ==> n[j] == s[j - 1]);
    assert forall|i: int, j: int| 0 <= i < j < n.len() implies #[trigger] n[i].spec_priority()
        <= #[trigger] n[j].spec_priority() by {
        if j < p {
        } else if j == p {
        } else if i < p {
            assert(s[i].spec_priority() <= s[j - 1].spec_priority());
        } else if i == p {
        } else {
            assert(s[i - 1].spec_priority() <= s[j - 1].spec_priority());
        }
    }
}

/// Removing an element keeps a sorted sequence sorted.
proof fn lemma_remove_keeps_sorted<T: DataDeliveryPolicy>(s: Seq<T>, i: int)
    requires
        0 <= i < s.len(),
    ensures
        sorted_by_priority(s) ==> sorted_by_priority(s.remove(i)),
{
    let n = s.remove(i);
    assert(forall|j: int| 0 <= j < i ==> n[j] == s[j]);
    assert(forall|j: int| i <= j < n.len() ==> n[j] == s[j + 1]);
}

/// Enabling the order sorts a queue: the result is sorted by priority and holds the same
/// elements (a permutation); each step of the sort is a stable insertion (see
/// [`lemma_insert_sorted`]).
pub proof fn lemma_sort_by_priority<T: DataDeliveryPolicy>(s: Seq<T>)
    ensures
        sorted_by_priority(sort_by_priority(s)),
        sort_by_priority(s).to_multiset() == s.to_multiset(),
        sort_by_priority(s).len() == s.len(),
    decreases s.len(),
{
    broadcast use vstd::seq_lib::to_multiset_insert, vstd::seq_lib::to_multiset_build;

    if s.len() > 0 {
        let t = s.drop_last();
        lemma_sort_by_priority(t);
        let st = sort_by_priority(t);
        lemma_insert_sorted(st, s.last());
        assert(t.push(s.last()) =~= s);
    } else {
        assert(s =~= Seq::<T>::empty());
    }
}

/// The elements kept for a `Single*` value `v` are no more than those of `s`, and none of them
/// is of the kind of `v` or expired.
proof fn lemma_retain_for_single<T: DataDeliveryPolicy>(s: Seq<T>, v: T)
    ensures
        retain_for_single(s, v).len() <= s.len(),
        forall|j: int|
            0 <= j < retain_for_single(s, v).len() ==> survives_single(
                #[trigger] retain_for_single(s, v)[j],
                v,
            ),
    decreases s.len(),
{
    if s.len() > 0 {
        let t = s.drop_last();
        lemma_retain_for_single(t, v);
        let rt = retain_for_single(t, v);
        if survives_single(s.last(), v) {
            let r = rt.push(s.last());
            assert(forall|j: int| 0 <= j < rt.len() ==> r[j] == rt[j]);
        }
    }
}

/// What `pop_live` hands out is the element just before the suffix that it leaves.
proof fn lemma_pop_live_suffix<T: DataDeliveryPolicy>(s: Seq<T>)
    ensures
        pop_live(s).0 is Some ==> exists|k: int|
            1 <= k <= s.len() && pop_live(s).1 == s.skip(k) && pop_live(s).0 == Some(
                #[trigger] s[k - 1],
            ),
        pop_live(s).0 is Some ==> !pop_live(s).0->0.spec_is_expired(),
    decreases s.len(),
{
    if s.len() > 0 {
        if !s[0].spec_is_expired() {
            assert(s[1 - 1] == s[0]);
        } else {
            let t = s.skip(1);
            lemma_pop_live_suffix(t);
            if pop_live(t).0 is Some {
                let k = choose|k: int|
                    1 <= k <= t.len() && pop_live(t).1 == t.skip(k) && pop_live(t).0 == Some(
                        #[trigger] t[k - 1],
                    );
                assert(t.skip(k) =~= s.skip(k + 1));
                assert(t[k - 1] == s[k + 1 - 1]);
            }
        }
    }
}

/// The number of stored values never exceeds the capacity: admission keeps a queue within its
/// bound.
pub proof fn lemma_admission_within_capacity<T: DataDeliveryPolicy>(
    s: Seq<T>,
    cap: nat,
    ordered: bool,
    v: T,
    n: Seq<T>,
    r: StorageTryPushOutput<T>,
)
    requires
        s.len() <= cap,
        admits(s, cap, ordered, v, n, r),
    ensures
        n.len() <= cap,
{
    lemma_retain_for_single(s, v);
    let c = cleared_for(s, v);
    if !v.spec_is_expired() && c.len() >= cap && !v.spec_delivery_policy().spec_is_optional()
        && !none_evictable(c, v) {
        let i = choose|i: int|
            first_evictable(c, v, i) && r is Pushed && n == appended(c.remove(i), v, ordered);
        lemma_insert_pos_bounds(c.remove(i), v);
    } else if !v.spec_is_expired() && c.len() < cap {
        lemma_insert_pos_bounds(c, v);
    }
}

/// No expired value is ever handed out by a retrieval.
pub proof fn lemma_retrieval_never_expired<T: DataDeliveryPolicy>(s: Seq<T>)
    ensures
        pop_live(s).0 is Some ==> !pop_live(s).0->0.spec_is_expired(),
{
    lemma_pop_live_suffix(s);
}

/// After a `Single*` value `v` is offered, no element of its kind but `v` itself stays queued,
/// and no expired element stays at all.
pub proof fn lemma_single_leaves_one_of_kind<T: DataDeliveryPolicy>(
    s: Seq<T>,
    cap: nat,
    ordered: bool,
    v: T,
    n: Seq<T>,
    r: StorageTryPushOutput<T>,
)
    requires
        v.spec_delivery_policy().spec_is_single(),
        !v.spec_is_expired(),
        admits(s, cap, ordered, v, n, r),
    ensures
        r is Pushed ==> exists|k: int|
            0 <= k < n.len() && #[trigger] n[k] == v && forall|j: int|
                0 <= j < n.len() && j != k ==> !(#[trigger] n[j]).spec_eq_kind(&v),
        !(r is Pushed) ==> forall|j: int| 0 <= j < n.len() ==> !(#[trigger] n[j]).spec_eq_kind(&v),
        forall|j: int| 0 <= j < n.len() ==> !(#[trigger] n[j]).spec_is_expired(),
{
    let c = retain_for_single(s, v);
    lemma_retain_for_single(s, v);
    if r is Pushed {
        let b = if c.len() < cap {
            c
        } else {
            let i = choose|i: int| first_evictable(c, v, i) && n == appended(c.remove(i), v, ordered);
            assert forall|j: int| 0 <= j < c.remove(i).len() implies survives_single(
                #[trigger] c.remove(i)[j],
                v,
            ) by {
                if j < i {
                    assert(c.remove(i)[j] == c[j]);
                } else {
                    assert(c.remove(i)[j] == c[j + 1]);
                }
            }
            c.remove(i)
        };
        assert(n == appended(b, v, ordered));
        let k = if ordered { insert_pos(b, v) } else { b.len() as int };
        lemma_insert_pos_bounds(b, v);
        assert(n[k] == v);
        assert forall|j: int| 0 <= j < n.len() && j != k implies !(#[trigger] n[j]).spec_eq_kind(&v)
            && !n[j].spec_is_expired() by {
            if j < k {
                assert(n[j] == b[j]);
                assert(survives_single(b[j], v));
            } else {
                assert(n[j] == b[j - 1]);
                assert(survives_single(b[j - 1], v));
            }
        }
        assert forall|j: int| 0 <= j < n.len() implies !(#[trigger] n[j]).spec_is_expired() by {
            if j != k {
                assert(!n[j].spec_eq_kind(&v) && !n[j].spec_is_expired());
            }
        }
    } else {
        assert forall|j: int| 0 <= j < n.len() implies !(#[trigger] n[j]).spec_eq_kind(&v)
            && !n[j].spec_is_expired() by {
            assert(survives_single(c[j], v));
        }
        assert forall|j: int| 0 <= j < n.len() implies !(#[trigger] n[j]).spec_is_expired() by {
            assert(!n[j].spec_eq_kind(&v) && !n[j].spec_is_expired());
        }
    }
}

/// `insert_pos` lies within the sequence, sorted or not.
proof fn lemma_insert_pos_bounds<T: DataDeliveryPolicy>(s: Seq<T>, v: T)
    ensures
        0 <= insert_pos(s, v) <= s.len(),
    decreases s.len(),
{
    if s.len() > 0 {
        lemma_insert_pos_bounds(s.drop_last(), v);
    }
}

/// On an ordered queue, two retrievals in a row hand out values of non-decreasing priority.
pub proof fn lemma_ordered_retrievals_nondecreasing<T: DataDeliveryPolicy>(s: Seq<T>)
    requires
        sorted_by_priority(s),
    ensures
        ({
            let (a, rest) = pop_live(s);
            let (b, _) = pop_live(rest);
            a is Some && b is Some ==> a->0.spec_priority() <= b->0.spec_priority()
        }),
{
    let (a, rest) = pop_live(s);
    lemma_pop_live_suffix(s);
    lemma_pop_live_suffix(rest);
    if a is Some && pop_live(rest).0 is Some {
        let k = choose|k: int|
            1 <= k <= s.len() && pop_live(s).1 == s.skip(k) && pop_live(s).0 == Some(
                #[trigger] s[k - 1],
            );
        let m = choose|m: int|
            1 <= m <= rest.len() && pop_live(rest).1 == rest.skip(m) && pop_live(rest).0 == Some(
                #[trigger] rest[m - 1],
            );
        assert(rest[m - 1] == s[k + m - 1]);
        assert(s[k - 1].spec_priority() <= s[k + m - 1].spec_priority());
    }
}

/// A value stored into an empty unordered queue is the one the next retrieval hands out.
pub proof fn lemma_push_then_pop<T: DataDeliveryPolicy>(
    cap: nat,
    v: T,
    n: Seq<T>,
    r: StorageTryPushOutput<T>,
)
    requires
        cap >= 1,
        !v.spec_is_expired(),
        admits(Seq::empty(), cap, false, v, n, r),
    ensures
        r is Pushed,
        pop_live(n) == (Some(v), Seq::<T>::empty()),
{
    assert(retain_for_single(Seq::<T>::empty(), v) == Seq::<T>::empty());
    assert(n =~= seq![v]);
    assert(n.skip(1) =~= Seq::<T>::empty());
}

} // verus!
