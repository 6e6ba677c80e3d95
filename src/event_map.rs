use std::collections::BTreeMap;
use vstd::prelude::*;

verus! {

broadcast use vstd::laws_cmp::group_laws_cmp;

/// The distance between two key points.
pub open spec fn distance(a: i64, b: i64) -> int {
    if a <= b {
        b - a
    } else {
        a - b
    }
}

/// Whether `k` is the event key point closest to `key` among `keys`, the lower one on a tie.
pub open spec fn is_closest(keys: Set<i64>, key: i64, k: i64) -> bool {
    &&& keys.contains(k)
    &&& forall|j: i64| #[trigger] keys.contains(j) ==> distance(key, k) <= distance(key, j)
    &&& forall|j: i64|
        #[trigger] keys.contains(j) && distance(key, j) == distance(key, k) ==> k <= j
}

/// A map of events that happened at key points, looked up by the closest key point.
pub struct EventMap<V> {
    data: BTreeMap<i64, V>,
    max_delta: Option<u64>,
}

/// An event found in an [`EventMap`], with its distance to the requested key point.
pub struct EventValue<'a, V> {
    key: i64,
    value: &'a V,
    delta: u64,
}

impl<'a, V> EventValue<'a, V> {
    /// The key point of the event.
    pub closed spec fn spec_key(&self) -> i64 {
        self.key
    }

    /// The value of the event.
    pub closed spec fn spec_value(&self) -> V {
        *self.value
    }

    /// The distance between the requested key point and that of the event.
    pub closed spec fn spec_delta(&self) -> u64 {
        self.delta
    }

    /// Returns the actual key point of the event.
    pub fn key(&self) -> (r: i64)
        ensures
            r == self.spec_key(),
    {
        self.key
    }

    /// Returns the value of the event.
    pub fn value(&self) -> (r: &V)
        ensures
            *r == self.spec_value(),
    {
        self.value
    }

    /// Returns the distance between the requested key point and that of the event.
    pub fn delta(&self) -> (r: u64)
        ensures
            r == self.spec_delta(),
    {
        self.delta
    }

    /// Consumes the event and returns a clone of its value.
    pub fn into_value(self) -> (r: V) where V: Clone
        ensures
            cloned(self.spec_value(), r),
    {
        self.value.clone()
    }
}

impl<V> EventMap<V> {
    /// The events, by key point.
    pub closed spec fn spec_data(&self) -> Map<i64, V> {
        self.data@
    }

    /// The bound on the distance of an event found, if any.
    pub closed spec fn spec_max_delta(&self) -> Option<u64> {
        self.max_delta
    }

    /// Creates a new empty event map.
    pub fn new() -> (r: Self)
        ensures
            r.spec_data() == Map::<i64, V>::empty(),
            r.spec_max_delta() == None::<u64>,
    {
        EventMap { data: BTreeMap::new(), max_delta: None }
    }

    /// Limits the distance between the requested key point and that of an event found.
    pub fn with_max_delta(self, max_delta: u64) -> (r: Self)
        ensures
            r.spec_data() == self.spec_data(),
            r.spec_max_delta() == Some(max_delta),
    {
        EventMap { data: self.data, max_delta: Some(max_delta) }
    }

    /// Inserts an event at the key point, replacing the one that was there.
    pub fn insert(&mut self, key: i64, value: V)
        ensures
            final(self).spec_data() == old(self).spec_data().insert(key, value),
            final(self).spec_max_delta() == old(self).spec_max_delta(),
    {
        self.data.insert(key, value);
    }

    /// Gets the event closest to the key point (the earlier one of two at the same distance),
    /// unless none is within the maximum distance.
    pub fn get_closest_to(&self, key: i64) -> (r: Option<EventValue<'_, V>>)
        ensures
            match r {
                Some(e) => {
                    &&& is_closest(self.spec_data().dom(), key, e.spec_key())
                    &&& e.spec_delta() == distance(key, e.spec_key())
                    &&& e.spec_value() == self.spec_data()[e.spec_key()]
                    &&& match self.spec_max_delta() {
                        Some(m) => e.spec_delta() <= m,
                        None => true,
                    }
                },
                None => forall|k: i64|
                    #[trigger] self.spec_data().dom().contains(k) ==> match self.spec_max_delta() {
                        Some(m) => distance(key, k) > m,
                        None => false,
                    },
            },
    {
        let lower = floor_key(&self.data, key);
        let upper = ceiling_key(&self.data, key);
        let closest: Option<(i64, u64)> = match (lower, upper) {
            (Some(l), Some(u)) => {
                let lower_diff = (key as i128 - l as i128) as u64;
                let upper_diff = (u as i128 - key as i128) as u64;
                if lower_diff <= upper_diff {
                    Some((l, lower_diff))
                } else {
                    Some((u, upper_diff))
                }
            },
            (Some(l), None) => Some((l, (key as i128 - l as i128) as u64)),
            (None, Some(u)) => Some((u, (u as i128 - key as i128) as u64)),
            (None, None) => None,
        };
        match closest {
            None => None,
            Some((k, delta)) => {
                if let Some(max_delta) = self.max_delta {
                    if delta > max_delta {
                        return None;
                    }
                }
                match self.data.get(&k) {
                    Some(value) => Some(EventValue { key: k, value, delta }),
                    None => None,
                }
            },
        }
    }

    /// Removes all events.
    pub fn clear_all(&mut self)
        ensures
            final(self).spec_data() == Map::<i64, V>::empty(),
            final(self).spec_max_delta() == old(self).spec_max_delta(),
    {
        self.data.clear();
    }

    /// Removes the events before the key point.
    pub fn cleanup(&mut self, key: i64)
        ensures
            final(self).spec_data() == old(self).spec_data().restrict(
                Set::new(|k: i64| k >= key),
            ),
            final(self).spec_max_delta() == old(self).spec_max_delta(),
    {
        let kept = split_off_at(&mut self.data, key);
        self.data = kept;
    }

    /// The events, by key point, to change in place.
    pub fn data_mut(&mut self) -> (r: &mut BTreeMap<i64, V>)
        ensures
            r@ == old(self).spec_data(),
            final(self).spec_data() == final(r)@,
            final(self).spec_max_delta() == old(self).spec_max_delta(),
    {
        &mut self.data
    }

    /// The events, by key point.
    pub fn data(&self) -> (r: &BTreeMap<i64, V>)
        ensures
            r@ == self.spec_data(),
    {
        &self.data
    }
}

/// Relies on `BTreeMap::range` over `..=key`, whose entries come in ascending key order, and
/// `DoubleEndedIterator::next_back` on it: the greatest key not above `key`.
#[verifier::external_body]
fn floor_key<V>(m: &BTreeMap<i64, V>, key: i64) -> (r: Option<i64>)
    ensures
        match r {
            Some(k) => m@.contains_key(k) && k <= key && forall|j: i64|
                #[trigger] m@.contains_key(j) && j <= key ==> j <= k,
            None => forall|j: i64| #[trigger] m@.contains_key(j) ==> j > key,
        },
{
    m.range(..=key).next_back().map(|(k, _)| *k)
}

/// Relies on `BTreeMap::range` over `key..`, whose entries come in ascending key order, and
/// `Iterator::next` on it: the least key not below `key`.
#[verifier::external_body]
fn ceiling_key<V>(m: &BTreeMap<i64, V>, key: i64) -> (r: Option<i64>)
    ensures
        match r {
            Some(k) => m@.contains_key(k) && k >= key && forall|j: i64|
                #[trigger] m@.contains_key(j) && j >= key ==> j >= k,
            None => forall|j: i64| #[trigger] m@.contains_key(j) ==> j < key,
        },
{
    m.range(key..).next().map(|(k, _)| *k)
}

/// Relies on `BTreeMap::split_off`: the entries whose keys are at least `key` move to the
/// returned map, the others stay.
#[verifier::external_body]
fn split_off_at<V>(m: &mut BTreeMap<i64, V>, key: i64) -> (r: BTreeMap<i64, V>)
    ensures
        r@ == old(m)@.restrict(Set::new(|k: i64| k >= key)),
        final(m)@ == old(m)@.restrict(Set::new(|k: i64| k < key)),
{
    m.split_off(&key)
}

} // verus!
