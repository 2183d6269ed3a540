//! The cache itself: a deque of slots kept in order of recency.
//!
//! Entries and order stand in one structure, so that no key can be in one
//! and not in the other. A key is found by comparing it with the keys in
//! the deque. vstd specifies a hash map only for keys whose hashing it
//! knows, which are the integers: of a map under an arbitrary key nothing
//! can be proved, not even that a key just inserted is there.

use super::entry::CacheEntry;
use super::entry::EntryView;
use super::key::CacheKey;
use super::model::lemma_filter_absent;
use super::model::lemma_filter_present;
use super::model::lemma_position;
use super::model::live_at;
use super::model::CacheView;
use super::model::SlotView;
use crate::clock::Clock;
use std::collections::VecDeque;
use vstd::prelude::*;

verus! {

/// A key and the entry cached under it.
struct Slot<K, V> {
    key: K,
    entry: CacheEntry<V>,
}

impl<K: View, V> View for Slot<K, V> {
    type V = SlotView<K::V, V>;

    closed spec fn view(&self) -> SlotView<K::V, V> {
        SlotView { key: self.key@, entry: self.entry@ }
    }
}

/// The slots of a deque as the model sees them.
spec fn slot_views<K: View, V>(slots: Seq<Slot<K, V>>) -> Seq<SlotView<K::V, V>> {
    Seq::new(slots.len(), |i: int| slots[i]@)
}

/// Whether `result` is what a read hands out when it finds `stored`: a
/// clone of the value, or nothing.
pub open spec fn clone_of<V: Clone>(result: Option<V>, stored: Option<V>) -> bool {
    match (result, stored) {
        (Some(handed), Some(kept)) => cloned(kept, handed),
        (None, None) => true,
        _ => false,
    }
}

/// A cache of at most `capacity` entries. A read or a write makes an entry
/// the most recently used; a write into a full cache evicts the least
/// recently used. An entry older than its time-to-live is gone for every
/// reader: the read that meets it removes it.
pub struct LruCache<K: CacheKey, V: Clone> {
    capacity: usize,
    slots: VecDeque<Slot<K, V>>,
    default_ttl: Option<u64>,
    clock: Clock,
}

impl<K: CacheKey, V: Clone> View for LruCache<K, V> {
    type V = CacheView<K::V, V>;

    closed spec fn view(&self) -> CacheView<K::V, V> {
        CacheView {
            capacity: self.capacity as nat,
            default_ttl: self.default_ttl,
            slots: slot_views(self.slots@),
        }
    }
}

impl<K: CacheKey, V: Clone> LruCache<K, V> {
    /// The cache's invariant: that of its model.
    pub open spec fn wf(&self) -> bool {
        self@.wf()
    }

    /// An empty cache of the given capacity. `default_ttl`, in nanoseconds,
    /// is the time-to-live of entries written by `put`.
    pub fn new(capacity: usize, default_ttl: Option<u64>) -> (cache: Self)
        ensures
            cache.wf(),
            cache@ == CacheView::<K::V, V>::empty(capacity as nat, default_ttl),
    {
        let cache = LruCache { capacity, slots: VecDeque::new(), default_ttl, clock: Clock::start() };
        cache
    }

    /// The cache's capacity.
    pub fn capacity(&self) -> (capacity: usize)
        ensures
            capacity == self@.capacity,
    {
        self.capacity
    }

    /// The number of resident entries.
    pub fn len(&self) -> (len: usize)
        ensures
            len == self@.len(),
    {
        self.slots.len()
    }

    /// The time on the cache's own clock, in nanoseconds since the cache
    /// was made.
    pub fn now(&self) -> (now: u64) {
        self.clock.now()
    }

    /// Where `key` stands among the slots, if it is resident.
    fn find(&self, key: &K) -> (at: Option<usize>)
        requires
            self.wf(),
        ensures
            match at {
                Some(i) => i < self.slots@.len() && self.slots@[i as int].key@ == key@
                    && self@.position(key@) == i,
                None => true,
            },
            at.is_some() == self@.contains(key@),
    {
        let mut i: usize = 0;
        while i < self.slots.len()
            invariant
                self.wf(),
                i <= self.slots@.len(),
                forall|j: int| 0 <= j < i ==> self.slots@[j].key@ != key@,
            decreases self.slots@.len() - i,
        {
            if self.slots[i].key.same_key(key) {
                proof {
                    lemma_position(self@, key@, i as int);
                }
                return Some(i);
            }
            i = i + 1;
        }
        None
    }

    /// Reads `key` at the present moment: `get_at` with the time that the
    /// cache's clock shows.
    pub fn get(&mut self, key: &K) -> (value: Option<V>)
        requires
            old(self).wf(),
        ensures
            final(self).wf(),
            exists|now: u64|
                final(self)@ == #[trigger] old(self)@.read(key@, now) && clone_of(
                    value,
                    old(self)@.found(key@, now),
                ),
    {
        let now = self.clock.now();
        self.get_at(key, now)
    }

    /// Reads `key` at the time `now`. A resident entry that has not expired
    /// is touched, becomes the most recently used, and a clone of its value
    /// is returned. An expired entry is removed and nothing is returned, as
    /// for an absent key.
    pub fn get_at(&mut self, key: &K, now: u64) -> (value: Option<V>)
        requires
            old(self).wf(),
        ensures
            final(self).wf(),
            final(self)@ == old(self)@.read(key@, now),
            clone_of(value, old(self)@.found(key@, now)),
    {
        match self.find(key) {
            None => None,
            Some(i) => {
                proof {
                    lemma_filter_present(self@.slots, key@, i as int);
                }
                let taken = self.slots.remove(i);
                assert(slot_views(self.slots@) =~= old(self)@.slots.remove(i as int));
                let mut slot = taken.unwrap();
                if slot.entry.is_expired(now) {
                    None
                } else {
                    slot.entry.access(now);
                    let value = slot.entry.value().clone();
                    self.slots.push_front(slot);
                    assert(slot_views(self.slots@) =~= seq![
                        SlotView { key: key@, entry: old(self)@.entry(key@).touched(now) },
                    ] + old(self)@.slots.remove(i as int));
                    Some(value)
                }
            },
        }
    }

    /// Writes `value` under `key` with the cache's default time-to-live.
    pub fn put(&mut self, key: K, value: V)
        requires
            old(self).wf(),
        ensures
            final(self).wf(),
            exists|now: u64|
                final(self)@ == #[trigger] old(self)@.stored(
                    key@,
                    value,
                    old(self)@.default_ttl,
                    now,
                ),
    {
        let ttl = self.default_ttl;
        self.put_with_ttl(key, value, ttl)
    }

    /// Writes `value` under `key` with the time-to-live `ttl`, in
    /// nanoseconds, at the present moment.
    pub fn put_with_ttl(&mut self, key: K, value: V, ttl: Option<u64>)
        requires
            old(self).wf(),
        ensures
            final(self).wf(),
            exists|now: u64| final(self)@ == #[trigger] old(self)@.stored(key@, value, ttl, now),
    {
        let now = self.clock.now();
        self.put_with_ttl_at(key, value, ttl, now)
    }

    /// Writes `value` under `key` at the time `now` with the cache's default
    /// time-to-live.
    pub fn put_at(&mut self, key: K, value: V, now: u64)
        requires
            old(self).wf(),
        ensures
            final(self).wf(),
            final(self)@ == old(self)@.stored(key@, value, old(self)@.default_ttl, now),
    {
        let ttl = self.default_ttl;
        self.put_with_ttl_at(key, value, ttl, now)
    }

    /// Writes `value` under `key` at the time `now` with the time-to-live
    /// `ttl`. An entry already under `key` is replaced and its time-to-live
    /// starts again. Else, where the cache is full, the least recently used
    /// entry is evicted before the new one enters. The new entry is the
    /// most recently used. A cache of no capacity takes no entry.
    pub fn put_with_ttl_at(&mut self, key: K, value: V, ttl: Option<u64>, now: u64)
        requires
            old(self).wf(),
        ensures
            final(self).wf(),
            final(self)@ == old(self)@.stored(key@, value, ttl, now),
    {
        match self.find(&key) {
            Some(i) => {
                proof {
                    lemma_filter_present(self@.slots, key@, i as int);
                }
                self.slots.remove(i);
                assert(slot_views(self.slots@) =~= old(self)@.slots.remove(i as int));
            },
            None => {
                if self.slots.len() >= self.capacity {
                    self.evict_lru();
                }
            },
        }
        let ghost base = self@;
        assert(base == old(self)@.cleared_for(key@));
        if self.slots.len() < self.capacity {
            let entry = CacheEntry::new(value, ttl, now);
            self.slots.push_front(Slot { key, entry });
            assert(slot_views(self.slots@) =~= seq![
                SlotView { key: key@, entry: EntryView::fresh(value, ttl, now) },
            ] + base.slots);
        }
    }

    /// Removes the entry under `key`, if there is one.
    pub fn remove(&mut self, key: &K)
        requires
            old(self).wf(),
        ensures
            final(self).wf(),
            final(self)@ == old(self)@.removed(key@),
    {
        match self.find(key) {
            Some(i) => {
                proof {
                    lemma_filter_present(self@.slots, key@, i as int);
                }
                self.slots.remove(i);
                assert(slot_views(self.slots@) =~= old(self)@.slots.remove(i as int));
            },
            None => {
                proof {
                    lemma_filter_absent(self@.slots, key@);
                }
            },
        }
    }

    /// Evicts the least recently used entry, if the cache holds any.
    fn evict_lru(&mut self)
        ensures
            final(self)@ == old(self)@.evicted(),
    {
        self.slots.pop_back();
    }

    /// Removes the entries that have expired at the present moment.
    pub fn cleanup_expired(&mut self)
        requires
            old(self).wf(),
        ensures
            final(self).wf(),
            exists|now: u64| final(self)@ == #[trigger] old(self)@.swept(now),
    {
        let now = self.clock.now();
        self.cleanup_expired_at(now)
    }

    /// Removes the entries that have expired at the time `now`. The others
    /// stay, in their order.
    pub fn cleanup_expired_at(&mut self, now: u64)
        requires
            old(self).wf(),
        ensures
            final(self).wf(),
            final(self)@ == old(self)@.swept(now),
    {
        proof {
            old(self)@.lemma_swept_wf(now);
        }
        let mut kept: VecDeque<Slot<K, V>> = VecDeque::new();
        let ghost all = self.slots@;
        let ghost mut done: int = 0;
        loop
            invariant
                0 <= done <= all.len(),
                self.slots@ =~= all.skip(done),
                slot_views(kept@) == slot_views(all).take(done).filter(live_at(now)),
                self.capacity == old(self).capacity,
                self.default_ttl == old(self).default_ttl,
            ensures
                done == all.len(),
            decreases all.len() - done,
        {
            match self.slots.pop_front() {
                None => {
                    break ;
                },
                Some(slot) => {
                    proof {
                        assert(slot_views(all).take(done + 1) =~= slot_views(all).take(done).push(
                            slot@,
                        ));
                        slot_views(all).take(done).lemma_filter_push(slot@, live_at(now));
                    }
                    if !slot.entry.is_expired(now) {
                        kept.push_back(slot);
                    }
                    proof {
                        done = done + 1;
                    }
                },
            }
        }
        self.slots = kept;
        assert(slot_views(all).take(all.len() as int) =~= slot_views(all));
    }
}

} // verus!
