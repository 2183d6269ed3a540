//! The cache as a mathematical value: its slots in order of recency, the
//! most recently used first and the next to be evicted last.

use super::entry::EntryView;
use vstd::prelude::*;

verus! {

/// A key with the entry stored under it.
pub struct SlotView<K, V> {
    pub key: K,
    pub entry: EntryView<V>,
}

/// Holds of the slots whose key is not `key`.
pub open spec fn other_than<K, V>(key: K) -> spec_fn(SlotView<K, V>) -> bool {
    |slot: SlotView<K, V>| slot.key != key
}

/// Holds of the slots whose entry has not expired at `now`.
pub open spec fn live_at<K, V>(now: u64) -> spec_fn(SlotView<K, V>) -> bool {
    |slot: SlotView<K, V>| !slot.entry.expired_at(now)
}

/// No key stands in two slots.
pub open spec fn distinct_keys<K, V>(slots: Seq<SlotView<K, V>>) -> bool {
    forall|i: int, j: int| 0 <= i < j < slots.len() ==> slots[i].key != slots[j].key
}

/// Some slot holds `key`.
pub open spec fn holds_key<K, V>(slots: Seq<SlotView<K, V>>, key: K) -> bool {
    exists|i: int| 0 <= i < slots.len() && #[trigger] slots[i].key == key
}

/// A cache: its bound, the time-to-live given to entries written without
/// one, and its slots in order of recency.
#[verifier::ext_equal]
pub struct CacheView<K, V> {
    pub capacity: nat,
    pub default_ttl: Option<u64>,
    pub slots: Seq<SlotView<K, V>>,
}

impl<K, V> CacheView<K, V> {
    /// The empty cache.
    pub open spec fn empty(capacity: nat, default_ttl: Option<u64>) -> Self {
        CacheView { capacity, default_ttl, slots: Seq::empty() }
    }

    /// The number of resident entries.
    pub open spec fn len(self) -> nat {
        self.slots.len()
    }

    /// Whether an entry is resident under `key`.
    pub open spec fn contains(self, key: K) -> bool {
        holds_key(self.slots, key)
    }

    /// Where `key` stands in the order of recency.
    pub open spec fn position(self, key: K) -> int {
        choose|i: int| 0 <= i < self.slots.len() && #[trigger] self.slots[i].key == key
    }

    /// The entry resident under `key`.
    pub open spec fn entry(self, key: K) -> EntryView<V> {
        self.slots[self.position(key)].entry
    }

    /// The resident keys in order of recency.
    pub open spec fn keys(self) -> Seq<K> {
        Seq::new(self.slots.len(), |i: int| self.slots[i].key)
    }

    /// The resident entries by key.
    pub open spec fn entries(self) -> Map<K, EntryView<V>> {
        Map::new(|key: K| self.contains(key), |key: K| self.entry(key))
    }

    /// The key that the next eviction takes: the least recently used.
    pub open spec fn lru_key(self) -> K {
        self.slots.last().key
    }

    /// No key is resident twice, every entry is well formed and there are
    /// no more entries than the capacity allows.
    pub open spec fn wf(self) -> bool {
        &&& distinct_keys(self.slots)
        &&& forall|i: int| 0 <= i < self.slots.len() ==> (#[trigger] self.slots[i]).entry.wf()
        &&& self.len() <= self.capacity
    }

    /// The cache without the entry under `key`.
    pub open spec fn removed(self, key: K) -> Self {
        CacheView { slots: self.slots.filter(other_than(key)), ..self }
    }

    /// The cache without the entries that have expired at `now`.
    pub open spec fn swept(self, now: u64) -> Self {
        CacheView { slots: self.slots.filter(live_at(now)), ..self }
    }

    /// The cache without its least recently used entry.
    pub open spec fn evicted(self) -> Self {
        if self.slots.len() == 0 {
            self
        } else {
            CacheView { slots: self.slots.drop_last(), ..self }
        }
    }

    /// The cache that makes room for a write under `key`: an entry already
    /// under `key` leaves; else, in a full cache, the least recently used
    /// entry leaves.
    pub open spec fn cleared_for(self, key: K) -> Self {
        if self.contains(key) {
            self.removed(key)
        } else if self.len() >= self.capacity {
            self.evicted()
        } else {
            self
        }
    }

    /// The cache after `value` was written under `key` at `now`. Room is
    /// made first; then the new entry enters as the most recently used. A
    /// cache of no capacity has no room to make and stays empty.
    pub open spec fn stored(self, key: K, value: V, ttl: Option<u64>, now: u64) -> Self {
        let base = self.cleared_for(key);
        if base.len() < self.capacity {
            CacheView {
                slots: seq![SlotView { key, entry: EntryView::fresh(value, ttl, now) }]
                    + base.slots,
                ..self
            }
        } else {
            base
        }
    }

    /// The value that a read of `key` at `now` finds.
    pub open spec fn found(self, key: K, now: u64) -> Option<V> {
        if self.contains(key) && !self.entry(key).expired_at(now) {
            Some(self.entry(key).value)
        } else {
            None
        }
    }

    /// The cache after a read of `key` at `now`: an expired entry leaves, a
    /// live one is touched and becomes the most recently used.
    pub open spec fn read(self, key: K, now: u64) -> Self {
        if !self.contains(key) {
            self
        } else if self.entry(key).expired_at(now) {
            self.removed(key)
        } else {
            CacheView {
                slots: seq![SlotView { key, entry: self.entry(key).touched(now) }]
                    + self.removed(key).slots,
                ..self
            }
        }
    }
}

/// In a sequence of distinct keys a key stands where it is found.
pub proof fn lemma_position<K, V>(view: CacheView<K, V>, key: K, i: int)
    requires
        distinct_keys(view.slots),
        0 <= i < view.slots.len(),
        view.slots[i].key == key,
    ensures
        view.contains(key),
        view.position(key) == i,
        view.entry(key) == view.slots[i].entry,
{
}

/// Filtering for the other keys changes nothing where the key is absent.
pub proof fn lemma_filter_absent<K, V>(slots: Seq<SlotView<K, V>>, key: K)
    requires
        !holds_key(slots, key),
    ensures
        slots.filter(other_than(key)) == slots,
    decreases slots.len(),
{
    reveal(Seq::filter);
    if slots.len() > 0 {
        let front = slots.drop_last();
        lemma_filter_absent(front, key);
    }
}

/// Among distinct keys, filtering for the other keys takes out the one slot
/// that holds the key.
pub proof fn lemma_filter_present<K, V>(slots: Seq<SlotView<K, V>>, key: K, i: int)
    requires
        distinct_keys(slots),
        0 <= i < slots.len(),
        slots[i].key == key,
    ensures
        slots.filter(other_than(key)) == slots.remove(i),
    decreases slots.len(),
{
    reveal(Seq::filter);
    let front = slots.drop_last();
    if i == slots.len() - 1 {
        lemma_filter_absent(front, key);
    } else {
        lemma_filter_present(front, key, i);
    }
}

/// What a filter keeps of distinct, well-formed slots is distinct and well
/// formed, and every slot kept is one of the slots filtered.
pub proof fn lemma_filter_keeps<K, V>(
    slots: Seq<SlotView<K, V>>,
    pred: spec_fn(SlotView<K, V>) -> bool,
)
    requires
        distinct_keys(slots),
        forall|i: int| 0 <= i < slots.len() ==> (#[trigger] slots[i]).entry.wf(),
    ensures
        distinct_keys(slots.filter(pred)),
        forall|i: int|
            0 <= i < slots.filter(pred).len() ==> (#[trigger] slots.filter(pred)[i]).entry.wf(),
        slots.filter(pred).len() <= slots.len(),
        forall|i: int|
            0 <= i < slots.filter(pred).len() ==> pred(#[trigger] slots.filter(pred)[i])
                && slots.contains(slots.filter(pred)[i]),
        forall|i: int|
            0 <= i < slots.len() && pred(slots[i]) ==> slots.filter(pred).contains(
                #[trigger] slots[i],
            ),
    decreases slots.len(),
{
    reveal(Seq::filter);
    if slots.len() > 0 {
        let front = slots.drop_last();
        lemma_filter_keeps(front, pred);
    }
}

impl<K, V> CacheView<K, V> {
    /// Removing a key keeps the cache well formed, takes the key out and
    /// leaves every other entry as it was.
    pub proof fn lemma_removed_wf(self, key: K)
        requires
            self.wf(),
        ensures
            self.removed(key).wf(),
            !self.removed(key).contains(key),
            self.removed(key).len() == if self.contains(key) {
                self.len() - 1
            } else {
                self.len() as int
            },
            forall|other: K|
                other != key ==> self.removed(key).contains(other) == self.contains(other),
            forall|other: K|
                other != key && self.contains(other) ==> self.removed(key).entry(other)
                    == self.entry(other),
    {
        let after = self.removed(key);
        if self.contains(key) {
            let i = self.position(key);
            lemma_filter_present(self.slots, key, i);
            assert forall|other: K| other != key implies after.contains(other) == self.contains(
                other,
            ) by {
                if self.contains(other) {
                    let p = self.position(other);
                    let q = if p < i { p } else { p - 1 };
                    assert(after.slots[q].key == other);
                }
            }
        } else {
            lemma_filter_absent(self.slots, key);
        }
    }

    /// Eviction keeps the cache well formed.
    pub proof fn lemma_evicted_wf(self)
        requires
            self.wf(),
        ensures
            self.evicted().wf(),
            self.len() > 0 ==> self.evicted().len() == self.len() - 1,
            self.len() > 0 ==> !self.evicted().contains(self.lru_key()),
            forall|other: K|
                self.len() > 0 && other != self.lru_key() ==> self.evicted().contains(other)
                    == self.contains(other),
            forall|other: K|
                self.len() > 0 && other != self.lru_key() && self.contains(other)
                    ==> self.evicted().entry(other) == self.entry(other),
    {
        let after = self.evicted();
        if self.len() > 0 {
            assert forall|other: K| other != self.lru_key() implies after.contains(other)
                == self.contains(other) by {
                if self.contains(other) {
                    let p = self.position(other);
                    assert(after.slots[p].key == other);
                }
            }
        }
    }

    /// A write keeps the cache well formed.
    pub proof fn lemma_stored_wf(self, key: K, value: V, ttl: Option<u64>, now: u64)
        requires
            self.wf(),
        ensures
            self.stored(key, value, ttl, now).wf(),
    {
        self.lemma_removed_wf(key);
    }

    /// A read keeps the cache well formed.
    pub proof fn lemma_read_wf(self, key: K, now: u64)
        requires
            self.wf(),
        ensures
            self.read(key, now).wf(),
    {
        self.lemma_removed_wf(key);
    }

    /// A sweep keeps the cache well formed.
    pub proof fn lemma_swept_wf(self, now: u64)
        requires
            self.wf(),
        ensures
            self.swept(now).wf(),
    {
        lemma_filter_keeps(self.slots, live_at(now));
    }
}

} // verus!
