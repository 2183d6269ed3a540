//! What holds of every cache, stated over its model.

use super::entry::EntryView;
use super::model::lemma_filter_absent;
use super::model::lemma_filter_keeps;
use super::model::lemma_filter_present;
use super::model::lemma_position;
use super::model::live_at;
use super::model::CacheView;
use vstd::prelude::*;

verus! {

/// The empty cache is well formed.
pub proof fn lemma_empty_wf<K, V>(capacity: nat, default_ttl: Option<u64>)
    ensures
        CacheView::<K, V>::empty(capacity, default_ttl).wf(),
        CacheView::<K, V>::empty(capacity, default_ttl).len() == 0,
{
}

/// The order of recency and the entries speak of the same keys: a key
/// stands in the order exactly if an entry is resident under it, and it
/// stands there once.
pub proof fn lemma_order_matches_entries<K, V>(cache: CacheView<K, V>)
    requires
        cache.wf(),
    ensures
        cache.keys().no_duplicates(),
        cache.keys().len() == cache.len(),
        cache.keys().to_set() =~= cache.entries().dom(),
{
    assert forall|key: K| cache.keys().to_set().contains(key) == cache.entries().dom().contains(
        key,
    ) by {
        if cache.contains(key) {
            let i = cache.position(key);
            assert(cache.keys()[i] == key);
        }
    }
}

/// No write takes the number of resident entries above the capacity.
pub proof fn lemma_write_keeps_capacity<K, V>(
    cache: CacheView<K, V>,
    key: K,
    value: V,
    ttl: Option<u64>,
    now: u64,
)
    requires
        cache.wf(),
    ensures
        cache.len() <= cache.capacity,
        cache.stored(key, value, ttl, now).len() <= cache.capacity,
{
    cache.lemma_stored_wf(key, value, ttl, now);
}

/// One write: the key, the value, the time-to-live and the time.
pub struct Write<K, V> {
    pub key: K,
    pub value: V,
    pub ttl: Option<u64>,
    pub at: u64,
}

/// The cache after the writes of `writes`, in their order.
pub open spec fn after_writes<K, V>(cache: CacheView<K, V>, writes: Seq<Write<K, V>>) -> CacheView<
    K,
    V,
>
    decreases writes.len(),
{
    if writes.len() == 0 {
        cache
    } else {
        let write = writes.last();
        after_writes(cache, writes.drop_last()).stored(write.key, write.value, write.ttl, write.at)
    }
}

/// However many writes a cache takes, it stays well formed and never holds
/// more entries than its capacity.
pub proof fn lemma_writes_keep_capacity<K, V>(cache: CacheView<K, V>, writes: Seq<Write<K, V>>)
    requires
        cache.wf(),
    ensures
        after_writes(cache, writes).wf(),
        after_writes(cache, writes).capacity == cache.capacity,
        after_writes(cache, writes).len() <= cache.capacity,
    decreases writes.len(),
{
    if writes.len() > 0 {
        let write = writes.last();
        lemma_writes_keep_capacity(cache, writes.drop_last());
        after_writes(cache, writes.drop_last()).lemma_stored_wf(
            write.key,
            write.value,
            write.ttl,
            write.at,
        );
    }
}

/// A cache of no capacity holds nothing, and no write changes that.
pub proof fn lemma_no_capacity_stays_empty<K, V>(
    cache: CacheView<K, V>,
    key: K,
    value: V,
    ttl: Option<u64>,
    now: u64,
)
    requires
        cache.wf(),
        cache.capacity == 0,
    ensures
        cache.len() == 0,
        cache.stored(key, value, ttl, now) == cache,
        cache.stored(key, value, ttl, now).found(key, now).is_none(),
{
}

/// A write of a new key into a full cache evicts the least recently used
/// key and no other: every other entry stays as it was.
pub proof fn lemma_write_evicts_least_recent<K, V>(
    cache: CacheView<K, V>,
    key: K,
    value: V,
    ttl: Option<u64>,
    now: u64,
)
    requires
        cache.wf(),
        !cache.contains(key),
        cache.len() >= cache.capacity,
        cache.len() > 0,
    ensures
        !cache.stored(key, value, ttl, now).contains(cache.lru_key()),
        cache.stored(key, value, ttl, now).contains(key),
        forall|other: K|
            cache.contains(other) && other != cache.lru_key() ==> cache.stored(
                key,
                value,
                ttl,
                now,
            ).contains(other) && cache.stored(key, value, ttl, now).entry(other) == cache.entry(
                other,
            ),
{
    let after = cache.stored(key, value, ttl, now);
    let base = cache.evicted();
    cache.lemma_evicted_wf();
    lemma_behind_front(base, after, key);
}

/// A write that finds its key resident, or the cache not full, evicts
/// nothing: every other entry stays as it was.
pub proof fn lemma_write_without_eviction<K, V>(
    cache: CacheView<K, V>,
    key: K,
    value: V,
    ttl: Option<u64>,
    now: u64,
)
    requires
        cache.wf(),
        cache.contains(key) || cache.len() < cache.capacity,
    ensures
        cache.stored(key, value, ttl, now).contains(key),
        forall|other: K|
            cache.contains(other) && other != key ==> cache.stored(key, value, ttl, now).contains(
                other,
            ) && cache.stored(key, value, ttl, now).entry(other) == cache.entry(other),
{
    let after = cache.stored(key, value, ttl, now);
    cache.lemma_removed_wf(key);
    if cache.contains(key) {
        lemma_behind_front(cache.removed(key), after, key);
    } else {
        lemma_behind_front(cache, after, key);
    }
}

/// Where `after` is `base` behind a new first slot for `key`, `after` holds
/// of the other keys what `base` holds.
proof fn lemma_behind_front<K, V>(
    base: CacheView<K, V>,
    after: CacheView<K, V>,
    key: K,
)
    requires
        base.wf(),
        after.wf(),
        after.slots.len() == base.slots.len() + 1,
        after.slots[0].key == key,
        forall|i: int| 0 <= i < base.slots.len() ==> after.slots[i + 1] == #[trigger] base.slots[i],
    ensures
        after.contains(key),
        after.entry(key) == after.slots[0].entry,
        forall|other: K| other != key ==> after.contains(other) == base.contains(other),
        forall|other: K|
            other != key && base.contains(other) ==> after.entry(other) == base.entry(other),
        forall|a: K, b: K|
            a != key && b != key && base.contains(a) && base.contains(b) ==> (after.position(a)
                < after.position(b)) == (base.position(a) < base.position(b)),
{
    assert forall|other: K| other != key implies after.contains(other) == base.contains(other) by {
        if after.contains(other) {
            let q = after.position(other);
            assert(after.slots[q] == base.slots[q - 1]);
        }
    }
}

/// A read that finds a live entry makes its key the most recently used and
/// keeps the order of the other keys; so does a write into a cache that
/// has a capacity, among the keys that stay.
pub proof fn lemma_touch_moves_to_front<K, V>(
    cache: CacheView<K, V>,
    key: K,
    value: V,
    ttl: Option<u64>,
    now: u64,
)
    requires
        cache.wf(),
    ensures
        cache.capacity >= 1 ==> cache.stored(key, value, ttl, now).position(key) == 0,
        cache.found(key, now).is_some() ==> cache.read(key, now).position(key) == 0,
        forall|a: K, b: K|
            a != key && b != key && cache.stored(key, value, ttl, now).contains(a) && cache.stored(
                key,
                value,
                ttl,
                now,
            ).contains(b) ==> (cache.stored(key, value, ttl, now).position(a) < cache.stored(
                key,
                value,
                ttl,
                now,
            ).position(b)) == (cache.position(a) < cache.position(b)),
        forall|a: K, b: K|
            cache.found(key, now).is_some() && a != key && b != key && cache.contains(a)
                && cache.contains(b) ==> (cache.read(key, now).position(a) < cache.read(
                key,
                now,
            ).position(b)) == (cache.position(a) < cache.position(b)),
{
    let written = cache.stored(key, value, ttl, now);
    cache.lemma_removed_wf(key);
    let base = cache.cleared_for(key);
    if cache.capacity >= 1 {
        lemma_behind_front(base, written, key);
    }
    lemma_order_kept(cache, base, key);
    if cache.found(key, now).is_some() {
        let seen = cache.read(key, now);
        lemma_behind_front(cache.removed(key), seen, key);
    }
}

/// Taking one slot out of a cache keeps the order of the keys that stay.
proof fn lemma_order_kept<K, V>(cache: CacheView<K, V>, base: CacheView<K, V>, key: K)
    requires
        cache.wf(),
        base.wf(),
        base == cache || base == cache.removed(key) || base == cache.evicted(),
    ensures
        forall|a: K| base.contains(a) ==> cache.contains(a),
        forall|a: K, b: K|
            base.contains(a) && base.contains(b) ==> (base.position(a) < base.position(b)) == (
            cache.position(a) < cache.position(b)),
{
    if base == cache.removed(key) {
        if cache.contains(key) {
            lemma_filter_present(cache.slots, key, cache.position(key));
        } else {
            lemma_filter_absent(cache.slots, key);
        }
    }
}

/// A read of a key whose time-to-live has run out finds nothing and
/// removes the entry: the key is absent to every later read, at whatever
/// time, and such a read changes nothing.
pub proof fn lemma_expired_read<K, V>(cache: CacheView<K, V>, key: K, now: u64, later: u64)
    requires
        cache.wf(),
        cache.contains(key),
        cache.entry(key).expired_at(now),
    ensures
        cache.found(key, now).is_none(),
        !cache.read(key, now).contains(key),
        cache.read(key, now).found(key, later).is_none(),
        cache.read(key, now).read(key, later) == cache.read(key, now),
{
}

/// An entry written with a time-to-live is found by no read that comes more
/// than the time-to-live after the write.
pub proof fn lemma_read_after_ttl<K, V>(
    cache: CacheView<K, V>,
    key: K,
    value: V,
    ttl: u64,
    written: u64,
    now: u64,
)
    requires
        cache.wf(),
        now - written > ttl,
    ensures
        cache.stored(key, value, Some(ttl), written).found(key, now).is_none(),
        !cache.stored(key, value, Some(ttl), written).read(key, now).contains(key),
{
}

/// In a cache that has a capacity, a read that follows a write of the same
/// key, before the time-to-live has run out, finds the value that was
/// written.
pub proof fn lemma_read_after_write<K, V>(
    cache: CacheView<K, V>,
    key: K,
    value: V,
    ttl: Option<u64>,
    written: u64,
    now: u64,
)
    requires
        cache.wf(),
        cache.capacity >= 1,
        ttl matches Some(span) ==> now - written <= span,
    ensures
        cache.stored(key, value, ttl, written).found(key, now) == Some(value),
        cache.stored(key, value, ttl, written).entry(key) == EntryView::fresh(value, ttl, written),
{
    let after = cache.stored(key, value, ttl, written);
    cache.lemma_removed_wf(key);
    cache.lemma_stored_wf(key, value, ttl, written);
    lemma_position(after, key, 0);
}

/// A sweep removes exactly the entries that have expired: what is resident
/// after it was resident before and is live, and every live entry stays
/// as it was.
pub proof fn lemma_sweep_removes_expired<K, V>(cache: CacheView<K, V>, now: u64, key: K)
    requires
        cache.wf(),
    ensures
        cache.swept(now).wf(),
        cache.swept(now).contains(key) == (cache.contains(key) && !cache.entry(key).expired_at(
            now,
        )),
        cache.swept(now).contains(key) ==> cache.swept(now).entry(key) == cache.entry(key),
{
    lemma_filter_keeps(cache.slots, live_at(now));
}

} // verus!
