//! The two caches of the backend, behind one handle.

use super::lru::LruCache;
use super::model::CacheView;
use vstd::prelude::*;

verus! {

/// The time between two sweeps of the caches, in nanoseconds: 300 seconds.
pub const CLEANUP_INTERVAL_NANOS: u64 = 300_000_000_000;

/// What a manager holds: response bodies by request signature, and query
/// results by query.
pub struct ManagerView {
    pub responses: CacheView<Seq<char>, Vec<u8>>,
    pub queries: CacheView<Seq<char>, String>,
    pub cleanup_interval: u64,
}

/// Whether `body` is what a lookup hands out when it finds `stored`: the
/// same bytes, or nothing.
pub open spec fn body_of(body: Option<Vec<u8>>, stored: Option<Vec<u8>>) -> bool {
    match (body, stored) {
        (Some(handed), Some(kept)) => handed@ == kept@,
        (None, None) => true,
        _ => false,
    }
}

/// A cache of serialized responses and a cache of query results, with one
/// time-to-live for both. Whoever owns the manager sweeps it: one call of
/// `cleanup` every `cleanup_interval` nanoseconds removes the entries that
/// were written once and never read again.
pub struct CacheManager {
    response_cache: LruCache<String, Vec<u8>>,
    query_cache: LruCache<String, String>,
    cleanup_interval: u64,
}

impl View for CacheManager {
    type V = ManagerView;

    closed spec fn view(&self) -> ManagerView {
        ManagerView {
            responses: self.response_cache@,
            queries: self.query_cache@,
            cleanup_interval: self.cleanup_interval,
        }
    }
}

impl CacheManager {
    /// Both caches are well formed.
    pub open spec fn wf(&self) -> bool {
        self@.responses.wf() && self@.queries.wf()
    }

    /// Two empty caches of the given capacities whose entries live for
    /// `ttl` nanoseconds.
    pub fn new(response_capacity: usize, query_capacity: usize, ttl: u64) -> (manager: Self)
        ensures
            manager.wf(),
            manager@.responses == CacheView::<Seq<char>, Vec<u8>>::empty(
                response_capacity as nat,
                Some(ttl),
            ),
            manager@.queries == CacheView::<Seq<char>, String>::empty(
                query_capacity as nat,
                Some(ttl),
            ),
            manager@.cleanup_interval == CLEANUP_INTERVAL_NANOS,
    {
        CacheManager {
            response_cache: LruCache::new(response_capacity, Some(ttl)),
            query_cache: LruCache::new(query_capacity, Some(ttl)),
            cleanup_interval: CLEANUP_INTERVAL_NANOS,
        }
    }

    /// The time to let pass between two calls of `cleanup`, in nanoseconds.
    pub fn cleanup_interval(&self) -> (interval: u64)
        ensures
            interval == self@.cleanup_interval,
    {
        self.cleanup_interval
    }

    /// Looks up the response cached under `key` at the present moment.
    pub fn get_response(&mut self, key: &str) -> (body: Option<Vec<u8>>)
        requires
            old(self).wf(),
        ensures
            final(self).wf(),
            final(self)@.queries == old(self)@.queries,
            final(self)@.cleanup_interval == old(self)@.cleanup_interval,
            exists|now: u64|
                final(self)@.responses == #[trigger] old(self)@.responses.read(key@, now)
                    && body_of(body, old(self)@.responses.found(key@, now)),
    {
        let owned = key.to_owned();
        self.response_cache.get(&owned)
    }

    /// Looks up the response cached under `key` at the time `now`: a read of
    /// the response cache.
    pub fn get_response_at(&mut self, key: &str, now: u64) -> (body: Option<Vec<u8>>)
        requires
            old(self).wf(),
        ensures
            final(self).wf(),
            final(self)@.queries == old(self)@.queries,
            final(self)@.cleanup_interval == old(self)@.cleanup_interval,
            final(self)@.responses == old(self)@.responses.read(key@, now),
            body_of(body, old(self)@.responses.found(key@, now)),
    {
        let owned = key.to_owned();
        self.response_cache.get_at(&owned, now)
    }

    /// Caches `value` as the response for `key` at the present moment.
    pub fn put_response(&mut self, key: String, value: Vec<u8>)
        requires
            old(self).wf(),
        ensures
            final(self).wf(),
            final(self)@.queries == old(self)@.queries,
            final(self)@.cleanup_interval == old(self)@.cleanup_interval,
            exists|now: u64|
                final(self)@.responses == #[trigger] old(self)@.responses.stored(
                    key@,
                    value,
                    old(self)@.responses.default_ttl,
                    now,
                ),
    {
        self.response_cache.put(key, value)
    }

    /// Caches `value` as the response for `key` at the time `now`: a write
    /// into the response cache with the manager's time-to-live.
    pub fn put_response_at(&mut self, key: String, value: Vec<u8>, now: u64)
        requires
            old(self).wf(),
        ensures
            final(self).wf(),
            final(self)@.queries == old(self)@.queries,
            final(self)@.cleanup_interval == old(self)@.cleanup_interval,
            final(self)@.responses == old(self)@.responses.stored(
                key@,
                value,
                old(self)@.responses.default_ttl,
                now,
            ),
    {
        self.response_cache.put_at(key, value, now)
    }

    /// One tick of the background sweep, at the present moment: each cache
    /// loses the entries that have expired on its own clock.
    pub fn cleanup(&mut self)
        requires
            old(self).wf(),
        ensures
            final(self).wf(),
            final(self)@.cleanup_interval == old(self)@.cleanup_interval,
            exists|now: u64| final(self)@.responses == #[trigger] old(self)@.responses.swept(now),
            exists|now: u64| final(self)@.queries == #[trigger] old(self)@.queries.swept(now),
    {
        self.response_cache.cleanup_expired();
        self.query_cache.cleanup_expired();
    }

    /// One tick of the background sweep at the time `now`: both caches lose
    /// the entries that have expired.
    pub fn cleanup_at(&mut self, now: u64)
        requires
            old(self).wf(),
        ensures
            final(self).wf(),
            final(self)@.cleanup_interval == old(self)@.cleanup_interval,
            final(self)@.responses == old(self)@.responses.swept(now),
            final(self)@.queries == old(self)@.queries.swept(now),
    {
        self.response_cache.cleanup_expired_at(now);
        self.query_cache.cleanup_expired_at(now);
    }
}

} // verus!
