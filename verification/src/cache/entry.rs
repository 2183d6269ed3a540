//! One cached value and the bookkeeping kept beside it.

use vstd::prelude::*;

verus! {

/// What an entry holds. Times are nanoseconds on the cache's clock.
pub struct EntryView<V> {
    pub value: V,
    pub created_at: u64,
    pub last_accessed: u64,
    pub access_count: u64,
    pub ttl: Option<u64>,
}

impl<V> EntryView<V> {
    /// An entry was never read before it was written.
    pub open spec fn wf(self) -> bool {
        self.created_at <= self.last_accessed
    }

    /// The entry that a write at `now` makes.
    pub open spec fn fresh(value: V, ttl: Option<u64>, now: u64) -> Self {
        EntryView { value, created_at: now, last_accessed: now, access_count: 0, ttl }
    }

    /// Whether more than the time-to-live has passed between the write and
    /// `now`. An entry without a time-to-live never expires.
    pub open spec fn expired_at(self, now: u64) -> bool {
        match self.ttl {
            Some(ttl) => now - self.created_at > ttl,
            None => false,
        }
    }

    /// The entry after a read at `now`: the read is counted, up to
    /// `u64::MAX`, and the latest read is remembered.
    pub open spec fn touched(self, now: u64) -> Self {
        EntryView {
            last_accessed: if now > self.last_accessed {
                now
            } else {
                self.last_accessed
            },
            access_count: if self.access_count < u64::MAX {
                (self.access_count + 1) as u64
            } else {
                self.access_count
            },
            ..self
        }
    }
}

/// A cached value with its creation time, its last read, the number of
/// reads and an optional time-to-live.
#[derive(Clone, Debug)]
pub struct CacheEntry<V> {
    value: V,
    created_at: u64,
    last_accessed: u64,
    access_count: u64,
    ttl: Option<u64>,
}

impl<V> View for CacheEntry<V> {
    type V = EntryView<V>;

    closed spec fn view(&self) -> EntryView<V> {
        EntryView {
            value: self.value,
            created_at: self.created_at,
            last_accessed: self.last_accessed,
            access_count: self.access_count,
            ttl: self.ttl,
        }
    }
}

impl<V> CacheEntry<V> {
    /// An entry written at `now`, not yet read.
    pub fn new(value: V, ttl: Option<u64>, now: u64) -> (entry: Self)
        ensures
            entry@ == EntryView::fresh(value, ttl, now),
            entry@.wf(),
    {
        CacheEntry { value, created_at: now, last_accessed: now, access_count: 0, ttl }
    }

    /// Whether the entry's time-to-live has run out at `now`.
    pub fn is_expired(&self, now: u64) -> (expired: bool)
        ensures
            expired == self@.expired_at(now),
    {
        match self.ttl {
            Some(ttl) => now > self.created_at && now - self.created_at > ttl,
            None => false,
        }
    }

    /// Records a read at `now`.
    pub fn access(&mut self, now: u64)
        ensures
            final(self)@ == old(self)@.touched(now),
            old(self)@.wf() ==> final(self)@.wf(),
    {
        if now > self.last_accessed {
            self.last_accessed = now;
        }
        if self.access_count < u64::MAX {
            self.access_count = self.access_count + 1;
        }
    }

    /// The cached value.
    pub fn value(&self) -> (value: &V)
        ensures
            *value == self@.value,
    {
        &self.value
    }

    /// The time of the write that made the entry.
    pub fn created_at(&self) -> (at: u64)
        ensures
            at == self@.created_at,
    {
        self.created_at
    }

    /// The time of the latest read, or of the write if there was none.
    pub fn last_accessed(&self) -> (at: u64)
        ensures
            at == self@.last_accessed,
    {
        self.last_accessed
    }

    /// How many reads were recorded.
    pub fn access_count(&self) -> (count: u64)
        ensures
            count == self@.access_count,
    {
        self.access_count
    }

    /// The time-to-live, if the entry has one.
    pub fn ttl(&self) -> (ttl: Option<u64>)
        ensures
            ttl == self@.ttl,
    {
        self.ttl
    }
}

} // verus!
