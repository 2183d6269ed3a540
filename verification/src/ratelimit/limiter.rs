//! The limiter: a table of buckets, one for each key that was checked and
//! has not been idle for too long.
//!
//! The table is a list of slots with distinct keys, and a check finds its
//! slot by comparing keys. vstd specifies a hash map only for keys whose
//! hashing it knows, which are the integers; a key here is an address, a
//! principal or both, and fits no integer.

use super::bucket::BucketView;
use super::bucket::TokenBucket;
use super::key::IpAddress;
use super::key::RateLimitKey;
use crate::clock::Clock;
use vstd::prelude::*;

verus! {

/// The idle timeout in nanoseconds, 600 seconds: a bucket unused for longer
/// is dropped by the next sweep.
pub const IDLE_TIMEOUT_NANOS: u64 = 600_000_000_000;

/// How many requests a key may make in a window, how long the window is,
/// and how often idle buckets are looked for. Times are nanoseconds.
#[derive(Clone, Copy, Debug, PartialEq, Eq, Structural)]
pub struct RateLimitConfig {
    pub requests_per_window: u32,
    pub window_duration: u64,
    pub cleanup_interval: u64,
}

impl Default for RateLimitConfig {
    /// A hundred requests a minute, and a look for idle buckets every five
    /// minutes.
    fn default() -> (config: Self)
        ensures
            config == (RateLimitConfig {
                requests_per_window: 100,
                window_duration: 60_000_000_000,
                cleanup_interval: 300_000_000_000,
            }),
    {
        RateLimitConfig {
            requests_per_window: 100,
            window_duration: 60_000_000_000,
            cleanup_interval: 300_000_000_000,
        }
    }
}

/// The answer to a check: whether the request is admitted, the limit, the
/// whole tokens left, and for a refused request the nanoseconds to wait.
/// A limiter of no requests refuses with a wait of `u64::MAX`, which
/// stands for never.
#[derive(Clone, Copy, Debug, PartialEq, Eq, Structural)]
pub struct RateLimitResult {
    pub allowed: bool,
    pub limit: u32,
    pub remaining: u32,
    pub retry_after: Option<u64>,
}

/// What the table holds for a key: its bucket and the time of the last
/// check.
pub struct EntryState {
    pub bucket: BucketView,
    pub last_access: u64,
}

/// A limiter: its configuration and its table.
#[verifier::ext_equal]
pub struct LimiterView {
    pub config: RateLimitConfig,
    pub table: Map<RateLimitKey, EntryState>,
}

impl LimiterView {
    /// The limiter that has checked nothing yet.
    pub open spec fn empty(config: RateLimitConfig) -> Self {
        LimiterView { config, table: Map::empty() }
    }

    /// Every bucket is well formed and was made to the configuration.
    pub open spec fn wf(self) -> bool {
        forall|key: RateLimitKey| #[trigger]
            self.table.contains_key(key) ==> {
                &&& self.table[key].bucket.wf()
                &&& self.table[key].bucket.capacity == self.config.requests_per_window
                &&& self.table[key].bucket.window == self.config.window_duration
            }
    }

    /// The entry that a check of `key` at `now` works on: the one in the
    /// table, or a full bucket made at `now`.
    pub open spec fn entry_at(self, key: RateLimitKey, now: u64) -> EntryState {
        if self.table.contains_key(key) {
            self.table[key]
        } else {
            EntryState {
                bucket: BucketView::fresh(
                    self.config.requests_per_window,
                    self.config.window_duration,
                    now,
                ),
                last_access: now,
            }
        }
    }

    /// The bucket of `key` after a check at `now`: a token is taken if
    /// there is one, and the balance is read.
    pub open spec fn bucket_after(self, key: RateLimitKey, now: u64) -> BucketView {
        self.entry_at(key, now).bucket.consumed(now).refilled(now)
    }

    /// The limiter after a check of `key` at `now`.
    pub open spec fn checked(self, key: RateLimitKey, now: u64) -> Self {
        LimiterView {
            table: self.table.insert(
                key,
                EntryState { bucket: self.bucket_after(key, now), last_access: now },
            ),
            ..self
        }
    }

    /// The answer to a check of `key` at `now`.
    pub open spec fn verdict(self, key: RateLimitKey, now: u64) -> RateLimitResult {
        let allowed = self.entry_at(key, now).bucket.admits(now);
        RateLimitResult {
            allowed,
            limit: self.config.requests_per_window,
            remaining: self.bucket_after(key, now).whole_tokens() as u32,
            retry_after: if allowed {
                None
            } else {
                Some(self.bucket_after(key, now).wait() as u64)
            },
        }
    }

    /// Whether the address passes its own check at `now`.
    pub open spec fn address_passes(self, ip: IpAddress, now: u64) -> bool {
        self.verdict(RateLimitKey::Ip(ip), now).allowed
    }

    /// Whether the principal passes its own check at `now`, after the
    /// address has been checked.
    pub open spec fn principal_passes(self, ip: IpAddress, user_id: i64, now: u64) -> bool {
        self.checked(RateLimitKey::Ip(ip), now).verdict(RateLimitKey::User(user_id), now).allowed
    }

    /// The limiter after a combined check at `now`: the address is checked;
    /// if it passes, the principal; if both pass, the pair.
    pub open spec fn checked_combined(self, ip: IpAddress, user_id: i64, now: u64) -> Self {
        let first = self.checked(RateLimitKey::Ip(ip), now);
        if !self.address_passes(ip, now) {
            first
        } else {
            let second = first.checked(RateLimitKey::User(user_id), now);
            if !self.principal_passes(ip, user_id, now) {
                second
            } else {
                second.checked(RateLimitKey::IpUser(ip, user_id), now)
            }
        }
    }

    /// The answer to a combined check at `now`: that of the first check
    /// that refuses, else that of the pair.
    pub open spec fn verdict_combined(self, ip: IpAddress, user_id: i64, now: u64)
        -> RateLimitResult {
        let first = self.checked(RateLimitKey::Ip(ip), now);
        if !self.address_passes(ip, now) {
            self.verdict(RateLimitKey::Ip(ip), now)
        } else {
            let second = first.checked(RateLimitKey::User(user_id), now);
            if !self.principal_passes(ip, user_id, now) {
                first.verdict(RateLimitKey::User(user_id), now)
            } else {
                second.verdict(RateLimitKey::IpUser(ip, user_id), now)
            }
        }
    }

    /// Whether the entry of `key` was checked within the idle timeout
    /// before `now`: no longer ago than that.
    pub open spec fn active(self, key: RateLimitKey, now: u64) -> bool {
        now - self.table[key].last_access <= IDLE_TIMEOUT_NANOS
    }

    /// The limiter without the entries that are idle at `now`.
    pub open spec fn swept(self, now: u64) -> Self {
        LimiterView {
            table: Map::new(
                |key: RateLimitKey| self.table.contains_key(key) && self.active(key, now),
                |key: RateLimitKey| self.table[key],
            ),
            ..self
        }
    }
}

/// A bucket and the time of the last check of its key.
#[derive(Clone, Copy, Debug)]
struct RateLimitEntry {
    bucket: TokenBucket,
    last_access: u64,
}

impl View for RateLimitEntry {
    type V = EntryState;

    closed spec fn view(&self) -> EntryState {
        EntryState { bucket: self.bucket@, last_access: self.last_access }
    }
}

/// A key and its entry.
#[derive(Clone, Copy, Debug)]
struct Slot {
    key: RateLimitKey,
    entry: RateLimitEntry,
}

/// Some slot holds `key`.
spec fn holds(slots: Seq<Slot>, key: RateLimitKey) -> bool {
    exists|i: int| 0 <= i < slots.len() && #[trigger] slots[i].key == key
}

/// The slot that holds `key`.
spec fn slot_of(slots: Seq<Slot>, key: RateLimitKey) -> int {
    choose|i: int| 0 <= i < slots.len() && #[trigger] slots[i].key == key
}

/// No key stands in two slots.
spec fn distinct(slots: Seq<Slot>) -> bool {
    forall|i: int, j: int| 0 <= i < j < slots.len() ==> slots[i].key != slots[j].key
}

/// `slot` is one of the first `upto` of `slots`.
spec fn among(slots: Seq<Slot>, upto: int, slot: Slot) -> bool {
    exists|p: int| 0 <= p < upto && p < slots.len() && #[trigger] slots[p] == slot
}

/// The table that the slots stand for.
spec fn table_of(slots: Seq<Slot>) -> Map<RateLimitKey, EntryState> {
    Map::new(|key: RateLimitKey| holds(slots, key), |key: RateLimitKey| slots[slot_of(slots, key)].entry@)
}

/// Among distinct slots, a key is found in the slot that holds it.
proof fn lemma_slot(slots: Seq<Slot>, i: int)
    requires
        distinct(slots),
        0 <= i < slots.len(),
    ensures
        holds(slots, slots[i].key),
        slot_of(slots, slots[i].key) == i,
        table_of(slots).contains_key(slots[i].key),
        table_of(slots)[slots[i].key] == slots[i].entry@,
{
}

/// A token-bucket rate limiter. Every key has a bucket of its own, made
/// full at the key's first check; a bucket that no check has touched for
/// longer than the idle timeout is dropped by the next sweep.
pub struct RateLimiter {
    config: RateLimitConfig,
    buckets: Vec<Slot>,
    clock: Clock,
}

impl View for RateLimiter {
    type V = LimiterView;

    closed spec fn view(&self) -> LimiterView {
        LimiterView { config: self.config, table: table_of(self.buckets@) }
    }
}

impl RateLimiter {
    /// The limiter's invariant: no key has two buckets, and the model is
    /// well formed.
    pub closed spec fn wf(&self) -> bool {
        distinct(self.buckets@) && self@.wf()
    }

    /// A limiter that has checked nothing yet.
    pub fn new(config: RateLimitConfig) -> (limiter: Self)
        ensures
            limiter.wf(),
            limiter@ == LimiterView::empty(config),
    {
        RateLimiter { config, buckets: Vec::new(), clock: Clock::start() }
    }

    /// A well-formed limiter has a well-formed model.
    pub proof fn lemma_view_wf(&self)
        requires
            self.wf(),
        ensures
            self@.wf(),
    {
    }

    /// The limiter's configuration.
    pub fn config(&self) -> (config: RateLimitConfig)
        ensures
            config == self@.config,
    {
        self.config
    }

    /// The number of keys that have a bucket.
    pub fn len(&self) -> (len: usize)
        requires
            self.wf(),
        ensures
            self@.table.dom().finite(),
            len == self@.table.dom().len(),
    {
        proof {
            lemma_table_len(self.buckets@);
        }
        self.buckets.len()
    }

    /// The time on the limiter's own clock, in nanoseconds since the
    /// limiter was made.
    pub fn now(&self) -> (now: u64) {
        self.clock.now()
    }

    /// Where the bucket of `key` stands, if the key has one.
    fn find(&self, key: RateLimitKey) -> (at: Option<usize>)
        requires
            self.wf(),
        ensures
            match at {
                Some(i) => i < self.buckets@.len() && self.buckets@[i as int].key == key,
                None => !holds(self.buckets@, key),
            },
    {
        let mut i: usize = 0;
        while i < self.buckets.len()
            invariant
                i <= self.buckets@.len(),
                forall|j: int| 0 <= j < i ==> self.buckets@[j].key != key,
            decreases self.buckets@.len() - i,
        {
            if self.buckets[i].key == key {
                return Some(i);
            }
            i = i + 1;
        }
        None
    }

    /// Checks the address `ip` at the present moment.
    pub fn check_rate_limit_ip(&mut self, ip: IpAddress) -> (result: RateLimitResult)
        requires
            old(self).wf(),
        ensures
            final(self).wf(),
            exists|now: u64|
                final(self)@ == #[trigger] old(self)@.checked(RateLimitKey::Ip(ip), now) && result
                    == old(self)@.verdict(RateLimitKey::Ip(ip), now),
    {
        let now = self.clock.now();
        self.check_rate_limit_ip_at(ip, now)
    }

    /// Checks the address `ip` at the time `now`.
    pub fn check_rate_limit_ip_at(&mut self, ip: IpAddress, now: u64) -> (result: RateLimitResult)
        requires
            old(self).wf(),
        ensures
            final(self).wf(),
            final(self)@ == old(self)@.checked(RateLimitKey::Ip(ip), now),
            result == old(self)@.verdict(RateLimitKey::Ip(ip), now),
    {
        self.check_limit(RateLimitKey::Ip(ip), now)
    }

    /// Checks the principal `user_id` at the present moment.
    pub fn check_rate_limit_user(&mut self, user_id: i64) -> (result: RateLimitResult)
        requires
            old(self).wf(),
        ensures
            final(self).wf(),
            exists|now: u64|
                final(self)@ == #[trigger] old(self)@.checked(RateLimitKey::User(user_id), now)
                    && result == old(self)@.verdict(RateLimitKey::User(user_id), now),
    {
        let now = self.clock.now();
        self.check_rate_limit_user_at(user_id, now)
    }

    /// Checks the principal `user_id` at the time `now`.
    pub fn check_rate_limit_user_at(&mut self, user_id: i64, now: u64) -> (result: RateLimitResult)
        requires
            old(self).wf(),
        ensures
            final(self).wf(),
            final(self)@ == old(self)@.checked(RateLimitKey::User(user_id), now),
            result == old(self)@.verdict(RateLimitKey::User(user_id), now),
    {
        self.check_limit(RateLimitKey::User(user_id), now)
    }

    /// Checks the address, the principal and the pair at the present
    /// moment.
    pub fn check_rate_limit_combined(&mut self, ip: IpAddress, user_id: i64) -> (result:
        RateLimitResult)
        requires
            old(self).wf(),
        ensures
            final(self).wf(),
            exists|now: u64|
                final(self)@ == #[trigger] old(self)@.checked_combined(ip, user_id, now) && result
                    == old(self)@.verdict_combined(ip, user_id, now),
    {
        let now = self.clock.now();
        self.check_rate_limit_combined_at(ip, user_id, now)
    }

    /// Checks the address, the principal and the pair at the time `now`,
    /// in that order, and stops at the first check that refuses: a refused
    /// address leaves the principal's bucket alone, and the bucket of the
    /// pair is touched only where both have passed.
    pub fn check_rate_limit_combined_at(&mut self, ip: IpAddress, user_id: i64, now: u64) -> (result:
        RateLimitResult)
        requires
            old(self).wf(),
        ensures
            final(self).wf(),
            final(self)@ == old(self)@.checked_combined(ip, user_id, now),
            result == old(self)@.verdict_combined(ip, user_id, now),
    {
        let ip_result = self.check_rate_limit_ip_at(ip, now);
        if !ip_result.allowed {
            return ip_result;
        }
        let user_result = self.check_rate_limit_user_at(user_id, now);
        if !user_result.allowed {
            return user_result;
        }
        self.check_limit(RateLimitKey::IpUser(ip, user_id), now)
    }

    /// Checks `key` at the time `now`: its bucket, made full if the key had
    /// none, gives up a token if it holds one.
    fn check_limit(&mut self, key: RateLimitKey, now: u64) -> (result: RateLimitResult)
        requires
            old(self).wf(),
        ensures
            final(self).wf(),
            final(self)@ == old(self)@.checked(key, now),
            result == old(self)@.verdict(key, now),
    {
        let i = match self.find(key) {
            Some(i) => i,
            None => {
                let bucket = TokenBucket::new(
                    self.config.requests_per_window,
                    self.config.window_duration,
                    now,
                );
                self.buckets.push(Slot { key, entry: RateLimitEntry { bucket, last_access: now } });
                self.buckets.len() - 1
            },
        };
        let mut slot = self.buckets[i];
        slot.entry.last_access = now;
        let allowed = slot.entry.bucket.try_consume(now);
        let remaining = slot.entry.bucket.available_tokens(now);
        let retry_after = if allowed {
            None
        } else {
            Some(slot.entry.bucket.time_until_token())
        };
        self.buckets.set(i, slot);
        proof {
            let after = self.buckets@;
            lemma_slot(after, i as int);
            let goal = old(self)@.checked(key, now).table;
            assert forall|k: RateLimitKey| table_of(after).contains_key(k) == goal.contains_key(
                k,
            ) by {
                if holds(old(self).buckets@, k) {
                    let p = slot_of(old(self).buckets@, k);
                    assert(after[p].key == k);
                }
            }
            assert(table_of(after) =~= goal);
        }
        RateLimitResult { allowed, limit: self.config.requests_per_window, remaining, retry_after }
    }

    /// Drops the buckets that are idle at the present moment.
    pub fn cleanup_idle(&mut self)
        requires
            old(self).wf(),
        ensures
            final(self).wf(),
            exists|now: u64| final(self)@ == #[trigger] old(self)@.swept(now),
    {
        let now = self.clock.now();
        self.cleanup_idle_at(now)
    }

    /// Drops the buckets that are idle at the time `now`: those whose key
    /// was last checked longer ago than the idle timeout. The others stay
    /// as they are.
    pub fn cleanup_idle_at(&mut self, now: u64)
        requires
            old(self).wf(),
        ensures
            final(self).wf(),
            final(self)@ == old(self)@.swept(now),
    {
        let mut kept: Vec<Slot> = Vec::new();
        let mut i: usize = 0;
        while i < self.buckets.len()
            invariant
                i <= self.buckets@.len(),
                self.buckets@ == old(self).buckets@,
                distinct(self.buckets@),
                distinct(kept@),
                forall|j: int|
                    0 <= j < kept@.len() ==> among(self.buckets@, i as int, #[trigger] kept@[j]),
                forall|p: int|
                    0 <= p < i && now - self.buckets@[p].entry.last_access <= IDLE_TIMEOUT_NANOS
                        ==> among(kept@, kept@.len() as int, #[trigger] self.buckets@[p]),
                forall|j: int|
                    0 <= j < kept@.len() ==> now - (#[trigger] kept@[j]).entry.last_access
                        <= IDLE_TIMEOUT_NANOS,
            decreases self.buckets@.len() - i,
        {
            let slot = self.buckets[i];
            let idle = now > slot.entry.last_access && now - slot.entry.last_access
                > IDLE_TIMEOUT_NANOS;
            if !idle {
                let ghost earlier = kept@;
                kept.push(slot);
                proof {
                    assert forall|p: int|
                        0 <= p < i + 1 && now - self.buckets@[p].entry.last_access
                            <= IDLE_TIMEOUT_NANOS implies among(
                        kept@,
                        kept@.len() as int,
                        #[trigger] self.buckets@[p],
                    ) by {
                        if p < i {
                            let j = choose|j: int|
                                0 <= j < earlier.len() && earlier[j] == self.buckets@[p];
                            assert(kept@[j] == self.buckets@[p]);
                        } else {
                            assert(kept@[earlier.len() as int] == self.buckets@[p]);
                        }
                    }
                }
            }
            i = i + 1;
        }
        assert(table_of(kept@) =~= old(self)@.swept(now).table);
        self.buckets = kept;
    }
}

/// The table of distinct slots has as many keys as there are slots.
proof fn lemma_table_len(slots: Seq<Slot>)
    requires
        distinct(slots),
    ensures
        table_of(slots).dom().finite(),
        table_of(slots).dom().len() == slots.len(),
    decreases slots.len(),
{
    if slots.len() == 0 {
        assert(table_of(slots).dom() =~= Set::empty());
    } else {
        let front = slots.drop_last();
        let last = slots.last();
        lemma_table_len(front);
        assert(table_of(slots).dom() =~= table_of(front).dom().insert(last.key)) by {
            assert forall|k: RateLimitKey| table_of(slots).dom().contains(k) == table_of(
                front,
            ).dom().insert(last.key).contains(k) by {
                if holds(slots, k) {
                    let p = slot_of(slots, k);
                    if p < front.len() {
                        assert(front[p].key == k);
                    }
                }
            }
        }
    }
}

} // verus!
