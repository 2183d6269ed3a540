//! What holds of every bucket and of every limiter, stated over their
//! models.

use super::bucket::BucketView;
use super::key::IpAddress;
use super::key::RateLimitKey;
use super::limiter::LimiterView;
use super::limiter::RateLimitConfig;
use super::limiter::RateLimitResult;
use super::limiter::IDLE_TIMEOUT_NANOS;
use vstd::prelude::*;

verus! {

/// Keys of different kinds are different keys, whatever address and
/// principal they hold: an address, a principal and a pair never share a
/// bucket.
pub proof fn lemma_kinds_differ(ip: IpAddress, user_id: i64, other_ip: IpAddress, other_id: i64)
    ensures
        RateLimitKey::Ip(ip) != RateLimitKey::User(user_id),
        RateLimitKey::Ip(ip) != RateLimitKey::IpUser(other_ip, other_id),
        RateLimitKey::User(user_id) != RateLimitKey::IpUser(other_ip, other_id),
        IpAddress::V4(0) != IpAddress::V6(0),
{
}

/// The bucket after `count` requests, all at the time `now`.
pub open spec fn drained(bucket: BucketView, now: u64, count: nat) -> BucketView
    decreases count,
{
    if count == 0 {
        bucket
    } else {
        drained(bucket, now, (count - 1) as nat).consumed(now)
    }
}

/// A fresh bucket is well formed, and refills and requests keep a bucket
/// well formed: the balance stays between nothing and the full balance.
pub proof fn lemma_bucket_wf(bucket: BucketView, capacity: u32, window: u64, now: u64)
    ensures
        BucketView::fresh(capacity, window, now).wf(),
        BucketView::fresh(capacity, window, now).level == BucketView::fresh(
            capacity,
            window,
            now,
        ).full(),
        bucket.wf() ==> bucket.refilled(now).wf() && bucket.consumed(now).wf(),
        bucket.wf() ==> bucket.refilled(now).level >= bucket.level,
{
    let unit: int = if window == 0 {
        1
    } else {
        window as int
    };
    assert(0 <= capacity * unit <= 0xffff_ffff_ffff_ffff * 0xffff_ffff) by (nonlinear_arith)
        requires
            0 <= capacity <= 0xffff_ffff,
            0 <= unit <= 0xffff_ffff_ffff_ffff,
    ;
    let u = bucket.unit();
    let c = bucket.capacity as int;
    assert(0 <= c * u <= 0xffff_ffff_ffff_ffff * 0xffff_ffff) by (nonlinear_arith)
        requires
            0 <= c <= 0xffff_ffff,
            0 <= u <= 0xffff_ffff_ffff_ffff,
    ;
}

/// A second refill at the same time changes nothing in a bucket whose
/// window has a length.
pub proof fn lemma_refill_once(bucket: BucketView, now: u64)
    requires
        bucket.wf(),
        bucket.window > 0,
    ensures
        bucket.refilled(now).refilled(now) == bucket.refilled(now),
        bucket.consumed(now).refilled(now) == bucket.consumed(now),
{
}

/// A full bucket of `capacity` tokens admits exactly `capacity` requests
/// made at the time of its making: after `count` of them it holds
/// `capacity - count` tokens, it admits the next while `count` is below
/// `capacity`, and it refuses the one after the last, which changes
/// nothing.
pub proof fn lemma_burst(capacity: u32, window: u64, now: u64, count: nat)
    requires
        window > 0,
        count <= capacity,
    ensures
        drained(BucketView::fresh(capacity, window, now), now, count).wf(),
        drained(BucketView::fresh(capacity, window, now), now, count).level == (capacity - count)
            * window,
        drained(BucketView::fresh(capacity, window, now), now, count).last_refill == now,
        drained(BucketView::fresh(capacity, window, now), now, count).capacity == capacity,
        drained(BucketView::fresh(capacity, window, now), now, count).window == window,
        drained(BucketView::fresh(capacity, window, now), now, count).whole_tokens() == capacity
            - count,
        drained(BucketView::fresh(capacity, window, now), now, count).admits(now) == (count
            < capacity),
        count == capacity ==> drained(BucketView::fresh(capacity, window, now), now, count).consumed(
            now,
        ) == drained(BucketView::fresh(capacity, window, now), now, count),
    decreases count,
{
    let fresh = BucketView::fresh(capacity, window, now);
    lemma_bucket_wf(fresh, capacity, window, now);
    if count > 0 {
        lemma_burst(capacity, window, now, (count - 1) as nat);
        assert((capacity - (count - 1)) * window - window == (capacity - count) * window)
            by (nonlinear_arith);
    }
    let left = (capacity - count) as int;
    assert((left * window) / (window as int) == left) by (nonlinear_arith)
        requires
            window > 0,
            left >= 0,
    ;
    if count < capacity {
        assert(left * window >= window) by (nonlinear_arith)
            requires
                left >= 1,
                window > 0,
        ;
    } else {
        assert(left * window == 0) by (nonlinear_arith)
            requires
                left == 0,
        ;
    }
}

/// A bucket emptied at `start` has one token again once the share of the
/// window that earns a token has passed, and one only until twice that
/// share has passed: of the requests made then, the first is admitted and
/// the second is not.
pub proof fn lemma_one_token_after_share(capacity: u32, window: u64, start: u64, now: u64)
    requires
        window > 0,
        capacity > 0,
        start <= now,
        window <= (now - start) * capacity < 2 * window,
    ensures
        !drained(BucketView::fresh(capacity, window, start), start, capacity as nat).admits(start),
        drained(BucketView::fresh(capacity, window, start), start, capacity as nat).admits(now),
        !drained(BucketView::fresh(capacity, window, start), start, capacity as nat).consumed(
            now,
        ).admits(now),
{
    let empty = drained(BucketView::fresh(capacity, window, start), start, capacity as nat);
    lemma_burst(capacity, window, start, capacity as nat);
    assert(empty.full() >= window) by (nonlinear_arith)
        requires
            empty.full() == empty.capacity * window,
            empty.capacity >= 1,
            window > 0,
    ;
}

/// The wait that a bucket without a token reports is the least that
/// suffices: a request that comes so long after the last refill is
/// admitted, and no earlier one is.
pub proof fn lemma_wait_is_least(bucket: BucketView, now: u64)
    requires
        bucket.wf(),
        bucket.capacity > 0,
        bucket.window > 0,
        !bucket.has_token(),
        bucket.last_refill <= now,
    ensures
        bucket.wait() >= 1,
        bucket.admits(now) == (now - bucket.last_refill >= bucket.wait()),
{
    let need = bucket.unit() - bucket.level;
    let cap = bucket.capacity as int;
    let wait = bucket.wait();
    let e = now - bucket.last_refill;
    assert(0 <= e * cap <= 0xffff_ffff_ffff_ffff * 0xffff_ffff) by (nonlinear_arith)
        requires
            0 <= cap <= 0xffff_ffff,
            0 <= e <= 0xffff_ffff_ffff_ffff,
    ;
    assert(wait * cap >= need && (wait - 1) * cap < need && wait >= 1) by (nonlinear_arith)
        requires
            wait == (need + cap - 1) / cap,
            cap >= 1,
            need >= 1,
    ;
    assert(bucket.full() >= bucket.unit()) by (nonlinear_arith)
        requires
            bucket.full() == cap * bucket.unit(),
            cap >= 1,
            bucket.unit() >= 1,
    ;
    if e >= wait {
        assert(e * cap >= need) by (nonlinear_arith)
            requires
                e >= wait,
                wait * cap >= need,
                cap >= 1,
        ;
    } else {
        assert(e * cap < need) by (nonlinear_arith)
            requires
                e <= wait - 1,
                (wait - 1) * cap < need,
                cap >= 1,
                e >= 0,
        ;
    }
}

/// A bucket of no capacity admits no request, whenever it comes, stays
/// empty, and tells the wait that stands for never.
pub proof fn lemma_no_capacity_refuses(bucket: BucketView, now: u64)
    requires
        bucket.wf(),
        bucket.capacity == 0,
    ensures
        !bucket.admits(now),
        bucket.consumed(now).level == 0,
        bucket.consumed(now).whole_tokens() == 0,
        bucket.consumed(now).wait() == u64::MAX,
        bucket.consumed(now).refilled(now).wait() == u64::MAX,
{
}

impl LimiterView {
    /// A limiter of no requests refuses every check: the answer is a
    /// refusal with a limit of nothing, nothing left and the wait that
    /// stands for never.
    pub proof fn lemma_no_requests_refuses(self, key: RateLimitKey, now: u64)
        requires
            self.wf(),
            self.config.requests_per_window == 0,
        ensures
            self.verdict(key, now) == (RateLimitResult {
                allowed: false,
                limit: 0,
                remaining: 0,
                retry_after: Some(u64::MAX),
            }),
    {
        let start = self.entry_at(key, now).bucket;
        lemma_bucket_wf(start, 0, self.config.window_duration, now);
        lemma_no_capacity_refuses(start, now);
    }

    /// The limiter that has checked nothing is well formed.
    pub proof fn lemma_empty_wf(config: RateLimitConfig)
        ensures
            LimiterView::empty(config).wf(),
    {
    }

    /// A combined check keeps a limiter well formed.
    pub proof fn lemma_checked_combined_wf(self, ip: IpAddress, user_id: i64, now: u64)
        requires
            self.wf(),
        ensures
            self.checked_combined(ip, user_id, now).wf(),
    {
    }

    /// A sweep keeps a limiter well formed.
    pub proof fn lemma_swept_wf(self, now: u64)
        requires
            self.wf(),
        ensures
            self.swept(now).wf(),
    {
    }

    /// A check keeps a limiter well formed.
    pub proof fn lemma_checked_wf(self, key: RateLimitKey, now: u64)
        requires
            self.wf(),
        ensures
            self.checked(key, now).wf(),
    {
    }

    /// A check touches the bucket of its key and no other.
    pub proof fn lemma_check_is_local(self, key: RateLimitKey, other: RateLimitKey, now: u64)
        requires
            other != key,
        ensures
            self.checked(key, now).table.contains_key(key),
            self.checked(key, now).table[key].last_access == now,
            self.checked(key, now).table.contains_key(other) == self.table.contains_key(other),
            self.checked(key, now).table[other] == self.table[other],
            forall|at: u64|
                self.checked(key, now).verdict(other, at) == self.verdict(other, at),
    {
    }

    /// Where the address is refused, a combined check is the check of the
    /// address alone: the buckets of the principal and of the pair are as
    /// they were, and a check of the principal right after answers as it
    /// would have answered before.
    pub proof fn lemma_refused_address_spares_principal(
        self,
        ip: IpAddress,
        user_id: i64,
        now: u64,
    )
        requires
            !self.address_passes(ip, now),
        ensures
            !self.verdict_combined(ip, user_id, now).allowed,
            self.verdict_combined(ip, user_id, now) == self.verdict(RateLimitKey::Ip(ip), now),
            self.checked_combined(ip, user_id, now) == self.checked(RateLimitKey::Ip(ip), now),
            self.checked_combined(ip, user_id, now).table.contains_key(RateLimitKey::User(user_id))
                == self.table.contains_key(RateLimitKey::User(user_id)),
            self.checked_combined(ip, user_id, now).table[RateLimitKey::User(user_id)]
                == self.table[RateLimitKey::User(user_id)],
            self.checked_combined(ip, user_id, now).table.contains_key(
                RateLimitKey::IpUser(ip, user_id),
            ) == self.table.contains_key(RateLimitKey::IpUser(ip, user_id)),
            self.checked_combined(ip, user_id, now).table[RateLimitKey::IpUser(ip, user_id)]
                == self.table[RateLimitKey::IpUser(ip, user_id)],
            forall|at: u64|
                self.checked_combined(ip, user_id, now).verdict(RateLimitKey::User(user_id), at)
                    == self.verdict(RateLimitKey::User(user_id), at),
    {
    }

    /// Where the address passes and the principal is refused, the bucket of
    /// the pair is as it was; where both pass, the answer is that of the
    /// pair.
    pub proof fn lemma_pair_is_checked_last(self, ip: IpAddress, user_id: i64, now: u64)
        requires
            self.address_passes(ip, now),
        ensures
            !self.principal_passes(ip, user_id, now) ==> {
                &&& !self.verdict_combined(ip, user_id, now).allowed
                &&& self.checked_combined(ip, user_id, now).table.contains_key(
                    RateLimitKey::IpUser(ip, user_id),
                ) == self.table.contains_key(RateLimitKey::IpUser(ip, user_id))
                &&& self.checked_combined(ip, user_id, now).table[RateLimitKey::IpUser(
                    ip,
                    user_id,
                )] == self.table[RateLimitKey::IpUser(ip, user_id)]
            },
            self.principal_passes(ip, user_id, now) ==> self.verdict_combined(ip, user_id, now)
                == self.checked(RateLimitKey::Ip(ip), now).checked(
                RateLimitKey::User(user_id),
                now,
            ).verdict(RateLimitKey::IpUser(ip, user_id), now),
    {
    }

    /// A combined check admits exactly when each of the three buckets, that
    /// of the address, that of the principal and that of the pair, holds a
    /// token at `now`. Then each of the three gives one up, and the answer
    /// is that of the pair. A refusal is the answer of the first bucket, in
    /// that order, that holds none.
    pub proof fn lemma_combined_admits_all_three(self, ip: IpAddress, user_id: i64, now: u64)
        ensures
            self.verdict_combined(ip, user_id, now).allowed == (self.verdict(
                RateLimitKey::Ip(ip),
                now,
            ).allowed && self.verdict(RateLimitKey::User(user_id), now).allowed && self.verdict(
                RateLimitKey::IpUser(ip, user_id),
                now,
            ).allowed),
            self.verdict_combined(ip, user_id, now) == if !self.verdict(
                RateLimitKey::Ip(ip),
                now,
            ).allowed {
                self.verdict(RateLimitKey::Ip(ip), now)
            } else if !self.verdict(RateLimitKey::User(user_id), now).allowed {
                self.verdict(RateLimitKey::User(user_id), now)
            } else {
                self.verdict(RateLimitKey::IpUser(ip, user_id), now)
            },
            self.verdict_combined(ip, user_id, now).allowed ==> {
                &&& self.checked_combined(ip, user_id, now).table[RateLimitKey::Ip(ip)].bucket
                    == self.bucket_after(RateLimitKey::Ip(ip), now)
                &&& self.checked_combined(ip, user_id, now).table[RateLimitKey::User(
                    user_id,
                )].bucket == self.bucket_after(RateLimitKey::User(user_id), now)
                &&& self.checked_combined(ip, user_id, now).table[RateLimitKey::IpUser(
                    ip,
                    user_id,
                )].bucket == self.bucket_after(RateLimitKey::IpUser(ip, user_id), now)
            },
    {
        let first = self.checked(RateLimitKey::Ip(ip), now);
        self.lemma_check_is_local(RateLimitKey::Ip(ip), RateLimitKey::User(user_id), now);
        self.lemma_check_is_local(RateLimitKey::Ip(ip), RateLimitKey::IpUser(ip, user_id), now);
        first.lemma_check_is_local(
            RateLimitKey::User(user_id),
            RateLimitKey::IpUser(ip, user_id),
            now,
        );
        first.lemma_check_is_local(RateLimitKey::User(user_id), RateLimitKey::Ip(ip), now);
    }

    /// A sweep drops exactly the idle buckets: one last checked longer ago
    /// than the idle timeout is gone, one checked within it stays as it is,
    /// and a key without a bucket gets none.
    pub proof fn lemma_sweep_drops_idle(self, key: RateLimitKey, now: u64)
        ensures
            self.swept(now).table.contains_key(key) == (self.table.contains_key(key) && now
                - self.table[key].last_access <= IDLE_TIMEOUT_NANOS),
            self.swept(now).table.contains_key(key) ==> self.swept(now).table[key]
                == self.table[key],
    {
    }

    /// A bucket checked at `touched` outlives every sweep that comes no
    /// more than the idle timeout later, and no sweep after that.
    pub proof fn lemma_touched_survives(self, key: RateLimitKey, touched: u64, now: u64)
        ensures
            self.checked(key, touched).swept(now).table.contains_key(key) == (now - touched
                <= IDLE_TIMEOUT_NANOS),
    {
    }

    /// The first check of a key after its bucket was dropped works on a
    /// full bucket.
    pub proof fn lemma_dropped_starts_full(self, key: RateLimitKey, swept_at: u64, now: u64)
        requires
            self.table.contains_key(key),
            swept_at - self.table[key].last_access > IDLE_TIMEOUT_NANOS,
        ensures
            self.swept(swept_at).entry_at(key, now).bucket == BucketView::fresh(
                self.config.requests_per_window,
                self.config.window_duration,
                now,
            ),
    {
    }
}

} // verus!
