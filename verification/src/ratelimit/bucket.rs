//! One token bucket. Tokens accrue continuously, `capacity` of them in one
//! window, up to `capacity`; an admitted request takes one.
//!
//! The balance is kept exactly. Its unit is the share of a token that
//! accrues to a bucket of capacity one in a nanosecond: a token is `window`
//! units, and in `e` nanoseconds a bucket gains `e * capacity` units.

use vstd::prelude::*;

verus! {

/// What a bucket holds. `level` is the balance in units of which `unit()`
/// make a token; times are nanoseconds.
pub struct BucketView {
    pub level: u128,
    pub last_refill: u64,
    pub capacity: u32,
    pub window: u64,
}

impl BucketView {
    /// The units that make one token: the nanoseconds of the window. A
    /// window of no length refills at once, and a token is one unit.
    pub open spec fn unit(self) -> int {
        if self.window == 0 {
            1
        } else {
            self.window as int
        }
    }

    /// The balance of a full bucket.
    pub open spec fn full(self) -> int {
        self.capacity * self.unit()
    }

    /// The balance is never above that of a full bucket.
    pub open spec fn wf(self) -> bool {
        self.level <= self.full()
    }

    /// A full bucket made at `now`.
    pub open spec fn fresh(capacity: u32, window: u64, now: u64) -> Self {
        BucketView {
            level: (capacity * if window == 0 {
                1
            } else {
                window as int
            }) as u128,
            last_refill: now,
            capacity,
            window,
        }
    }

    /// The nanoseconds between the last refill and `now`; none where `now`
    /// is the earlier.
    pub open spec fn elapsed(self, now: u64) -> int {
        if now > self.last_refill {
            now - self.last_refill
        } else {
            0
        }
    }

    /// The bucket refilled at `now`: what accrued since the last refill is
    /// added, up to the full balance.
    pub open spec fn refilled(self, now: u64) -> Self {
        let gained = self.level + self.elapsed(now) * self.capacity;
        BucketView {
            level: if self.window == 0 || gained >= self.full() {
                self.full() as u128
            } else {
                gained as u128
            },
            last_refill: now,
            ..self
        }
    }

    /// Whether the bucket holds a whole token.
    pub open spec fn has_token(self) -> bool {
        self.level >= self.unit()
    }

    /// Whether a request at `now` is admitted.
    pub open spec fn admits(self, now: u64) -> bool {
        self.refilled(now).has_token()
    }

    /// The bucket after a request at `now`: refilled, and one token the
    /// less where the request is admitted.
    pub open spec fn consumed(self, now: u64) -> Self {
        let ready = self.refilled(now);
        if ready.has_token() {
            BucketView { level: (ready.level - ready.unit()) as u128, ..ready }
        } else {
            ready
        }
    }

    /// The whole tokens in the bucket.
    pub open spec fn whole_tokens(self) -> int {
        self.level as int / self.unit()
    }

    /// The nanoseconds until the bucket holds a whole token if nothing is
    /// taken from it: the least whole number of them. A bucket of no
    /// capacity never holds one: for it the wait is `u64::MAX`, which
    /// stands for never.
    pub open spec fn wait(self) -> int {
        if self.has_token() {
            0
        } else if self.capacity == 0 {
            u64::MAX as int
        } else if self.window == 0 {
            0
        } else {
            (self.unit() - self.level + self.capacity - 1) / (self.capacity as int)
        }
    }
}

/// A product of a 64-bit and a 32-bit number is below 2^96.
proof fn lemma_product_bound(a: int, b: int)
    requires
        0 <= a <= u64::MAX,
        0 <= b <= u32::MAX,
    ensures
        0 <= a * b <= 0xffff_ffff_ffff_ffff * 0xffff_ffff,
        a * b == b * a,
{
    assert(0 <= a * b <= 0xffff_ffff_ffff_ffff * 0xffff_ffff) by (nonlinear_arith)
        requires
            0 <= a <= 0xffff_ffff_ffff_ffff,
            0 <= b <= 0xffff_ffff,
    ;
}

/// A token bucket.
#[derive(Clone, Copy, Debug)]
pub struct TokenBucket {
    level: u128,
    last_refill: u64,
    max_tokens: u32,
    window: u64,
}

impl View for TokenBucket {
    type V = BucketView;

    closed spec fn view(&self) -> BucketView {
        BucketView {
            level: self.level,
            last_refill: self.last_refill,
            capacity: self.max_tokens,
            window: self.window,
        }
    }
}

impl TokenBucket {
    /// The bucket's invariant: that of its model.
    pub open spec fn wf(&self) -> bool {
        self@.wf()
    }

    /// The units that make a token.
    fn unit(&self) -> (unit: u64)
        ensures
            unit == self@.unit(),
            unit >= 1,
    {
        if self.window == 0 {
            1
        } else {
            self.window
        }
    }

    /// A full bucket of `max_tokens` tokens that refills over `window`
    /// nanoseconds, made at `now`.
    pub fn new(max_tokens: u32, window: u64, now: u64) -> (bucket: Self)
        ensures
            bucket.wf(),
            bucket@ == BucketView::fresh(max_tokens, window, now),
    {
        let unit: u64 = if window == 0 {
            1
        } else {
            window
        };
        proof {
            lemma_product_bound(unit as int, max_tokens as int);
        }
        TokenBucket { level: max_tokens as u128 * unit as u128, last_refill: now, max_tokens, window }
    }

    /// Adds what has accrued between the last refill and `now`.
    pub fn refill(&mut self, now: u64)
        requires
            old(self).wf(),
        ensures
            final(self).wf(),
            final(self)@ == old(self)@.refilled(now),
    {
        let unit = self.unit();
        let elapsed: u64 = if now > self.last_refill {
            now - self.last_refill
        } else {
            0
        };
        proof {
            lemma_product_bound(unit as int, self.max_tokens as int);
            lemma_product_bound(elapsed as int, self.max_tokens as int);
        }
        let full: u128 = self.max_tokens as u128 * unit as u128;
        let gained: u128 = self.level + elapsed as u128 * self.max_tokens as u128;
        if self.window == 0 || gained >= full {
            self.level = full;
        } else {
            self.level = gained;
        }
        self.last_refill = now;
    }

    /// Refills the bucket at `now` and takes a token if it holds one.
    /// Returns whether it did; where it did not, the balance is that of the
    /// refill.
    pub fn try_consume(&mut self, now: u64) -> (admitted: bool)
        requires
            old(self).wf(),
        ensures
            final(self).wf(),
            admitted == old(self)@.admits(now),
            final(self)@ == old(self)@.consumed(now),
    {
        self.refill(now);
        let unit = self.unit();
        if self.level >= unit as u128 {
            self.level = self.level - unit as u128;
            true
        } else {
            false
        }
    }

    /// Refills the bucket at `now` and returns the whole tokens that it
    /// holds.
    pub fn available_tokens(&mut self, now: u64) -> (tokens: u32)
        requires
            old(self).wf(),
        ensures
            final(self).wf(),
            final(self)@ == old(self)@.refilled(now),
            tokens == final(self)@.whole_tokens(),
    {
        self.refill(now);
        let unit = self.unit();
        proof {
            let level = self.level as int;
            let cap = self.max_tokens as int;
            let u = unit as int;
            assert(level / u <= cap) by (nonlinear_arith)
                requires
                    0 <= level <= cap * u,
                    u >= 1,
            ;
        }
        (self.level / unit as u128) as u32
    }

    /// The nanoseconds to wait for a whole token, counted from the last
    /// refill: none if the bucket holds one, and `u64::MAX`, for never, if
    /// the bucket has no capacity.
    pub fn time_until_token(&self) -> (wait: u64)
        requires
            self.wf(),
        ensures
            wait == self@.wait(),
    {
        let unit = self.unit();
        if self.level >= unit as u128 {
            return 0;
        }
        if self.max_tokens == 0 {
            return u64::MAX;
        }
        if self.window == 0 {
            return 0;
        }
        let needed: u128 = unit as u128 - self.level;
        let rounded: u128 = needed + (self.max_tokens as u128 - 1);
        proof {
            let r = rounded as int;
            let cap = self.max_tokens as int;
            let u = unit as int;
            assert(0 <= r / cap <= u) by (nonlinear_arith)
                requires
                    0 <= r <= u + cap - 1,
                    cap >= 1,
                    u >= 1,
            ;
        }
        (rounded / self.max_tokens as u128) as u64
    }

    /// The bucket's capacity in tokens.
    pub fn max_tokens(&self) -> (tokens: u32)
        ensures
            tokens == self@.capacity,
    {
        self.max_tokens
    }

    /// The time of the last refill.
    pub fn last_refill(&self) -> (at: u64)
        ensures
            at == self@.last_refill,
    {
        self.last_refill
    }
}

} // verus!
