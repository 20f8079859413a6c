use vstd::prelude::*;
use crate::error::AppError;

verus! {

/// Credit is counted in thousandths of a token, so that a refill of
/// `elapsed_ms * requests_per_second` thousandths is exact.
pub const MILLI: u64 = 1000;

/// Lazy token bucket that admits outbound calls.
///
/// The caller reads the clock and passes the current time in milliseconds;
/// the bucket never reads it itself.
#[derive(Debug, Clone, Copy, PartialEq, Eq)]
pub struct RateLimiter {
    pub requests_per_second: u32,
    pub burst_limit: u32,
    /// Available tokens, in thousandths of a token.
    pub credit: u64,
    pub last_refill_ms: u64,
}

pub open spec fn spaced_from(start: u64, times: Seq<u64>, i: int) -> u64 {
    if i == 0 {
        start
    } else {
        times[i - 1]
    }
}

/// Every call time is at least `1/requests_per_second` seconds after the
/// previous one (or after `start` for the first).
pub open spec fn evenly_spaced(start: u64, times: Seq<u64>, requests_per_second: u32) -> bool {
    forall|i: int|
        0 <= i < times.len() ==> {
            let prev = #[trigger] spaced_from(start, times, i);
            &&& prev <= times[i]
            &&& (times[i] - prev) * requests_per_second >= MILLI
        }
}

/// `n` calls made at the same instant `now`.
pub open spec fn same_instant(now: u64, n: nat) -> Seq<u64> {
    Seq::new(n, |j: int| now)
}

impl RateLimiter {
    pub open spec fn capacity(self) -> int {
        self.burst_limit as int * MILLI as int
    }

    pub open spec fn wf(self) -> bool {
        self.credit <= self.capacity()
    }

    /// Credit after the lazy refill for the time elapsed up to `now`.
    pub open spec fn refilled(self, now: u64) -> int {
        if now <= self.last_refill_ms {
            self.credit as int
        } else {
            let gained = self.credit as int + (now - self.last_refill_ms) * self.requests_per_second;
            if gained < self.capacity() {
                gained
            } else {
                self.capacity()
            }
        }
    }

    pub open spec fn can_acquire(self, now: u64) -> bool {
        self.refilled(now) >= MILLI
    }

    /// The bucket after one acquisition attempt at `now`, successful or not.
    pub open spec fn after_acquire(self, now: u64) -> RateLimiter {
        RateLimiter {
            requests_per_second: self.requests_per_second,
            burst_limit: self.burst_limit,
            credit: (if self.can_acquire(now) {
                self.refilled(now) - MILLI
            } else {
                self.refilled(now)
            }) as u64,
            last_refill_ms: if now > self.last_refill_ms {
                now
            } else {
                self.last_refill_ms
            },
        }
    }

    /// The bucket after one acquisition attempt at each of `times`, in order.
    pub open spec fn acquire_all(self, times: Seq<u64>) -> RateLimiter
        decreases times.len(),
    {
        if times.len() == 0 {
            self
        } else {
            self.acquire_all(times.drop_last()).after_acquire(times.last())
        }
    }

    /// Milliseconds until a token is projected to be available; `u64::MAX`
    /// when the bucket can never refill.
    pub open spec fn wait_spec(self, now: u64) -> int {
        if self.can_acquire(now) {
            0
        } else if self.requests_per_second == 0 || self.burst_limit == 0 {
            u64::MAX as int
        } else {
            (MILLI - self.refilled(now) + self.requests_per_second - 1) / self.requests_per_second as int
        }
    }

    /// A full bucket, as after `burst_limit` idle refills.
    pub fn new(requests_per_second: u32, burst_limit: u32, now_ms: u64) -> (r: Self)
        ensures
            r.wf(),
            r.requests_per_second == requests_per_second,
            r.burst_limit == burst_limit,
            r.credit == r.capacity(),
            r.last_refill_ms == now_ms,
    {
        RateLimiter {
            requests_per_second,
            burst_limit,
            credit: burst_limit as u64 * MILLI,
            last_refill_ms: now_ms,
        }
    }

    fn refill_amount(&self, now_ms: u64) -> (r: u64)
        requires
            self.wf(),
        ensures
            r == self.refilled(now_ms),
            r <= self.capacity(),
    {
        if now_ms <= self.last_refill_ms {
            self.credit
        } else {
            let elapsed = (now_ms - self.last_refill_ms) as u128;
            let rate = self.requests_per_second as u128;
            assert(elapsed * rate <= 0xffff_ffff_ffff_ffffu128 * 0xffff_ffffu128) by (nonlinear_arith)
                requires
                    elapsed <= 0xffff_ffff_ffff_ffffu128,
                    rate <= 0xffff_ffffu128,
            ;
            let total = self.credit as u128 + elapsed * rate;
            let cap = self.burst_limit as u128 * 1000;
            if total < cap {
                total as u64
            } else {
                cap as u64
            }
        }
    }

    /// Refills lazily, then consumes one token if one is available.
    pub fn acquire_permit(&mut self, now_ms: u64) -> (r: Result<(), AppError>)
        requires
            old(self).wf(),
        ensures
            final(self).wf(),
            *final(self) == old(self).after_acquire(now_ms),
            r is Ok <==> old(self).can_acquire(now_ms),
            r matches Err(e) ==> e is RateLimitExceeded,
    {
        let available = self.refill_amount(now_ms);
        if now_ms > self.last_refill_ms {
            self.last_refill_ms = now_ms;
        }
        if available >= MILLI {
            self.credit = available - MILLI;
            Ok(())
        } else {
            self.credit = available;
            Err(AppError::RateLimitExceeded)
        }
    }

    /// How long a caller that wants a token at `now_ms` has to wait.
    pub fn wait(&self, now_ms: u64) -> (r: u64)
        requires
            self.wf(),
        ensures
            r == self.wait_spec(now_ms),
    {
        let available = self.refill_amount(now_ms);
        if available >= MILLI {
            0
        } else if self.requests_per_second == 0 || self.burst_limit == 0 {
            u64::MAX
        } else {
            let rate = self.requests_per_second as u64;
            (MILLI - available + rate - 1) / rate
        }
    }
}

/// Waiting for the time that `wait` reports is enough: a bucket that can
/// refill at all admits a call once that time has passed.
pub proof fn lemma_wait_suffices(l: RateLimiter, now: u64)
    requires
        l.wf(),
        l.requests_per_second > 0,
        l.burst_limit > 0,
        now >= l.last_refill_ms,
        now + l.wait_spec(now) <= u64::MAX,
    ensures
        l.can_acquire((now + l.wait_spec(now)) as u64),
{
    let w = l.wait_spec(now);
    let later = (now + w) as u64;
    if !l.can_acquire(now) {
        let r = l.requests_per_second as int;
        let d = MILLI - l.refilled(now);
        assert(w * r >= d) by (nonlinear_arith)
            requires
                r > 0,
                d >= 0,
                w == (d + r - 1) / r,
        ;
        let e = now - l.last_refill_ms;
        assert((e + w) * r == e * r + w * r) by (nonlinear_arith);
        assert(l.refilled(later) >= MILLI);
    }
}

proof fn lemma_spaced_prefix(l: RateLimiter, times: Seq<u64>, k: int)
    requires
        l.wf(),
        l.burst_limit >= 1,
        evenly_spaced(l.last_refill_ms, times, l.requests_per_second),
        0 <= k <= times.len(),
    ensures
        l.acquire_all(times.take(k)).wf(),
        l.acquire_all(times.take(k)).requests_per_second == l.requests_per_second,
        l.acquire_all(times.take(k)).burst_limit == l.burst_limit,
        l.acquire_all(times.take(k)).last_refill_ms == spaced_from(l.last_refill_ms, times, k),
    decreases k,
{
    if k > 0 {
        lemma_spaced_prefix(l, times, k - 1);
        assert(times.take(k).drop_last() =~= times.take(k - 1));
        let prev = spaced_from(l.last_refill_ms, times, k - 1);
        assert(prev <= times[k - 1]);
    }
}

/// Calls spaced by at least `1/requests_per_second` seconds are all admitted.
pub proof fn lemma_spaced_acquires_succeed(l: RateLimiter, times: Seq<u64>)
    requires
        l.wf(),
        l.burst_limit >= 1,
        evenly_spaced(l.last_refill_ms, times, l.requests_per_second),
    ensures
        forall|i: int|
            0 <= i < times.len() ==> #[trigger] l.acquire_all(times.take(i)).can_acquire(times[i]),
{
    assert forall|i: int| 0 <= i < times.len() implies #[trigger] l.acquire_all(
        times.take(i),
    ).can_acquire(times[i]) by {
        lemma_spaced_prefix(l, times, i);
        let s = l.acquire_all(times.take(i));
        let prev = spaced_from(l.last_refill_ms, times, i);
        assert((times[i] - prev) * l.requests_per_second >= MILLI);
        if times[i] == prev {
            assert(false) by (nonlinear_arith)
                requires
                    (times[i] - prev) * l.requests_per_second >= MILLI,
                    times[i] == prev,
            ;
        }
        assert(s.refilled(times[i]) >= MILLI);
    }
}

proof fn lemma_burst_prefix(l: RateLimiter, now: u64, i: nat)
    requires
        l.wf(),
        l.credit == l.capacity(),
        l.last_refill_ms == now,
        i <= l.burst_limit,
    ensures
        l.acquire_all(same_instant(now, i)).credit == l.capacity() - i * MILLI,
        l.acquire_all(same_instant(now, i)).last_refill_ms == now,
        l.acquire_all(same_instant(now, i)).burst_limit == l.burst_limit,
        l.acquire_all(same_instant(now, i)).requests_per_second == l.requests_per_second,
    decreases i,
{
    if i > 0 {
        lemma_burst_prefix(l, now, (i - 1) as nat);
        assert(same_instant(now, i).drop_last() =~= same_instant(now, (i - 1) as nat));
    }
}

/// From a full bucket, `burst_limit` calls at one instant are admitted and
/// the next call at that instant is refused.
pub proof fn lemma_burst_then_refuse(l: RateLimiter, now: u64)
    requires
        l.wf(),
        l.credit == l.capacity(),
        l.last_refill_ms == now,
    ensures
        forall|i: nat|
            i < l.burst_limit ==> #[trigger] l.acquire_all(same_instant(now, i)).can_acquire(
                now,
            ),
        !l.acquire_all(same_instant(now, l.burst_limit as nat)).can_acquire(now),
{
    assert forall|i: nat| i < l.burst_limit implies #[trigger] l.acquire_all(
        same_instant(now, i),
    ).can_acquire(now) by {
        lemma_burst_prefix(l, now, i);
    }
    lemma_burst_prefix(l, now, l.burst_limit as nat);
}

} // verus!
