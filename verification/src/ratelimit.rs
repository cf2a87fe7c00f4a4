//! The per-external-service rate limiter: a fixed steady request interval,
//! realized as "wait until the interval has elapsed since the last call, else
//! sleep the remainder". The library computes the wait and keeps the clock
//! state; the runtime outside performs the actual sleep and hands in the
//! current time. Shared-use safety (one mutual exclusion around the
//! check-and-set) is the runtime's lock around a value of this type.

use vstd::prelude::*;

verus! {

/// Clock state of one service's limiter: the earliest instant (milliseconds)
/// at which the next request may go out.
#[derive(Debug, Clone, Copy, PartialEq, Eq, Structural)]
pub struct RateLimiter {
    pub interval_ms: u64,
    pub earliest_next_ms: u64,
}

/// The instant a request issued at `now` effectively goes out: immediately,
/// or at the earliest permitted instant.
pub open spec fn spec_effective(earliest_next: int, now: int) -> int {
    if now >= earliest_next {
        now
    } else {
        earliest_next
    }
}

impl RateLimiter {
    /// A fresh limiter lets the first request through immediately.
    pub fn new(interval_ms: u64) -> (r: RateLimiter)
        ensures
            r.interval_ms == interval_ms,
            r.earliest_next_ms == 0,
    {
        RateLimiter { interval_ms, earliest_next_ms: 0 }
    }

    /// A limiter enforcing a steady `rate` requests per second.
    pub fn per_second(rate: u64) -> (r: RateLimiter)
        requires
            1 <= rate <= 1000,
        ensures
            r.interval_ms == 1000u64 / rate,
            r.earliest_next_ms == 0,
    {
        RateLimiter { interval_ms: 1000 / rate, earliest_next_ms: 0 }
    }

    /// Account for one request issued at `now_ms` and return how long the
    /// caller must wait before performing it. The request effectively goes
    /// out at `now_ms + wait`, and the next one is admitted no sooner than
    /// one interval after that.
    pub fn acquire(&mut self, now_ms: u64) -> (wait_ms: u64)
        requires
            now_ms <= u64::MAX - old(self).interval_ms,
            old(self).earliest_next_ms <= u64::MAX - old(self).interval_ms,
        ensures
            final(self).interval_ms == old(self).interval_ms,
            wait_ms == if now_ms >= old(self).earliest_next_ms {
                0u64
            } else {
                (old(self).earliest_next_ms - now_ms) as u64
            },
            now_ms + wait_ms == spec_effective(old(self).earliest_next_ms as int, now_ms as int),
            final(self).earliest_next_ms == now_ms + wait_ms + old(self).interval_ms,
    {
        let wait = if now_ms >= self.earliest_next_ms {
            0
        } else {
            self.earliest_next_ms - now_ms
        };
        self.earliest_next_ms = now_ms + wait + self.interval_ms;
        wait
    }
}

/// The effective send instants of a run of back-to-back requests: each
/// request is issued no earlier than the previous one went out.
pub open spec fn back_to_back(earliest_next: int, interval: int, nows: Seq<int>) -> bool
    decreases nows.len(),
{
    if nows.len() == 0 {
        true
    } else {
        let e0 = spec_effective(earliest_next, nows[0]);
        nows.len() == 1 || (nows[1] >= e0 && back_to_back(e0 + interval, interval, nows.drop_first()))
    }
}

/// The effective send instants of a run of requests.
pub open spec fn effective_times(earliest_next: int, interval: int, nows: Seq<int>) -> Seq<int>
    decreases nows.len(),
{
    if nows.len() == 0 {
        Seq::empty()
    } else {
        let e0 = spec_effective(earliest_next, nows[0]);
        seq![e0] + effective_times(e0 + interval, interval, nows.drop_first())
    }
}

/// Rate-limit law: back-to-back requests go out at least one interval apart,
/// so the `k`-th request goes out no less than `k` intervals after the first.
/// In particular, five calls against a two-per-second limiter (interval 500
/// milliseconds) span at least two full seconds.
pub proof fn lemma_rate_limiter_spacing(earliest_next: int, interval: int, nows: Seq<int>, k: int)
    requires
        interval >= 0,
        back_to_back(earliest_next, interval, nows),
        0 <= k < nows.len(),
    ensures
        effective_times(earliest_next, interval, nows).len() == nows.len(),
        effective_times(earliest_next, interval, nows)[k] >= effective_times(
            earliest_next,
            interval,
            nows,
        )[0] + k * interval,
    decreases nows.len(),
{
    let ts = effective_times(earliest_next, interval, nows);
    let e0 = spec_effective(earliest_next, nows[0]);
    lemma_effective_times_len(earliest_next, interval, nows);
    if k > 0 {
        let rest = nows.drop_first();
        let ts1 = effective_times(e0 + interval, interval, rest);
        lemma_rate_limiter_spacing(e0 + interval, interval, rest, k - 1);
        lemma_rate_limiter_spacing(e0 + interval, interval, rest, 0);
        assert(ts[k] == ts1[k - 1]);
        assert(ts[0] == e0);
        assert(ts1[0] == spec_effective(e0 + interval, rest[0]));
        assert(ts1[0] >= e0 + interval);
        assert(ts1[k - 1] >= ts1[0] + (k - 1) * interval);
        assert((k - 1) * interval + interval == k * interval) by (nonlinear_arith);
    }
}

/// The run produces one send instant per request.
pub proof fn lemma_effective_times_len(earliest_next: int, interval: int, nows: Seq<int>)
    ensures
        effective_times(earliest_next, interval, nows).len() == nows.len(),
    decreases nows.len(),
{
    if nows.len() > 0 {
        let e0 = spec_effective(earliest_next, nows[0]);
        lemma_effective_times_len(e0 + interval, interval, nows.drop_first());
    }
}

} // verus!
