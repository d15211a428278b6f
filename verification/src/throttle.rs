//! Exchange rate limiting: a weight token bucket, a websocket reconnect throttle and a clock
//! skew monitor.
use crate::clock::{instant_now, nanos_since, whole_secs_since, Timestamp};
use crate::market::{ExecAlert, Exchange};
use std::collections::VecDeque;
use std::time::Instant;
use vstd::prelude::*;

verus! {

/// The abstract state of a token bucket.
pub struct TokenBucketView {
    pub exchange: Exchange,
    pub capacity: u32,
    pub available: u32,
    pub refill_per_second: u32,
    pub used_weight: u64,
}

/// Tokens after `elapsed_secs` whole seconds of refilling: nothing when no whole second has
/// passed, else the saturated refill added and the result capped at `capacity`.
pub open spec fn spec_refilled(available: u32, capacity: u32, rate: u32, elapsed_secs: u64) -> u32 {
    if elapsed_secs == 0 {
        available
    } else {
        let refill = if elapsed_secs * rate > u64::MAX { u64::MAX as int } else { elapsed_secs
            * rate };
        let add = if refill > u32::MAX { u32::MAX as int } else { refill };
        let sum = if available + add > u32::MAX { u32::MAX as int } else { available + add };
        (if capacity < sum { capacity as int } else { sum }) as u32
    }
}

/// A request of `weight` after `elapsed_secs` whole seconds: the bucket is refilled, then the
/// tokens are taken when enough are left, else the rate limit is reported and nothing is
/// taken.
pub open spec fn spec_consume(v: TokenBucketView, elapsed_secs: u64, weight: u32) -> (
    Result<(), ExecAlert>,
    TokenBucketView,
) {
    let avail = spec_refilled(v.available, v.capacity, v.refill_per_second, elapsed_secs);
    if avail < weight {
        (
            Err(ExecAlert::RateLimitExceeded { exchange: v.exchange, retry_after_ms: None }),
            TokenBucketView { available: avail, ..v },
        )
    } else {
        (
            Ok(()),
            TokenBucketView {
                available: (avail - weight) as u32,
                used_weight: (v.used_weight + weight) as u64,
                ..v
            },
        )
    }
}

/// The answer to an exchange response with HTTP status `status`.
pub open spec fn spec_response_alert(exchange: Exchange, status: u16, retry_after_ms: Option<
    u64,
>) -> Option<ExecAlert> {
    if status == 429 {
        Some(ExecAlert::RateLimitExceeded { exchange, retry_after_ms })
    } else if status == 418 || status == 403 {
        Some(ExecAlert::ExchangeBan { exchange, status })
    } else {
        None
    }
}

/// A request-weight budget that refills at a fixed rate per whole second.
#[derive(Debug)]
pub struct TokenBucket {
    exchange: Exchange,
    capacity: u32,
    available: u32,
    refill_per_second: u32,
    last_refill: Instant,
    used_weight: u64,
}

impl View for TokenBucket {
    type V = TokenBucketView;

    closed spec fn view(&self) -> TokenBucketView {
        TokenBucketView {
            exchange: self.exchange,
            capacity: self.capacity,
            available: self.available,
            refill_per_second: self.refill_per_second,
            used_weight: self.used_weight,
        }
    }
}

/// Tokens after a refill of `elapsed_secs` whole seconds.
pub fn refilled_available(available: u32, capacity: u32, rate: u32, elapsed_secs: u64) -> (r: u32)
    ensures
        r == spec_refilled(available, capacity, rate, elapsed_secs),
{
    if elapsed_secs == 0 {
        return available;
    }
    assert(elapsed_secs as u128 * rate as u128 <= 0xffff_ffff_ffff_ffffu128 * 0xffff_ffffu128)
        by (nonlinear_arith);
    let wide = elapsed_secs as u128 * rate as u128;
    let refill: u64 = if wide > u64::MAX as u128 {
        u64::MAX
    } else {
        wide as u64
    };
    let add: u32 = if refill > u32::MAX as u64 {
        u32::MAX
    } else {
        refill as u32
    };
    let sum = available.saturating_add(add);
    if capacity < sum {
        capacity
    } else {
        sum
    }
}

impl TokenBucket {
    #[verifier::type_invariant]
    spec fn well_formed(self) -> bool {
        self.available <= self.capacity
    }

    pub fn new(exchange: Exchange, capacity: u32, refill_per_second: u32) -> (r: TokenBucket)
        ensures
            r@ == (TokenBucketView {
                exchange,
                capacity,
                available: capacity,
                refill_per_second,
                used_weight: 0,
            }),
    {
        TokenBucket {
            exchange,
            capacity,
            available: capacity,
            refill_per_second,
            last_refill: instant_now(),
            used_weight: 0,
        }
    }

    /// Takes `weight` tokens after a refill, or reports the rate limit when too few are left.
    /// How many whole seconds have passed since the last refill depends on the clock; that
    /// reading is handed to `try_consume_after`.
    pub fn try_consume(&mut self, weight: u32) -> (r: Result<(), ExecAlert>)
        requires
            old(self)@.used_weight + weight <= u64::MAX,
        ensures
            final(self)@.available <= final(self)@.capacity,
            exists|e: u64| #[trigger] spec_consume(old(self)@, e, weight) == (r, final(self)@),
    {
        let elapsed = whole_secs_since(&self.last_refill);
        self.try_consume_after(elapsed, weight)
    }

    /// Takes `weight` tokens after crediting `elapsed_secs` whole seconds of refill (capped at
    /// the capacity), or reports the rate limit when too few are left; a refused request takes
    /// nothing but keeps the refill. The refill restarts its count from now when at least one
    /// whole second was credited.
    pub fn try_consume_after(&mut self, elapsed_secs: u64, weight: u32) -> (r: Result<
        (),
        ExecAlert,
    >)
        requires
            old(self)@.used_weight + weight <= u64::MAX,
        ensures
            final(self)@.available <= final(self)@.capacity,
            (r, final(self)@) == spec_consume(old(self)@, elapsed_secs, weight),
    {
        proof {
            use_type_invariant(&*self);
        }
        if elapsed_secs > 0 {
            let next = refilled_available(
                self.available,
                self.capacity,
                self.refill_per_second,
                elapsed_secs,
            );
            self.available = next;
            self.last_refill = instant_now();
        }
        proof {
            use_type_invariant(&*self);
        }
        if self.available < weight {
            return Err(ExecAlert::RateLimitExceeded { exchange: self.exchange, retry_after_ms: None });
        }
        self.available = self.available - weight;
        self.used_weight = self.used_weight + weight as u64;
        proof {
            use_type_invariant(&*self);
        }
        Ok(())
    }

    /// The alert that an exchange response calls for: 429 is a rate limit, 418 and 403 a ban.
    pub fn record_response(&self, status: u16, retry_after_ms: Option<u64>) -> (r: Option<
        ExecAlert,
    >)
        ensures
            r == spec_response_alert(self@.exchange, status, retry_after_ms),
    {
        if status == 429 {
            Some(ExecAlert::RateLimitExceeded { exchange: self.exchange, retry_after_ms })
        } else if status == 418 || status == 403 {
            Some(ExecAlert::ExchangeBan { exchange: self.exchange, status })
        } else {
            None
        }
    }

    pub fn used_weight(&self) -> (r: u64)
        ensures
            r == self@.used_weight,
    {
        self.used_weight
    }
}

/// The abstract state of a reconnect throttle: attempt times are nanoseconds since the
/// throttle was made.
pub struct WsReconnectThrottleView {
    pub exchange: Exchange,
    pub max_attempts: usize,
    pub window_nanos: u128,
    pub attempts: Seq<u128>,
}

/// An attempt at `at` lies outside the window at `now` when more than `window` has passed.
pub open spec fn attempt_expired(now: u128, at: u128, window: u128) -> bool {
    now > at && now - at > window
}

/// The attempts left once the expired ones at the front are dropped.
pub open spec fn drop_expired(attempts: Seq<u128>, now: u128, window: u128) -> Seq<u128>
    decreases attempts.len(),
{
    if attempts.len() > 0 && attempt_expired(now, attempts[0], window) {
        drop_expired(attempts.drop_first(), now, window)
    } else {
        attempts
    }
}

/// The outcome of an attempt at `now`: the new attempt list and the answer.
pub open spec fn spec_record_attempt(v: WsReconnectThrottleView, now: u128) -> (
    Seq<u128>,
    Result<(), ExecAlert>,
) {
    let kept = drop_expired(v.attempts, now, v.window_nanos);
    if kept.len() >= v.max_attempts {
        (kept, Err(ExecAlert::WsReconnectThrottled { exchange: v.exchange }))
    } else {
        (kept.push(now), Ok(()))
    }
}

/// Caps websocket reconnects to `max_attempts` within a sliding window.
#[derive(Debug)]
pub struct WsReconnectThrottle {
    exchange: Exchange,
    max_attempts: usize,
    window_nanos: u128,
    origin: Instant,
    attempts: VecDeque<u128>,
}

impl View for WsReconnectThrottle {
    type V = WsReconnectThrottleView;

    closed spec fn view(&self) -> WsReconnectThrottleView {
        WsReconnectThrottleView {
            exchange: self.exchange,
            max_attempts: self.max_attempts,
            window_nanos: self.window_nanos,
            attempts: self.attempts@,
        }
    }
}

impl WsReconnectThrottle {
    /// A throttle with an empty history whose sliding window is `window_nanos` nanoseconds.
    pub fn new(exchange: Exchange, max_attempts: usize, window_nanos: u128) -> (r:
        WsReconnectThrottle)
        ensures
            r@.exchange == exchange,
            r@.max_attempts == max_attempts,
            r@.window_nanos == window_nanos,
            r@.attempts == Seq::<u128>::empty(),
    {
        WsReconnectThrottle {
            exchange,
            max_attempts,
            window_nanos,
            origin: instant_now(),
            attempts: VecDeque::new(),
        }
    }

    /// Records an attempt at the current time after dropping those outside the window; refuses
    /// it when the window is already full. The reading of the clock is some `now`: the
    /// nanoseconds since the throttle was made, handed to `record_attempt_at`.
    pub fn record_attempt(&mut self) -> (r: Result<(), ExecAlert>)
        ensures
            exists|now: u128|
                {
                    let (kept, answer) = #[trigger] spec_record_attempt(old(self)@, now);
                    &&& r == answer
                    &&& final(self)@ == (WsReconnectThrottleView { attempts: kept, ..old(self)@ })
                },
    {
        let now = nanos_since(&self.origin);
        let r = self.record_attempt_at(now);
        assert(spec_record_attempt(old(self)@, now).1 == r);
        r
    }

    /// Records an attempt made `now` nanoseconds after the throttle was made: the attempts that
    /// lie outside the window at `now` are dropped first, then the attempt is refused when the
    /// window is still full, and kept otherwise.
    pub fn record_attempt_at(&mut self, now: u128) -> (r: Result<(), ExecAlert>)
        ensures
            ({
                let (kept, answer) = spec_record_attempt(old(self)@, now);
                &&& r == answer
                &&& final(self)@ == (WsReconnectThrottleView { attempts: kept, ..old(self)@ })
            }),
    {
        let ghost start = self@;
        loop
            invariant
                self@.exchange == start.exchange,
                self@.max_attempts == start.max_attempts,
                self@.window_nanos == start.window_nanos,
                drop_expired(self@.attempts, now, self@.window_nanos) == drop_expired(
                    start.attempts,
                    now,
                    start.window_nanos,
                ),
            ensures
                self@.exchange == start.exchange,
                self@.max_attempts == start.max_attempts,
                self@.window_nanos == start.window_nanos,
                self@.attempts == drop_expired(start.attempts, now, start.window_nanos),
            decreases self@.attempts.len(),
        {
            if self.attempts.len() == 0 {
                break;
            }
            let front = self.attempts[0];
            if !(now > front && now - front > self.window_nanos) {
                break;
            }
            let ghost prev = self@.attempts;
            let _ = self.attempts.pop_front();
            assert(self@.attempts =~= prev.drop_first());
        }
        if self.attempts.len() >= self.max_attempts {
            assert(spec_record_attempt(start, now).0 == self@.attempts);
            return Err(ExecAlert::WsReconnectThrottled { exchange: self.exchange });
        }
        self.attempts.push_back(now);
        assert(spec_record_attempt(start, now).0 == self@.attempts);
        Ok(())
    }
}

/// Rejects clock readings whose distance from a reference exceeds a bound.
#[derive(Debug, Clone)]
pub struct ClockSkewMonitor {
    pub max_skew_ms: i64,
}

/// The answer to a skew of `signed_ms` milliseconds between the local and reference clocks.
pub open spec fn spec_skew_answer(max_skew_ms: i64, signed_ms: i64) -> Result<i64, ExecAlert> {
    let skew = if signed_ms < 0 { -signed_ms } else { signed_ms as int };
    if skew > max_skew_ms {
        Err(ExecAlert::ClockSkewExceeded { skew_ms: skew as i64 })
    } else {
        Ok(skew as i64)
    }
}

impl ClockSkewMonitor {
    pub fn new(max_skew_ms: i64) -> (r: ClockSkewMonitor)
        ensures
            r.max_skew_ms == max_skew_ms,
    {
        ClockSkewMonitor { max_skew_ms }
    }

    /// The absolute distance between `local` and `reference` in milliseconds, or the alert
    /// when it exceeds the bound.
    pub fn observe(&self, local: Timestamp, reference: Timestamp) -> (r: Result<i64, ExecAlert>)
        ensures
            r == spec_skew_answer(self.max_skew_ms, crate::clock::utc_millis_between(local@, reference@) as i64),
    {
        let signed = local.millis_since(&reference);
        self.skew_answer(signed)
    }

    /// The answer to a signed distance of `signed_ms` milliseconds.
    pub fn skew_answer(&self, signed_ms: i64) -> (r: Result<i64, ExecAlert>)
        requires
            signed_ms > i64::MIN,
        ensures
            r == spec_skew_answer(self.max_skew_ms, signed_ms),
    {
        let skew = if signed_ms < 0 {
            -signed_ms
        } else {
            signed_ms
        };
        if skew > self.max_skew_ms {
            Err(ExecAlert::ClockSkewExceeded { skew_ms: skew })
        } else {
            Ok(skew)
        }
    }
}

} // verus!
