//! The reconnect throttle over a whole run of attempts: whatever the times of the attempts,
//! no more than `max_attempts` of them get through within any window.
use crate::market::ExecAlert;
use crate::throttle::{attempt_expired, drop_expired, spec_record_attempt, WsReconnectThrottleView};
use vstd::prelude::*;

verus! {

/// Times that never go backwards.
pub open spec fn nondecreasing(t: Seq<u128>) -> bool {
    forall|i: int, j: int| 0 <= i <= j < t.len() ==> t[i] <= t[j]
}

/// The throttle after attempts at `times`, one after another.
pub open spec fn throttle_after(v: WsReconnectThrottleView, times: Seq<u128>) -> WsReconnectThrottleView
    decreases times.len(),
{
    if times.len() == 0 {
        v
    } else {
        let p = throttle_after(v, times.drop_last());
        WsReconnectThrottleView { attempts: spec_record_attempt(p, times.last()).0, ..p }
    }
}

/// The answer to the attempt at `times[i]`, after the attempts before it.
pub open spec fn answer_at(v: WsReconnectThrottleView, times: Seq<u128>, i: int) -> Result<
    (),
    ExecAlert,
> {
    spec_record_attempt(throttle_after(v, times.take(i)), times[i]).1
}

/// The times of the attempts that were let through.
pub open spec fn accepted(v: WsReconnectThrottleView, times: Seq<u128>) -> Seq<u128>
    decreases times.len(),
{
    if times.len() == 0 {
        Seq::empty()
    } else {
        let rest = accepted(v, times.drop_last());
        if spec_record_attempt(throttle_after(v, times.drop_last()), times.last()).1 is Ok {
            rest.push(times.last())
        } else {
            rest
        }
    }
}

/// How many of the times lie within the window that ends at `now`.
pub open spec fn count_within(s: Seq<u128>, now: u128, window: u128) -> nat
    decreases s.len(),
{
    if s.len() == 0 {
        0
    } else {
        count_within(s.drop_last(), now, window) + if attempt_expired(now, s.last(), window) {
            0nat
        } else {
            1nat
        }
    }
}

/// The throttle after a run holds the accepted attempts from the first still in the window
/// at the last attempt; the earlier ones lie outside it.
spec fn run_inv(v: WsReconnectThrottleView, times: Seq<u128>) -> bool {
    let s = throttle_after(v, times);
    let acc = accepted(v, times);
    let t = times.last();
    let w = v.window_nanos;
    let q = acc.len() - s.attempts.len();
    &&& s.exchange == v.exchange
    &&& s.max_attempts == v.max_attempts
    &&& s.window_nanos == w
    &&& s.attempts.len() <= acc.len()
    &&& s.attempts.len() <= v.max_attempts
    &&& s.attempts == acc.subrange(q, acc.len() as int)
    &&& forall|j: int| 0 <= j < q ==> attempt_expired(t, #[trigger] acc[j], w)
    &&& forall|j: int| q <= j < acc.len() ==> !attempt_expired(t, #[trigger] acc[j], w)
    &&& forall|j: int| 0 <= j < acc.len() ==> #[trigger] acc[j] <= t
    &&& nondecreasing(acc)
}

/// On times that never go backwards, dropping the expired attempts drops a prefix: those
/// before it lie outside the window, those after it inside.
proof fn lemma_drop_sorted(a: Seq<u128>, now: u128, w: u128)
    requires
        nondecreasing(a),
        forall|j: int| 0 <= j < a.len() ==> #[trigger] a[j] <= now,
    ensures
        drop_expired(a, now, w).len() <= a.len(),
        drop_expired(a, now, w) == a.subrange(
            a.len() - drop_expired(a, now, w).len(),
            a.len() as int,
        ),
        forall|j: int|
            0 <= j < a.len() - drop_expired(a, now, w).len() ==> attempt_expired(
                now,
                #[trigger] a[j],
                w,
            ),
        forall|j: int|
            a.len() - drop_expired(a, now, w).len() <= j < a.len() ==> !attempt_expired(
                now,
                #[trigger] a[j],
                w,
            ),
    decreases a.len(),
{
    if a.len() > 0 && attempt_expired(now, a[0], w) {
        let b = a.drop_first();
        assert forall|i: int, j: int| 0 <= i <= j < b.len() implies b[i] <= b[j] by {
            assert(a[i + 1] <= a[j + 1]);
        }
        assert forall|j: int| 0 <= j < b.len() implies #[trigger] b[j] <= now by {
            assert(a[j + 1] <= now);
        }
        lemma_drop_sorted(b, now, w);
        let d = drop_expired(b, now, w);
        assert(drop_expired(a, now, w) == d);
        let m = b.len() - d.len();
        assert(d =~= a.subrange(m + 1, a.len() as int));
        assert forall|j: int| 0 <= j < m + 1 implies attempt_expired(now, #[trigger] a[j], w) by {
            if j > 0 {
                assert(b[j - 1] == a[j]);
            }
        }
        assert forall|j: int| m + 1 <= j < a.len() implies !attempt_expired(
            now,
            #[trigger] a[j],
            w,
        ) by {
            assert(b[j - 1] == a[j]);
        }
    } else {
        assert(drop_expired(a, now, w) == a);
        assert(a.subrange(0, a.len() as int) =~= a);
        assert forall|j: int| 0 <= j < a.len() implies !attempt_expired(now, #[trigger] a[j], w) by {
            assert(a[0] <= a[j]);
        }
    }
}

/// Times split into a prefix outside the window and a rest inside it count the rest.
proof fn lemma_count_split(s: Seq<u128>, now: u128, w: u128, q: int)
    requires
        0 <= q <= s.len(),
        forall|j: int| 0 <= j < q ==> attempt_expired(now, #[trigger] s[j], w),
        forall|j: int| q <= j < s.len() ==> !attempt_expired(now, #[trigger] s[j], w),
    ensures
        count_within(s, now, w) == s.len() - q,
    decreases s.len(),
{
    if s.len() > 0 {
        let r = s.drop_last();
        let last = s.len() - 1;
        assert(s.last() == s[last]);
        if s.len() > q {
            assert forall|j: int| q <= j < r.len() implies !attempt_expired(now, #[trigger] r[j], w) by {
                assert(r[j] == s[j]);
            }
            assert forall|j: int| 0 <= j < q implies attempt_expired(now, #[trigger] r[j], w) by {
                assert(r[j] == s[j]);
            }
            lemma_count_split(r, now, w, q);
        } else {
            assert forall|j: int| 0 <= j < q - 1 implies attempt_expired(now, #[trigger] r[j], w) by {
                assert(r[j] == s[j]);
            }
            lemma_count_split(r, now, w, q - 1);
        }
    }
}

/// One more attempt after a run keeps the run's invariant.
proof fn lemma_run_step(v: WsReconnectThrottleView, times: Seq<u128>)
    requires
        v.attempts.len() == 0,
        times.len() >= 1,
        nondecreasing(times),
        times.len() == 1 || run_inv(v, times.drop_last()),
    ensures
        run_inv(v, times),
{
    let pre = times.drop_last();
    let p = throttle_after(v, pre);
    let acc0 = accepted(v, pre);
    let now = times.last();
    let w = v.window_nanos;
    let a = p.attempts;
    let q0 = acc0.len() - a.len();
    if pre.len() == 0 {
        assert(a.len() == 0);
        assert(acc0.len() == 0);
    } else {
        assert(pre.last() == times[times.len() - 2]);
        assert(times[times.len() - 2] <= now);
    }
    assert(p.window_nanos == w);
    assert forall|j: int| 0 <= j < acc0.len() implies #[trigger] acc0[j] <= now by {
        if pre.len() > 0 {
            assert(acc0[j] <= pre.last());
        }
    }
    assert forall|i: int, j: int| 0 <= i <= j < a.len() implies a[i] <= a[j] by {
        assert(a[i] == acc0[q0 + i]);
        assert(a[j] == acc0[q0 + j]);
    }
    assert forall|j: int| 0 <= j < a.len() implies #[trigger] a[j] <= now by {
        assert(a[j] == acc0[q0 + j]);
    }
    lemma_drop_sorted(a, now, w);
    let kept = drop_expired(a, now, w);
    let m = a.len() - kept.len();
    assert(kept =~= acc0.subrange(q0 + m, acc0.len() as int));
    assert forall|j: int| 0 <= j < q0 + m implies attempt_expired(now, #[trigger] acc0[j], w) by {
        if j < q0 {
            assert(attempt_expired(pre.last(), acc0[j], w));
        } else {
            assert(a[j - q0] == acc0[j]);
        }
    }
    assert forall|j: int| q0 + m <= j < acc0.len() implies !attempt_expired(
        now,
        #[trigger] acc0[j],
        w,
    ) by {
        assert(a[j - q0] == acc0[j]);
    }
    let s = throttle_after(v, times);
    let acc = accepted(v, times);
    if kept.len() >= p.max_attempts {
        assert(acc == acc0);
        assert(s.attempts == kept);
    } else {
        assert(acc == acc0.push(now));
        assert(s.attempts == kept.push(now));
        assert(s.attempts =~= acc.subrange(q0 + m, acc.len() as int));
        assert forall|j: int| 0 <= j < q0 + m implies attempt_expired(now, #[trigger] acc[j], w) by {
            assert(acc[j] == acc0[j]);
        }
        assert forall|j: int| q0 + m <= j < acc.len() implies !attempt_expired(
            now,
            #[trigger] acc[j],
            w,
        ) by {
            if j < acc0.len() {
                assert(acc[j] == acc0[j]);
            }
        }
        assert forall|j: int| 0 <= j < acc.len() implies #[trigger] acc[j] <= now by {
            if j < acc0.len() {
                assert(acc[j] == acc0[j]);
            }
        }
        assert forall|i: int, j: int| 0 <= i <= j < acc.len() implies acc[i] <= acc[j] by {
            if j < acc0.len() {
                assert(acc[i] == acc0[i]);
                assert(acc[j] == acc0[j]);
            } else if i < acc0.len() {
                assert(acc[i] == acc0[i]);
            }
        }
    }
}

proof fn lemma_run(v: WsReconnectThrottleView, times: Seq<u128>)
    requires
        v.attempts.len() == 0,
        times.len() >= 1,
        nondecreasing(times),
    ensures
        run_inv(v, times),
    decreases times.len(),
{
    if times.len() > 1 {
        let pre = times.drop_last();
        assert forall|i: int, j: int| 0 <= i <= j < pre.len() implies pre[i] <= pre[j] by {
            assert(pre[i] == times[i] && pre[j] == times[j]);
        }
        lemma_run(v, pre);
    }
    lemma_run_step(v, times);
}

/// Over attempts whose times never go backwards, starting from an empty history: the attempt
/// at `times[i]` is refused exactly when the attempts let through before it that lie within
/// the window ending at `times[i]` already number `max_attempts`; a refused attempt is not
/// recorded, an accepted one is. So no window holds more than `max_attempts` accepted
/// attempts, and with `max_attempts == 0` every attempt is refused.
pub proof fn law_reconnects_within_any_window(v: WsReconnectThrottleView, times: Seq<u128>, i: int)
    requires
        v.attempts.len() == 0,
        nondecreasing(times),
        0 <= i < times.len(),
    ensures
        answer_at(v, times, i) == (if count_within(
            accepted(v, times.take(i)),
            times[i],
            v.window_nanos,
        ) >= v.max_attempts {
            Err::<(), ExecAlert>(ExecAlert::WsReconnectThrottled { exchange: v.exchange })
        } else {
            Ok::<(), ExecAlert>(())
        }),
        accepted(v, times.take(i + 1)) == (if answer_at(v, times, i) is Ok {
            accepted(v, times.take(i)).push(times[i])
        } else {
            accepted(v, times.take(i))
        }),
        count_within(accepted(v, times.take(i + 1)), times[i], v.window_nanos) <= v.max_attempts,
{
    let pre = times.take(i);
    let post = times.take(i + 1);
    let now = times[i];
    let w = v.window_nanos;
    assert(post.drop_last() =~= pre);
    assert(post.last() == now);
    let acc0 = accepted(v, pre);
    let p = throttle_after(v, pre);
    if i == 0 {
        assert(pre.len() == 0);
        assert(acc0.len() == 0);
        assert(p == v);
        assert(drop_expired(p.attempts, now, w) == p.attempts);
    } else {
        assert forall|a: int, b: int| 0 <= a <= b < pre.len() implies pre[a] <= pre[b] by {
            assert(pre[a] == times[a] && pre[b] == times[b]);
        }
        lemma_run(v, pre);
        assert(pre.last() == times[i - 1]);
        assert(times[i - 1] <= now);
        let a = p.attempts;
        let q0 = acc0.len() - a.len();
        assert forall|x: int, y: int| 0 <= x <= y < a.len() implies a[x] <= a[y] by {
            assert(a[x] == acc0[q0 + x]);
            assert(a[y] == acc0[q0 + y]);
        }
        assert forall|j: int| 0 <= j < a.len() implies #[trigger] a[j] <= now by {
            assert(a[j] == acc0[q0 + j]);
            assert(acc0[q0 + j] <= pre.last());
        }
        lemma_drop_sorted(a, now, w);
        let kept = drop_expired(a, now, w);
        let m = a.len() - kept.len();
        assert forall|j: int| 0 <= j < q0 + m implies attempt_expired(now, #[trigger] acc0[j], w) by {
            if j < q0 {
                assert(attempt_expired(pre.last(), acc0[j], w));
            } else {
                assert(a[j - q0] == acc0[j]);
            }
        }
        assert forall|j: int| q0 + m <= j < acc0.len() implies !attempt_expired(
            now,
            #[trigger] acc0[j],
            w,
        ) by {
            assert(a[j - q0] == acc0[j]);
        }
        lemma_count_split(acc0, now, w, q0 + m);
    }
    let acc1 = acc0.push(now);
    assert(acc1.drop_last() =~= acc0);
    assert(acc1.last() == now);
    assert(!attempt_expired(now, now, w));
    assert(count_within(acc1, now, w) == count_within(acc0, now, w) + 1);
}

} // verus!
