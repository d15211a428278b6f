//! Properties that hold across the library's operations.
use crate::digest::{hex_char, hex_encoded};
use crate::live::spec_scope_check;
use crate::risk::{
    risk_answer, spec_effective_limits, spec_is_stale, spec_risk_verdict, LocalRiskCache,
    RiskLimits, RiskState, };
use crate::market::ExecAlert;
use crate::throttle::{drop_expired, spec_record_attempt, WsReconnectThrottleView};
use crate::validation::{
    reason_if, run_days_reason, scorecard_reasons, trades_reason, ScorecardThresholds,
    ValidationMetrics,
};
use crate::backtest::{spec_bar_exit, ExitReason, IntrabarAssumption, Side};
use crate::decimal::{num_ge, num_le};
use crate::engine::{curve_view, trades_view};
use crate::json::JsonValue;
use crate::kpis::{kpis_answer, pairs_view};
use crate::backtest::{EquityPoint, KpiBundle, Trade};
use crate::decimal::Dec;
use crate::report::{heat_keys, heat_view, heatmap_fails, heatmap_of};
use crate::runner::texts_sorted;
use crate::simulate::{
    backtest_answer, mismatch_text, spec_close_at, spec_finish, spec_loop, spec_replay, spec_step,
    BacktestRun, RunSetup, RunState,
};
use crate::engine::TradeView;
use crate::report::{heat_fold, month_key, months};
use crate::snapshot::{BacktestConfig, MarketSnapshot};
use crate::text::{lemma_text_lt_irreflexive, lemma_text_lt_transitive};
use vstd::prelude::*;

verus! {

/// The risk guard fails closed: with the kill switch on, every order is refused as a kill
/// switch, whatever the account looks like.
pub proof fn law_kill_switch_refuses_everything(
    limits: RiskLimits,
    state: RiskState,
    answer: Result<(), ExecAlert>,
)
    requires
        limits.kill_switch_active,
        risk_answer(answer, limits, state),
    ensures
        spec_risk_verdict(limits, state) is KillSwitch,
        answer matches Err(ExecAlert::KillSwitchActive),
{
}

/// The guard lets an order through exactly when every limit holds: the kill switch is off,
/// the day's drawdown (where the day started with positive equity) is within the daily loss
/// limit, gross exposure is within the position limit and fewer orders than the cap are open.
pub proof fn law_risk_guard_passes_within_limits(
    limits: RiskLimits,
    state: RiskState,
    answer: Result<(), ExecAlert>,
)
    requires
        crate::risk::risk_check_defined(limits, state),
        risk_answer(answer, limits, state),
    ensures
        answer is Ok <==> {
            &&& !limits.kill_switch_active
            &&& (state.start_of_day_equity@.0 <= 0 || !crate::decimal::num_gt(
                crate::risk::spec_drawdown_pct(state).unwrap(),
                limits.max_daily_loss_pct@,
            ))
            &&& !crate::decimal::num_gt(state.gross_position_pct@, limits.max_position_pct@)
            &&& state.open_orders < limits.max_concurrent_orders
        },
{
}

/// A refill never takes the bucket past its capacity and never takes tokens away; before a
/// whole second has passed it adds nothing.
pub proof fn law_refill_within_capacity(available: u32, capacity: u32, rate: u32, elapsed_secs: u64)
    requires
        available <= capacity,
    ensures
        available <= crate::throttle::spec_refilled(available, capacity, rate, elapsed_secs) <= capacity,
        elapsed_secs == 0 ==> crate::throttle::spec_refilled(available, capacity, rate, elapsed_secs)
            == available,
{
}

/// A risk cache that has gone stale fails closed: the limits in force have the kill switch
/// on, so the guard refuses every order; a fresh cache passes its limits on unchanged.
pub proof fn law_stale_cache_fails_closed(
    cache: LocalRiskCache,
    now: (int, int),
    state: RiskState,
    answer: Result<(), ExecAlert>,
)
    ensures
        spec_is_stale(cache, now) ==> spec_effective_limits(cache, now).kill_switch_active,
        spec_is_stale(cache, now) && risk_answer(answer, spec_effective_limits(cache, now), state)
            ==> answer matches Err(ExecAlert::KillSwitchActive),
        !spec_is_stale(cache, now) ==> spec_effective_limits(cache, now) == cache.limits,
{
}

/// A live key passes the scope check only with the `trade` scope and without `withdraw`.
pub proof fn law_scope_check_trade_only(scope: Seq<Seq<char>>)
    ensures
        spec_scope_check(scope) is Ok <==> (scope.contains("trade"@) && !scope.contains(
            "withdraw"@,
        )),
{
}

/// A positive PnL is not enough: a run shorter than seven days, or with fewer trades than
/// required, fails the scorecard.
pub proof fn law_scorecard_needs_duration_and_trades(t: ScorecardThresholds, m: ValidationMetrics)
    ensures
        m.run_days < 7 || m.trades < t.min_trades ==> scorecard_reasons(t, m).len() > 0,
{
    let a = reason_if(m.run_days < 7, run_days_reason(m));
    let b = reason_if(m.trades < t.min_trades, trades_reason(t, m));
    assert(scorecard_reasons(t, m).len() >= a.len() + b.len());
}

/// Hex text is lower-case: every character is a digit or one of `a` to `f`.
pub proof fn law_hex_is_lower_case(b: Seq<u8>)
    ensures
        forall|i: int|
            0 <= i < hex_encoded(b).len() ==> ('0' <= #[trigger] hex_encoded(b)[i] <= '9') || (
            'a' <= hex_encoded(b)[i] <= 'f'),
    decreases b.len(),
{
    if b.len() > 0 {
        let tail = b.subrange(1, b.len() as int);
        law_hex_is_lower_case(tail);
        let hi = b[0] as int / 16;
        let lo = b[0] as int % 16;
        assert(0 <= hi < 16 && 0 <= lo < 16);
        lemma_hex_char_range(hi);
        lemma_hex_char_range(lo);
        let e = hex_encoded(b);
        assert forall|i: int| 0 <= i < e.len() implies ('0' <= #[trigger] e[i] <= '9') || ('a'
            <= e[i] <= 'f') by {
            if i >= 2 {
                assert(e[i] == hex_encoded(tail)[i - 2]);
            }
        }
    }
}

proof fn lemma_hex_char_range(n: int)
    requires
        0 <= n < 16,
    ensures
        ('0' <= hex_char(n) <= '9') || ('a' <= hex_char(n) <= 'f'),
{
    if n < 10 {
        assert(((n + 48) as char) as int == n + 48);
    } else {
        assert(((n + 87) as char) as int == n + 87);
    }
}

proof fn lemma_drop_expired_len(a: Seq<u128>, now: u128, window: u128)
    ensures
        drop_expired(a, now, window).len() <= a.len(),
    decreases a.len(),
{
    if a.len() > 0 && crate::throttle::attempt_expired(now, a[0], window) {
        lemma_drop_expired_len(a.drop_first(), now, window);
    }
}

/// The reconnect throttle never holds more attempts than it allows within its window, and it
/// refuses an attempt exactly when the window is full.
pub proof fn law_reconnects_stay_within_cap(v: WsReconnectThrottleView, now: u128)
    requires
        v.attempts.len() <= v.max_attempts,
    ensures
        spec_record_attempt(v, now).0.len() <= v.max_attempts,
        spec_record_attempt(v, now).1 is Err <==> drop_expired(
            v.attempts,
            now,
            v.window_nanos,
        ).len() >= v.max_attempts,
{
    lemma_drop_expired_len(v.attempts, now, v.window_nanos);
}

/// Two strictly sorted lists of texts that hold the same texts are the same list.
proof fn lemma_sorted_same_set(a: Seq<Seq<char>>, b: Seq<Seq<char>>)
    requires
        texts_sorted(a),
        texts_sorted(b),
        a.to_set() == b.to_set(),
    ensures
        a == b,
    decreases a.len(),
{
    if a.len() == 0 {
        if b.len() > 0 {
            assert(b.to_set().contains(b[0]));
            assert(a.to_set().contains(b[0]));
        }
        assert(a =~= b);
    } else {
        if b.len() == 0 {
            assert(a.to_set().contains(a[0]));
            assert(b.to_set().contains(a[0]));
        }
        assert(a.to_set().contains(a[0]));
        assert(b.to_set().contains(a[0]));
        let k = choose|k: int| 0 <= k < b.len() && b[k] == a[0];
        assert(b.to_set().contains(b[0]));
        assert(a.to_set().contains(b[0]));
        let m = choose|m: int| 0 <= m < a.len() && a[m] == b[0];
        if a[0] != b[0] {
            assert(k > 0 && m > 0);
            assert(text_lt_at(b, 0, k));
            assert(text_lt_at(a, 0, m));
            lemma_text_lt_transitive(a[0], a[m], a[0]);
            lemma_text_lt_irreflexive(a[0]);
        }
        let a1 = a.drop_first();
        let b1 = b.drop_first();
        assert(texts_sorted(a1)) by {
            assert forall|i: int, j: int| 0 <= i < j < a1.len() implies crate::text::text_lt(
                a1[i],
                a1[j],
            ) by {
                assert(text_lt_at(a, i + 1, j + 1));
            }
        }
        assert(texts_sorted(b1)) by {
            assert forall|i: int, j: int| 0 <= i < j < b1.len() implies crate::text::text_lt(
                b1[i],
                b1[j],
            ) by {
                assert(text_lt_at(b, i + 1, j + 1));
            }
        }
        assert forall|x: Seq<char>| a1.to_set().contains(x) <==> b1.to_set().contains(x) by {
            if a1.to_set().contains(x) {
                let i = choose|i: int| 0 <= i < a1.len() && a1[i] == x;
                assert(text_lt_at(a, 0, i + 1));
                lemma_text_lt_irreflexive(a[0]);
                assert(a.to_set().contains(x));
                assert(b.to_set().contains(x));
                let j = choose|j: int| 0 <= j < b.len() && b[j] == x;
                assert(j != 0);
                assert(b1[j - 1] == x);
            }
            if b1.to_set().contains(x) {
                let i = choose|i: int| 0 <= i < b1.len() && b1[i] == x;
                assert(text_lt_at(b, 0, i + 1));
                lemma_text_lt_irreflexive(b[0]);
                assert(b.to_set().contains(x));
                assert(a.to_set().contains(x));
                let j = choose|j: int| 0 <= j < a.len() && a[j] == x;
                assert(j != 0);
                assert(a1[j - 1] == x);
            }
        }
        assert(a1.to_set() =~= b1.to_set());
        lemma_sorted_same_set(a1, b1);
        assert(a =~= b) by {
            assert forall|i: int| 0 <= i < a.len() implies a[i] == b[i] by {
                if i > 0 {
                    assert(a[i] == a1[i - 1]);
                    assert(b[i] == b1[i - 1]);
                }
            }
        }
    }
}

spec fn text_lt_at(s: Seq<Seq<char>>, i: int, j: int) -> bool {
    crate::text::text_lt(s[i], s[j])
}

/// A list of trades has one heatmap.
proof fn lemma_heatmap_unique(
    trades: Seq<crate::engine::TradeView>,
    h1: Seq<(Seq<char>, (nat, Seq<char>))>,
    h2: Seq<(Seq<char>, (nat, Seq<char>))>,
)
    requires
        heatmap_of(trades, h1),
        heatmap_of(trades, h2),
    ensures
        h1 == h2,
{
    lemma_sorted_same_set(heat_keys(h1), heat_keys(h2));
    assert(heat_keys(h1).len() == h1.len());
    assert(heat_keys(h2).len() == h2.len());
    assert forall|j: int| 0 <= j < h1.len() implies h1[j] == h2[j] by {
        assert(heat_keys(h1)[j] == h1[j].0);
        assert(heat_keys(h2)[j] == h2[j].0);
    }
    assert(h1 =~= h2);
}

/// A list of trades with a heatmap has no month whose sum overflows.
proof fn lemma_heatmap_excludes_failure(
    trades: Seq<crate::engine::TradeView>,
    h: Seq<(Seq<char>, (nat, Seq<char>))>,
)
    requires
        heatmap_of(trades, h),
    ensures
        !heatmap_fails(trades),
{
    if heatmap_fails(trades) {
        let j = choose|j: int|
            0 <= j < trades.len() && crate::report::heat_fold(
                trades,
                #[trigger] crate::report::month_key(trades[j].exit_ts),
            ) is None;
        let key = crate::report::month_key(trades[j].exit_ts);
        assert(crate::report::months(trades)[j] == key);
        assert(crate::report::months(trades).to_set().contains(key));
        assert(heat_keys(h).to_set().contains(key));
        let x = choose|x: int| 0 <= x < heat_keys(h).len() && heat_keys(h)[x] == key;
        assert(h[x].0 == key);
    }
}

/// A backtest is reproducible: the same spec (and canonical text), snapshot and configuration
/// give the same answer, and where the run goes through, the same trades, equity curve,
/// monthly heatmap and spec hash.
pub proof fn law_backtest_reproducible(
    spec: JsonValue,
    canonical_spec: Seq<char>,
    snapshot: MarketSnapshot,
    config: BacktestConfig,
    r1: Result<BacktestRun, String>,
    r2: Result<BacktestRun, String>,
)
    requires
        backtest_answer(spec, canonical_spec, snapshot, config, r1),
        backtest_answer(spec, canonical_spec, snapshot, config, r2),
    ensures
        r1 is Ok <==> r2 is Ok,
        r1 matches Ok(a) ==> r2 matches Ok(b) && trades_view(a.trades@) == trades_view(b.trades@)
            && curve_view(a.equity_curve@) == curve_view(b.equity_curve@) && heat_view(a.heatmap@)
            == heat_view(b.heatmap@) && a.spec_hash@ == b.spec_hash@,
        r1 matches Err(x) ==> r2 matches Err(y) && x@ == y@,
{
    match (r1, r2) {
        (Ok(a), Ok(b)) => {
            lemma_heatmap_unique(trades_view(a.trades@), heat_view(a.heatmap@), heat_view(b.heatmap@));
        },
        (Ok(a), Err(_)) => {
            lemma_heatmap_excludes_failure(trades_view(a.trades@), heat_view(a.heatmap@));
        },
        (Err(_), Ok(b)) => {
            lemma_heatmap_excludes_failure(trades_view(b.trades@), heat_view(b.heatmap@));
        },
        (Err(_), Err(_)) => {},
    }
}

/// A backtest asked for another market data snapshot than the one it is given is refused,
/// naming both.
pub proof fn law_backtest_refuses_other_snapshot(
    spec: JsonValue,
    canonical_spec: Seq<char>,
    snapshot: MarketSnapshot,
    config: BacktestConfig,
    r: Result<BacktestRun, String>,
)
    requires
        backtest_answer(spec, canonical_spec, snapshot, config, r),
        config.data_snapshot_id@ != snapshot.data_snapshot_id@,
    ensures
        r matches Err(m) && m@ == mismatch_text(config, snapshot),
{
}

/// Under the conservative intrabar assumption, a bar that reaches both the stop and the
/// take-profit exits at the stop; under the optimistic one, at the take-profit.
pub proof fn law_intrabar_assumption_decides(
    side: Side,
    high: (int, nat),
    low: (int, nat),
    stop: (int, nat),
    take_profit: (int, nat),
)
    requires
        side == Side::Long ==> num_le(low, stop) && num_ge(high, take_profit),
        side == Side::Short ==> num_ge(high, stop) && num_le(low, take_profit),
    ensures
        spec_bar_exit(side, high, low, stop, take_profit, IntrabarAssumption::Conservative) == Some(
            (stop, ExitReason::StopLoss),
        ),
        spec_bar_exit(side, high, low, stop, take_profit, IntrabarAssumption::Optimistic) == Some(
            (take_profit, ExitReason::TakeProfit),
        ),
{
}

/// Each replayed candle records one point of the equity curve.
proof fn lemma_loop_curve(setup: RunSetup, init: RunState, k: int)
    requires
        init.position is None,
        spec_loop(setup, init, k) is Some,
    ensures
        k >= 1 ==> spec_loop(setup, init, k).unwrap().curve.len() == init.curve.len() + k - 1,
        k <= 1 ==> spec_loop(setup, init, k).unwrap() == init,
    decreases k,
{
    if k > 1 {
        lemma_loop_curve(setup, init, k - 1);
        let st = spec_loop(setup, init, k - 1).unwrap();
        assert(spec_step(setup, st, k - 1) is Some);
    }
}

/// A backtest records the equity once per candle after the first, and ends with no position
/// open.
pub proof fn law_equity_recorded_per_candle(
    spec: JsonValue,
    snapshot: MarketSnapshot,
    config: BacktestConfig,
    fin: RunState,
)
    requires
        spec_replay(spec, snapshot, config) == Ok::<RunState, Seq<char>>(fin),
    ensures
        fin.curve.len() == (if snapshot.candles@.len() >= 1 {
            snapshot.candles@.len() - 1
        } else {
            0
        }),
        fin.position is None,
{
    let c = snapshot.candles@;
    let ind = crate::indicators::spec_build_indicators(spec, c).unwrap();
    let entries = match crate::rules::spec_parse_entries(spec) {
        Ok(es) => es,
        Err(_) => Seq::empty(),
    };
    let setup = RunSetup {
        spec,
        snap: snapshot,
        ind,
        entries,
        exits: crate::rules::spec_parse_exit_rules(spec, crate::simulate::spec_min_rr(spec)),
        symbol: crate::simulate::spec_symbol(spec, snapshot),
    };
    let init = RunState {
        equity: config.initial_equity@,
        peak: config.initial_equity@,
        position: None,
        trades: Seq::empty(),
        curve: Seq::empty(),
    };
    let n = c.len() as int;
    assert(spec_loop(setup, init, n) is Some);
    lemma_loop_curve(setup, init, n);
    let st = spec_loop(setup, init, n).unwrap();
    assert(spec_finish(setup, st) == Some(fin));
    if st.position is Some {
        assert(n >= 2);
    }
}

/// The metrics are reproducible too: the same trades, curve, configuration, snapshot and
/// square-root starting points give the same metrics and the same recorded assumptions.
pub proof fn law_kpis_reproducible(
    config: BacktestConfig,
    snapshot: MarketSnapshot,
    trades: Seq<Trade>,
    curve: Seq<EquityPoint>,
    spec_hash: Seq<char>,
    symbol: Seq<char>,
    sqrt_seeds: (Dec, Dec),
    r1: Option<KpiBundle>,
    r2: Option<KpiBundle>,
)
    requires
        kpis_answer(config, snapshot, trades, curve, spec_hash, symbol, sqrt_seeds, r1),
        kpis_answer(config, snapshot, trades, curve, spec_hash, symbol, sqrt_seeds, r2),
    ensures
        r1 is Some <==> r2 is Some,
        r1 matches Some(a) ==> r2 matches Some(b) && pairs_view(a.metrics@) == pairs_view(
            b.metrics@,
        ) && pairs_view(a.meta.lib_versions@) == pairs_view(b.meta.lib_versions@)
            && a.meta.fee_model@ == b.meta.fee_model@ && a.meta.slippage_model@
            == b.meta.slippage_model@ && a.meta.funding_model@ == b.meta.funding_model@
            && a.meta.contract_spec@ == b.meta.contract_spec@ && a.meta.data_snapshot_id@
            == b.meta.data_snapshot_id@ && a.meta.image_digest@ == b.meta.image_digest@
            && a.meta.seeds@ == b.meta.seeds@ && a.meta.intrabar_assumption
            == b.meta.intrabar_assumption,
{
}

// ---- what a backtest's trades and heatmap hold ----

/// The exit reasons a trade can have.
pub open spec fn valid_exit_reason(r: Seq<char>) -> bool {
    r == "stop_loss"@ || r == "take_profit"@ || r == "delisting"@ || r == "end_of_data"@
}

pub open spec fn exit_reasons_valid(trades: Seq<TradeView>) -> bool {
    forall|i: int| 0 <= i < trades.len() ==> valid_exit_reason(#[trigger] trades[i].exit_reason)
}

proof fn lemma_close_at_appends(
    setup: RunSetup,
    equity: (int, nat),
    trades: Seq<TradeView>,
    pos: crate::engine::PositionView,
    bar: crate::snapshot::Candle,
    price: (int, nat),
    reason: Seq<char>,
)
    requires
        exit_reasons_valid(trades),
        valid_exit_reason(reason),
        spec_close_at(setup, equity, trades, pos, bar, price, reason) is Some,
    ensures
        exit_reasons_valid(spec_close_at(setup, equity, trades, pos, bar, price, reason).unwrap().1),
{
    let out = spec_close_at(setup, equity, trades, pos, bar, price, reason).unwrap().1;
    assert(out.len() == trades.len() + 1);
    assert forall|i: int| 0 <= i < out.len() implies valid_exit_reason(#[trigger] out[i].exit_reason) by {
        if i < trades.len() {
            assert(out[i] == trades[i]);
        }
    }
}

proof fn lemma_step_keeps_reasons(setup: RunSetup, st: RunState, i: int)
    requires
        exit_reasons_valid(st.trades),
        spec_step(setup, st, i) is Some,
    ensures
        exit_reasons_valid(spec_step(setup, st, i).unwrap().trades),
{
    let c = setup.snap.candles@;
    let bar = c[i];
    if bar.delisted {
        if let Some(p) = st.position {
            lemma_close_at_appends(setup, st.equity, st.trades, p, bar, bar.close@, "delisting"@);
        }
    } else {
        if let Some(p) = st.position {
            if let Some(p2) = crate::engine::spec_apply_trailing(
                p,
                c,
                setup.ind,
                i,
                setup.snap.contract.tick_size@,
            ) {
                if let Some((price, why)) = spec_bar_exit(
                    p2.side,
                    bar.high@,
                    bar.low@,
                    p2.stop_price,
                    p2.take_profit_price,
                    setup.snap.slippage.intrabar,
                ) {
                    let reason = crate::simulate::reason_text(why);
                    if spec_close_at(setup, st.equity, st.trades, p2, bar, price, reason) is Some {
                        lemma_close_at_appends(setup, st.equity, st.trades, p2, bar, price, reason);
                    }
                }
            }
        }
    }
}

proof fn lemma_loop_keeps_reasons(setup: RunSetup, init: RunState, k: int)
    requires
        exit_reasons_valid(init.trades),
        spec_loop(setup, init, k) is Some,
    ensures
        exit_reasons_valid(spec_loop(setup, init, k).unwrap().trades),
    decreases k,
{
    if k > 1 {
        lemma_loop_keeps_reasons(setup, init, k - 1);
        let st = spec_loop(setup, init, k - 1).unwrap();
        lemma_step_keeps_reasons(setup, st, k - 1);
    }
}

/// The trades of a month, by how the trades are kept in order.
pub open spec fn month_count(trades: Seq<TradeView>, key: Seq<char>) -> nat
    decreases trades.len(),
{
    if trades.len() == 0 {
        0
    } else {
        month_count(trades.drop_last(), key) + if month_key(trades.last().exit_ts) == key {
            1nat
        } else {
            0nat
        }
    }
}

/// The trades a heatmap counts over all its months.
pub open spec fn heat_total(h: Seq<(Seq<char>, (nat, Seq<char>))>) -> nat
    decreases h.len(),
{
    if h.len() == 0 {
        0
    } else {
        heat_total(h.drop_last()) + h.last().1.0
    }
}

spec fn counts_over(trades: Seq<TradeView>, keys: Seq<Seq<char>>) -> nat
    decreases keys.len(),
{
    if keys.len() == 0 {
        0
    } else {
        counts_over(trades, keys.drop_last()) + month_count(trades, keys.last())
    }
}

spec fn hits(keys: Seq<Seq<char>>, k: Seq<char>) -> nat
    decreases keys.len(),
{
    if keys.len() == 0 {
        0
    } else {
        hits(keys.drop_last(), k) + if keys.last() == k {
            1nat
        } else {
            0nat
        }
    }
}

proof fn lemma_heat_fold_counts(trades: Seq<TradeView>, key: Seq<char>)
    requires
        heat_fold(trades, key) is Some,
    ensures
        heat_fold(trades, key).unwrap().0 == month_count(trades, key),
    decreases trades.len(),
{
    if trades.len() > 0 {
        lemma_heat_fold_counts(trades.drop_last(), key);
    }
}

proof fn lemma_counts_over_empty(trades: Seq<TradeView>, keys: Seq<Seq<char>>)
    requires
        trades.len() == 0,
    ensures
        counts_over(trades, keys) == 0,
    decreases keys.len(),
{
    if keys.len() > 0 {
        lemma_counts_over_empty(trades, keys.drop_last());
    }
}

proof fn lemma_counts_over_step(trades: Seq<TradeView>, keys: Seq<Seq<char>>)
    requires
        trades.len() > 0,
    ensures
        counts_over(trades, keys) == counts_over(trades.drop_last(), keys) + hits(
            keys,
            month_key(trades.last().exit_ts),
        ),
    decreases keys.len(),
{
    if keys.len() > 0 {
        lemma_counts_over_step(trades, keys.drop_last());
    }
}

proof fn lemma_hits_absent(keys: Seq<Seq<char>>, k: Seq<char>)
    requires
        !keys.contains(k),
    ensures
        hits(keys, k) == 0,
    decreases keys.len(),
{
    if keys.len() > 0 {
        assert(!keys.drop_last().contains(k)) by {
            if keys.drop_last().contains(k) {
                let j = choose|j: int| 0 <= j < keys.drop_last().len() && keys.drop_last()[j] == k;
                assert(keys[j] == k);
            }
        }
        assert(keys.last() == keys[keys.len() - 1]);
        lemma_hits_absent(keys.drop_last(), k);
    }
}

proof fn lemma_hits_once(keys: Seq<Seq<char>>, k: Seq<char>)
    requires
        texts_sorted(keys),
        keys.contains(k),
    ensures
        hits(keys, k) == 1,
    decreases keys.len(),
{
    let last = keys.len() - 1;
    assert(texts_sorted(keys.drop_last()));
    if keys[last] == k {
        assert(!keys.drop_last().contains(k)) by {
            if keys.drop_last().contains(k) {
                let j = choose|j: int| 0 <= j < keys.drop_last().len() && keys.drop_last()[j] == k;
                assert(crate::text::text_lt(keys[j], keys[last]));
                lemma_text_lt_irreflexive(k);
            }
        }
        lemma_hits_absent(keys.drop_last(), k);
    } else {
        let j = choose|j: int| 0 <= j < keys.len() && keys[j] == k;
        assert(keys.drop_last()[j] == k);
        lemma_hits_once(keys.drop_last(), k);
    }
}

proof fn lemma_counts_over_all(trades: Seq<TradeView>, keys: Seq<Seq<char>>)
    requires
        texts_sorted(keys),
        months(trades).to_set().subset_of(keys.to_set()),
    ensures
        counts_over(trades, keys) == trades.len(),
    decreases trades.len(),
{
    if trades.len() == 0 {
        lemma_counts_over_empty(trades, keys);
    } else {
        let rest = trades.drop_last();
        assert forall|x: Seq<char>| months(rest).to_set().contains(x) implies keys.to_set().contains(
            x,
        ) by {
            let j = choose|j: int| 0 <= j < months(rest).len() && months(rest)[j] == x;
            assert(months(trades)[j] == x);
            assert(months(trades).to_set().contains(x));
        }
        lemma_counts_over_all(rest, keys);
        lemma_counts_over_step(trades, keys);
        let k = month_key(trades.last().exit_ts);
        assert(months(trades)[trades.len() - 1] == k);
        assert(months(trades).to_set().contains(k));
        assert(keys.to_set().contains(k));
        lemma_hits_once(keys, k);
    }
}

proof fn lemma_heat_total_counts(trades: Seq<TradeView>, h: Seq<(Seq<char>, (nat, Seq<char>))>)
    requires
        forall|j: int| 0 <= j < h.len() ==> heat_fold(trades, #[trigger] h[j].0) == Some(h[j].1),
    ensures
        heat_total(h) == counts_over(trades, heat_keys(h)),
    decreases h.len(),
{
    if h.len() > 0 {
        let init = h.drop_last();
        assert forall|j: int| 0 <= j < init.len() implies heat_fold(trades, #[trigger] init[j].0)
            == Some(init[j].1) by {
            assert(init[j] == h[j]);
        }
        lemma_heat_total_counts(trades, init);
        assert(heat_keys(init) =~= heat_keys(h).drop_last());
        let last = h.len() - 1;
        assert(heat_fold(trades, h[last].0) == Some(h[last].1));
        lemma_heat_fold_counts(trades, h[last].0);
        assert(heat_keys(h).last() == h.last().0);
    }
}

/// A backtest's monthly heatmap counts every trade once: the trades over all its months add
/// up to the number of trades. Every trade exits at its stop, its take-profit, on a delisting
/// or at the end of the data.
pub proof fn law_backtest_heatmap_and_exit_reasons(
    spec: JsonValue,
    canonical_spec: Seq<char>,
    snapshot: MarketSnapshot,
    config: BacktestConfig,
    run: BacktestRun,
)
    requires
        backtest_answer(spec, canonical_spec, snapshot, config, Ok(run)),
    ensures
        heat_total(heat_view(run.heatmap@)) == run.trades@.len(),
        exit_reasons_valid(trades_view(run.trades@)),
{
    let trades = trades_view(run.trades@);
    let h = heat_view(run.heatmap@);
    lemma_heat_total_counts(trades, h);
    assert(months(trades).to_set().subset_of(heat_keys(h).to_set()));
    lemma_counts_over_all(trades, heat_keys(h));
    let fin = spec_replay(spec, snapshot, config)->Ok_0;
    law_exit_reasons_of_replay(spec, snapshot, config, fin);
}

/// Every trade of a replay exits at its stop, its take-profit, on a delisting or at the end of
/// the data.
pub proof fn law_exit_reasons_of_replay(
    spec: JsonValue,
    snapshot: MarketSnapshot,
    config: BacktestConfig,
    fin: RunState,
)
    requires
        spec_replay(spec, snapshot, config) == Ok::<RunState, Seq<char>>(fin),
    ensures
        exit_reasons_valid(fin.trades),
{
    let c = snapshot.candles@;
    let ind = crate::indicators::spec_build_indicators(spec, c).unwrap();
    let entries = match crate::rules::spec_parse_entries(spec) {
        Ok(es) => es,
        Err(_) => Seq::empty(),
    };
    let setup = RunSetup {
        spec,
        snap: snapshot,
        ind,
        entries,
        exits: crate::rules::spec_parse_exit_rules(spec, crate::simulate::spec_min_rr(spec)),
        symbol: crate::simulate::spec_symbol(spec, snapshot),
    };
    let init = RunState {
        equity: config.initial_equity@,
        peak: config.initial_equity@,
        position: None,
        trades: Seq::empty(),
        curve: Seq::empty(),
    };
    let n = c.len() as int;
    assert(spec_loop(setup, init, n) is Some);
    lemma_loop_keeps_reasons(setup, init, n);
    let st = spec_loop(setup, init, n).unwrap();
    assert(spec_finish(setup, st) == Some(fin));
    if let Some(p) = st.position {
        let last = c[c.len() - 1];
        lemma_close_at_appends(setup, st.equity, st.trades, p, last, last.close@, "end_of_data"@);
    }
}

} // verus!
