//! The backtest replay: candle by candle, an open position trails, stops out or takes profit;
//! without one, the first entry whose condition holds opens one; the equity is recorded at
//! every candle. What is still open at the end closes at the last close.
use crate::backtest::{
    bar_exit, execution_price, spec_bar_exit, spec_eval, spec_execution_price, EquityPoint,
    ExitReason, HeatmapCell, Side, Trade,
};
use crate::decimal::Dec;
use crate::digest::{hex_encoded, sha256_digest};
use crate::engine::{
    apply_trailing_stop, close_position, curve_view, open_position, opt_opt_position,
    push_equity, spec_apply_trailing, spec_close, spec_open_position, spec_push_equity,
    trades_view, PointView, Position, PositionView, TradeView,
};
use crate::indicators::{
    build_indicator_series, lemma_built_fits, spec_build_indicators, IndicatorSeries,
    IndicatorsView,
};
use crate::json::{parse_decimal_path, json_decimal, json_get, json_items, json_path, json_text, member_items, JsonValue};
use crate::report::{build_heatmap, heat_view, heatmap_fails, heatmap_of};
use crate::rules::{
    entries_view, parse_entries, parse_exit_rules, spec_parse_entries, spec_parse_exit_rules,
    EntryRule, EntryView, ExitRules, ExitRulesView,
};
use crate::signals::{eval_context, fits, spec_eval_context};
use crate::snapshot::{BacktestConfig, Candle, MarketSnapshot};
use crate::strategy_spec::canonical_hash;
use crate::text::{concat, str_eq};
use vstd::prelude::*;
use vstd::utf8::encode_utf8;

verus! {

/// What stays fixed through a replay.
pub struct RunSetup {
    pub spec: JsonValue,
    pub snap: MarketSnapshot,
    pub ind: IndicatorsView,
    pub entries: Seq<EntryView>,
    pub exits: ExitRulesView,
    pub symbol: Seq<char>,
}

/// The state of a replay between candles.
pub struct RunState {
    pub equity: (int, nat),
    pub peak: (int, nat),
    pub position: Option<PositionView>,
    pub trades: Seq<TradeView>,
    pub curve: Seq<PointView>,
}

pub open spec fn opt_position(p: Option<Position>) -> Option<PositionView> {
    match p {
        Some(x) => Some(x@),
        None => None,
    }
}

pub open spec fn reason_text(why: ExitReason) -> Seq<char> {
    match why {
        ExitReason::StopLoss => "stop_loss"@,
        ExitReason::TakeProfit => "take_profit"@,
    }
}

/// The position the entries open at candle `i`, trying them from the `k`-th on: the first
/// whose condition holds and that yields a position.
pub open spec fn first_entry_from(
    setup: RunSetup,
    ctx: Seq<(Seq<char>, bool)>,
    i: int,
    equity: (int, nat),
    k: int,
) -> Option<Option<PositionView>>
    decreases setup.entries.len() - k,
{
    if k < 0 || k >= setup.entries.len() {
        Some(None)
    } else if !spec_eval(setup.entries[k].when, ctx) {
        first_entry_from(setup, ctx, i, equity, k + 1)
    } else {
        match spec_open_position(
            setup.entries[k],
            setup.exits,
            setup.snap.candles@,
            setup.ind,
            i,
            equity,
            setup.snap,
        ) {
            None => None,
            Some(Some(p)) => Some(Some(p)),
            Some(None) => first_entry_from(setup, ctx, i, equity, k + 1),
        }
    }
}

/// Closing at a price already adjusted for slippage the way out (a sale for a long).
pub open spec fn spec_close_at(
    setup: RunSetup,
    equity: (int, nat),
    trades: Seq<TradeView>,
    pos: PositionView,
    bar: Candle,
    price: (int, nat),
    reason: Seq<char>,
) -> Option<((int, nat), Seq<TradeView>)> {
    match spec_execution_price(price, setup.snap.slippage.bps@, !(pos.side == Side::Long)) {
        None => None,
        Some(xp) => match spec_close(
            equity,
            pos,
            bar.ts@,
            xp,
            reason,
            setup.symbol,
            setup.snap.fees.taker_bps@,
        ) {
            None => None,
            Some((e2, t)) => Some((e2, trades.push(t))),
        },
    }
}

/// One candle of the replay.
pub open spec fn spec_step(setup: RunSetup, st: RunState, i: int) -> Option<RunState> {
    let c = setup.snap.candles@;
    let bar = c[i];
    if bar.delisted {
        let closed = match st.position {
            None => Some((st.equity, st.trades)),
            Some(p) => spec_close_at(setup, st.equity, st.trades, p, bar, bar.close@, "delisting"@),
        };
        match closed {
            None => None,
            Some((e2, trades)) => match spec_push_equity(bar.ts@, e2, st.peak) {
                None => None,
                Some((pk, pt)) => Some(
                    RunState {
                        equity: e2,
                        peak: pk,
                        position: None,
                        trades,
                        curve: st.curve.push(pt),
                    },
                ),
            },
        }
    } else {
        let managed = match st.position {
            None => Some((st.equity, None::<PositionView>, st.trades)),
            Some(p) => match spec_apply_trailing(
                p,
                c,
                setup.ind,
                i,
                setup.snap.contract.tick_size@,
            ) {
                None => None,
                Some(p2) => match spec_bar_exit(
                    p2.side,
                    bar.high@,
                    bar.low@,
                    p2.stop_price,
                    p2.take_profit_price,
                    setup.snap.slippage.intrabar,
                ) {
                    None => Some((st.equity, Some(p2), st.trades)),
                    Some((price, why)) => match spec_close_at(
                        setup,
                        st.equity,
                        st.trades,
                        p2,
                        bar,
                        price,
                        reason_text(why),
                    ) {
                        None => None,
                        Some((e2, trades)) => Some((e2, None::<PositionView>, trades)),
                    },
                },
            },
        };
        match managed {
            None => None,
            Some((e2, pos2, trades)) => {
                let opened = if pos2 is None {
                    match spec_eval_context(setup.spec, c, setup.ind, i) {
                        None => None,
                        Some(ctx) => first_entry_from(setup, ctx, i, e2, 0),
                    }
                } else {
                    Some(pos2)
                };
                match opened {
                    None => None,
                    Some(pos3) => match spec_push_equity(bar.ts@, e2, st.peak) {
                        None => None,
                        Some((pk, pt)) => Some(
                            RunState {
                                equity: e2,
                                peak: pk,
                                position: pos3,
                                trades,
                                curve: st.curve.push(pt),
                            },
                        ),
                    },
                }
            },
        }
    }
}

/// The state after the candles `1..k` (the first candle only seeds the indicators).
pub open spec fn spec_loop(setup: RunSetup, init: RunState, k: int) -> Option<RunState>
    decreases k,
{
    if k <= 1 {
        Some(init)
    } else {
        match spec_loop(setup, init, k - 1) {
            Some(st) => spec_step(setup, st, k - 1),
            None => None,
        }
    }
}

/// The curve without its last point (unchanged when empty).
pub open spec fn pop_last(s: Seq<PointView>) -> Seq<PointView> {
    if s.len() == 0 {
        s
    } else {
        s.drop_last()
    }
}

/// The end of the replay: a position still open closes at the last close, and the last
/// point of the curve is recorded again with the result.
pub open spec fn spec_finish(setup: RunSetup, st: RunState) -> Option<RunState> {
    let c = setup.snap.candles@;
    match st.position {
        None => Some(st),
        Some(p) => {
            let last = c[c.len() - 1];
            match spec_close_at(setup, st.equity, st.trades, p, last, last.close@, "end_of_data"@) {
                None => None,
                Some((e2, trades)) => match spec_push_equity(last.ts@, e2, st.peak) {
                    None => None,
                    Some((pk, pt)) => Some(
                        RunState {
                            equity: e2,
                            peak: pk,
                            position: None,
                            trades,
                            curve: pop_last(st.curve).push(pt),
                        },
                    ),
                },
            }
        },
    }
}

/// The replay's mutable state.
pub struct RunVars {
    pub equity: Dec,
    pub peak: Dec,
    pub position: Option<Position>,
    pub trades: Vec<Trade>,
    pub curve: Vec<EquityPoint>,
}

impl View for RunVars {
    type V = RunState;

    open spec fn view(&self) -> RunState {
        RunState {
            equity: self.equity@,
            peak: self.peak@,
            position: opt_position(self.position),
            trades: trades_view(self.trades@),
            curve: curve_view(self.curve@),
        }
    }
}

proof fn lemma_trades_push(v: Seq<Trade>, w: Seq<Trade>)
    requires
        w.len() == v.len() + 1,
        w.drop_last() == v,
    ensures
        trades_view(w) == trades_view(v).push(crate::engine::trade_view(w.last())),
{
    assert(trades_view(w) =~= trades_view(v).push(crate::engine::trade_view(w.last())));
}

proof fn lemma_curve_push(v: Seq<EquityPoint>, w: Seq<EquityPoint>)
    requires
        w.len() == v.len() + 1,
        w.drop_last() == v,
    ensures
        curve_view(w) == curve_view(v).push(crate::engine::point_view(w.last())),
{
    assert(curve_view(w) =~= curve_view(v).push(crate::engine::point_view(w.last())));
}

/// Closes `pos` at `price` (adjusted for slippage the way out), with `reason`.
fn close_at(
    vars: &mut RunVars,
    symbol: &str,
    pos: Position,
    bar: &Candle,
    price: Dec,
    reason: &str,
    snapshot: &MarketSnapshot,
    setup: Ghost<RunSetup>,
) -> (ok: bool)
    requires
        setup@.symbol == symbol@,
        setup@.snap == *snapshot,
    ensures
        ok ==> spec_close_at(
            setup@,
            old(vars).equity@,
            trades_view(old(vars).trades@),
            pos@,
            *bar,
            price@,
            reason@,
        ) == Some((final(vars).equity@, trades_view(final(vars).trades@))),
        !ok ==> spec_close_at(
            setup@,
            old(vars).equity@,
            trades_view(old(vars).trades@),
            pos@,
            *bar,
            price@,
            reason@,
        ) is None,
        final(vars).peak == old(vars).peak,
        final(vars).curve@ == old(vars).curve@,
        final(vars).position == old(vars).position,
{
    let exit_buy = !pos.side.is_long();
    let xp = match execution_price(price, snapshot.slippage.bps, exit_buy) {
        Some(p) => p,
        None => {
            return false;
        },
    };
    let ghost before = vars.trades@;
    let ok = close_position(
        &mut vars.equity,
        &mut vars.trades,
        symbol,
        pos,
        bar,
        xp,
        reason,
        snapshot,
    );
    if ok {
        proof {
            lemma_trades_push(before, vars.trades@);
        }
    }
    ok
}

/// The setup a replay runs with.
pub open spec fn setup_matches(
    setup: RunSetup,
    spec: JsonValue,
    snapshot: MarketSnapshot,
    ind: IndicatorSeries,
    entries: Seq<EntryRule>,
    exits: ExitRules,
    symbol: Seq<char>,
) -> bool {
    &&& setup.spec == spec
    &&& setup.snap == snapshot
    &&& setup.ind == ind@
    &&& setup.entries == entries_view(entries)
    &&& setup.exits == exits@
    &&& setup.symbol == symbol
    &&& fits(ind@, snapshot.candles@.len())
}

fn first_entry(
    entries: &Vec<EntryRule>,
    ctx: &Vec<(String, bool)>,
    exits: &ExitRules,
    ind: &IndicatorSeries,
    i: usize,
    equity: Dec,
    snapshot: &MarketSnapshot,
    setup: Ghost<RunSetup>,
) -> (r: Option<Option<Position>>)
    requires
        i < snapshot.candles@.len(),
        setup@.entries == entries_view(entries@),
        setup@.exits == exits@,
        setup@.snap == *snapshot,
        setup@.ind == ind@,
    ensures
        opt_opt_position(r) == first_entry_from(
            setup@,
            crate::backtest::context_view(ctx@),
            i as int,
            equity@,
            0,
        ),
{
    let ghost cv = crate::backtest::context_view(ctx@);
    let candles = snapshot.candles.as_slice();
    let mut k: usize = 0;
    while k < entries.len()
        invariant
            k <= entries@.len(),
            i < snapshot.candles@.len(),
            candles@ == snapshot.candles@,
            setup@.entries == entries_view(entries@),
            setup@.exits == exits@,
            setup@.snap == *snapshot,
            setup@.ind == ind@,
            cv == crate::backtest::context_view(ctx@),
            first_entry_from(setup@, cv, i as int, equity@, 0) == first_entry_from(
                setup@,
                cv,
                i as int,
                equity@,
                k as int,
            ),
        decreases entries.len() - k,
    {
        let entry = &entries[k];
        assert(setup@.entries[k as int] == entry@);
        if entry.when.eval(ctx) {
            match open_position(entry, exits, candles, ind, i, equity, snapshot) {
                None => {
                    return None;
                },
                Some(Some(p)) => {
                    return Some(Some(p));
                },
                Some(None) => {},
            }
        }
        k = k + 1;
    }
    Some(None)
}

/// Replays candle `i`.
fn step(
    vars: &mut RunVars,
    spec: &JsonValue,
    snapshot: &MarketSnapshot,
    ind: &IndicatorSeries,
    entries: &Vec<EntryRule>,
    exits: &ExitRules,
    symbol: &str,
    i: usize,
    setup: Ghost<RunSetup>,
) -> (ok: bool)
    requires
        1 <= i < snapshot.candles@.len(),
        setup_matches(setup@, *spec, *snapshot, *ind, entries@, *exits, symbol@),
    ensures
        ok ==> spec_step(setup@, old(vars)@, i as int) == Some(final(vars)@),
        !ok ==> spec_step(setup@, old(vars)@, i as int) is None,
{
    let candles = snapshot.candles.as_slice();
    let c = &candles[i];
    let ghost st = vars@;
    if c.delisted {
        let pos = vars.position.take();
        match pos {
            Some(p) => {
                if !close_at(vars, symbol, p, c, c.close, "delisting", snapshot, setup) {
                    return false;
                }
            },
            None => {},
        }
        let ghost before = vars.curve@;
        let equity = vars.equity;
        let ok = push_equity(&mut vars.curve, c, equity, &mut vars.peak);
        if ok {
            proof {
                lemma_curve_push(before, vars.curve@);
            }
        }
        return ok;
    }
    let pos = vars.position.take();
    match pos {
        None => {},
        Some(mut p) => {
            if !apply_trailing_stop(&mut p, candles, ind, i, snapshot.contract.tick_size) {
                return false;
            }
            match bar_exit(
                p.side,
                c.high,
                c.low,
                p.stop_price,
                p.take_profit_price,
                snapshot.slippage.intrabar,
            ) {
                None => {
                    vars.position = Some(p);
                },
                Some((price, why)) => {
                    if !close_at(vars, symbol, p, c, price, why.as_str(), snapshot, setup) {
                        return false;
                    }
                },
            }
        },
    }
    if vars.position.is_none() {
        let ctx = match eval_context(spec, candles, ind, i) {
            Some(x) => x,
            None => {
                return false;
            },
        };
        let equity = vars.equity;
        match first_entry(entries, &ctx, exits, ind, i, equity, snapshot, setup) {
            None => {
                return false;
            },
            Some(p) => {
                vars.position = p;
            },
        }
    }
    let ghost before = vars.curve@;
    let equity = vars.equity;
    let ok = push_equity(&mut vars.curve, c, equity, &mut vars.peak);
    if ok {
        proof {
            lemma_curve_push(before, vars.curve@);
        }
    }
    ok
}

proof fn lemma_loop_none(setup: RunSetup, init: RunState, k: int, m: int)
    requires
        k <= m,
        spec_loop(setup, init, k) is None,
    ensures
        spec_loop(setup, init, m) is None,
    decreases m - k,
{
    if k < m {
        lemma_loop_none(setup, init, k, m - 1);
    }
}

/// The symbol a run books its trades under: the spec's first symbol, else the snapshot's.
pub open spec fn spec_symbol(spec: JsonValue, snap: MarketSnapshot) -> Seq<char> {
    let xs = json_items(json_get(spec, "symbols"@));
    if xs.len() > 0 && json_text(Some(xs[0])) is Some {
        json_text(Some(xs[0])).unwrap()
    } else {
        snap.symbol@
    }
}

/// The smallest reward-to-risk of the spec (3 unless it says otherwise).
pub open spec fn spec_min_rr(spec: JsonValue) -> (int, nat) {
    match json_decimal(json_path(spec, seq!["risk"@, "min_rr"@])) {
        Some(d) => d,
        None => (3int, 0nat),
    }
}

/// The refusal of a run on another snapshot than the one asked for.
pub open spec fn mismatch_text(config: BacktestConfig, snap: MarketSnapshot) -> Seq<char> {
    "requested data_snapshot_id "@ + config.data_snapshot_id@ + " does not match snapshot "@
        + snap.data_snapshot_id@
}

/// The refusal of a run whose decimal arithmetic overflows.
pub open spec fn overflow_text() -> Seq<char> {
    "decimal arithmetic overflowed"@
}

/// The replay of a spec over a snapshot, up to the final state (no position open): refused
/// for another snapshot than the configured one, for unreadable entries, or where the
/// arithmetic overflows.
pub open spec fn spec_replay(spec: JsonValue, snap: MarketSnapshot, config: BacktestConfig) -> Result<
    RunState,
    Seq<char>,
> {
    let c = snap.candles@;
    if config.data_snapshot_id@ != snap.data_snapshot_id@ {
        Err(mismatch_text(config, snap))
    } else {
        match spec_build_indicators(spec, c) {
            None => Err(overflow_text()),
            Some(ind) => match spec_parse_entries(spec) {
                Err(m) => Err(m),
                Ok(entries) => {
                    let setup = RunSetup {
                        spec,
                        snap,
                        ind,
                        entries,
                        exits: spec_parse_exit_rules(spec, spec_min_rr(spec)),
                        symbol: spec_symbol(spec, snap),
                    };
                    let init = RunState {
                        equity: config.initial_equity@,
                        peak: config.initial_equity@,
                        position: None,
                        trades: Seq::empty(),
                        curve: Seq::empty(),
                    };
                    match spec_loop(setup, init, c.len() as int) {
                        None => Err(overflow_text()),
                        Some(st) => match spec_finish(setup, st) {
                            None => Err(overflow_text()),
                            Some(fin) => Ok(fin),
                        },
                    }
                },
            },
        }
    }
}

/// What the replay gives once the candles have been played.
pub open spec fn replay_end(setup: RunSetup, st: Option<RunState>) -> Result<RunState, Seq<char>> {
    match st {
        None => Err(overflow_text()),
        Some(s) => match spec_finish(setup, s) {
            None => Err(overflow_text()),
            Some(fin) => Ok(fin),
        },
    }
}

/// What `run_backtest` answers: the replay's trades and curve with their heatmap, under the
/// hash of the canonical spec; or the replay's refusal, or an overflow of the heatmap.
pub open spec fn backtest_answer(
    spec: JsonValue,
    canonical_spec: Seq<char>,
    snapshot: MarketSnapshot,
    config: BacktestConfig,
    r: Result<BacktestRun, String>,
) -> bool {
    match r {
        Ok(run) => {
            &&& spec_replay(spec, snapshot, config) matches Ok(fin) && fin.trades == trades_view(
                run.trades@,
            ) && fin.curve == curve_view(run.equity_curve@)
            &&& heatmap_of(trades_view(run.trades@), heat_view(run.heatmap@))
            &&& run.spec_hash@ == hex_encoded(sha256_digest(encode_utf8(canonical_spec)))
            &&& run.data_snapshot_id@ == snapshot.data_snapshot_id@
            &&& run.symbol@ == spec_symbol(spec, snapshot)
        },
        Err(m) => spec_replay(spec, snapshot, config) == Err::<RunState, Seq<char>>(m@) || (spec_replay(
            spec,
            snapshot,
            config,
        ) matches Ok(fin) && heatmap_fails(fin.trades) && m@ == overflow_text()),
    }
}

/// A backtest's trades, equity curve and monthly heatmap, before its metrics.
#[derive(Debug)]
pub struct BacktestRun {
    pub spec_hash: String,
    pub data_snapshot_id: String,
    pub symbol: String,
    pub equity_curve: Vec<EquityPoint>,
    pub heatmap: Vec<(String, HeatmapCell)>,
    pub trades: Vec<Trade>,
}

proof fn lemma_curve_pop(v: Seq<EquityPoint>)
    ensures
        curve_view(if v.len() == 0 {
            v
        } else {
            v.drop_last()
        }) == pop_last(curve_view(v)),
{
    if v.len() > 0 {
        assert(curve_view(v.drop_last()) =~= curve_view(v).drop_last());
    }
}

/// Replays a Strategy Spec over a market snapshot. `canonical_spec` is the spec's canonical
/// JSON text, whose SHA-256 identifies the run.
pub fn run_backtest(
    spec: &JsonValue,
    canonical_spec: &str,
    snapshot: &MarketSnapshot,
    config: &BacktestConfig,
) -> (r: Result<BacktestRun, String>)
    ensures
        backtest_answer(*spec, canonical_spec@, *snapshot, *config, r),
{
    proof {
        reveal_strlit("decimal arithmetic overflowed");
    }
    if !str_eq(config.data_snapshot_id.as_str(), snapshot.data_snapshot_id.as_str()) {
        let m = concat(
            concat(
                concat("requested data_snapshot_id ", config.data_snapshot_id.as_str()).as_str(),
                " does not match snapshot ",
            ).as_str(),
            snapshot.data_snapshot_id.as_str(),
        );
        proof {
            reveal_strlit("requested data_snapshot_id ");
            reveal_strlit(" does not match snapshot ");
        }
        return Err(m);
    }
    let candles = snapshot.candles.as_slice();
    let symbols = member_items(spec, "symbols");
    let symbol = if symbols.len() > 0 {
        match symbols[0].as_str() {
            Some(s) => s.to_string(),
            None => snapshot.symbol.clone(),
        }
    } else {
        snapshot.symbol.clone()
    };
    let rr_path: [&str; 2] = ["risk", "min_rr"];
    let min_rr = parse_decimal_path(spec, &rr_path);
    assert(rr_path@.map_values(|k: &str| k@) =~= seq!["risk"@, "min_rr"@]);
    let min_rr = match min_rr {
        Some(d) => d,
        None => Dec::new(3, 0),
    };
    let ind = match build_indicator_series(spec, candles) {
        Some(x) => x,
        None => {
            return Err("decimal arithmetic overflowed".to_string());
        },
    };
    proof {
        lemma_built_fits(*spec, candles@);
    }
    let entries = match parse_entries(spec) {
        Ok(e) => e,
        Err(m) => {
            return Err(m);
        },
    };
    let exits = parse_exit_rules(spec, min_rr);
    let ghost setup = RunSetup {
        spec: *spec,
        snap: *snapshot,
        ind: ind@,
        entries: entries_view(entries@),
        exits: exits@,
        symbol: symbol@,
    };
    let mut vars = RunVars {
        equity: config.initial_equity,
        peak: config.initial_equity,
        position: None,
        trades: Vec::new(),
        curve: Vec::new(),
    };
    let ghost init = vars@;
    assert(init.trades =~= Seq::<TradeView>::empty());
    assert(init.curve =~= Seq::<PointView>::empty());
    let n = candles.len();
    assert(spec_replay(*spec, *snapshot, *config) == replay_end(
        setup,
        spec_loop(setup, init, n as int),
    ));
    let mut i: usize = 1;
    while i < n
        invariant
            spec_replay(*spec, *snapshot, *config) == replay_end(
                setup,
                spec_loop(setup, init, n as int),
            ),
            1 <= i,
            n == snapshot.candles@.len(),
            n >= 1 ==> i <= n,
            n == 0 ==> i == 1,
            i <= 1 ==> vars.position is None,
            setup_matches(setup, *spec, *snapshot, ind, entries@, exits, symbol@),
            spec_loop(setup, init, i as int) == Some(vars@),
        decreases n - i,
    {
        if !step(&mut vars, spec, snapshot, &ind, &entries, &exits, symbol.as_str(), i, Ghost(setup)) {
            proof {
                lemma_loop_none(setup, init, i + 1, n as int);
            }
            return Err("decimal arithmetic overflowed".to_string());
        }
        i = i + 1;
    }
    assert(spec_loop(setup, init, n as int) == Some(vars@));
    let ghost st = vars@;
    let pos = vars.position.take();
    match pos {
        None => {},
        Some(p) => {
            let last = &candles[n - 1];
            if !close_at(&mut vars, symbol.as_str(), p, last, last.close, "end_of_data", snapshot, Ghost(setup)) {
                return Err("decimal arithmetic overflowed".to_string());
            }
            let ghost before_pop = vars.curve@;
            vars.curve.pop();
            proof {
                lemma_curve_pop(before_pop);
            }
            let ghost before = vars.curve@;
            let equity = vars.equity;
            if !push_equity(&mut vars.curve, last, equity, &mut vars.peak) {
                return Err("decimal arithmetic overflowed".to_string());
            }
            proof {
                lemma_curve_push(before, vars.curve@);
            }
        },
    }
    let heatmap = match build_heatmap(&vars.trades) {
        Some(h) => h,
        None => {
            return Err("decimal arithmetic overflowed".to_string());
        },
    };
    let spec_hash = canonical_hash(canonical_spec);
    Ok(
        BacktestRun {
            spec_hash,
            data_snapshot_id: snapshot.data_snapshot_id.clone(),
            symbol,
            equity_curve: vars.curve,
            heatmap,
            trades: vars.trades,
        },
    )
}

} // verus!
