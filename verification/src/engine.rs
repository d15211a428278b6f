//! The backtest's positions: where a stop and a take-profit go, how a trailing stop follows
//! the price, how big a position is, and what closing it books.
//!
//! Every function here answers `None` where the decimal arithmetic overflows; a placement that
//! is not possible (no indicator value, no swing to stand behind) is `Some(None)`.
use crate::backtest::{
    execution_price, round_down, round_up, spec_execution_price, spec_round_down, spec_round_up,
    EquityPoint, Side, Trade,
};
use crate::decimal::{decimal_normalize, decimal_round_dp, decimal_text};
use crate::decimal::{
    add_o, div_o, mul_o, num_lt, opt_add, opt_div, opt_mul, opt_sub, opt_view, parts_max,
    parts_min, sub_o, Dec,
};
use crate::indicators::{indicator_value, spec_indicator_value, IndicatorSeries, IndicatorsView};
use crate::rules::{
    opt_trailing, spec_risk_amount, position_risk_amount, EntryRule, EntryView, ExitRules,
    ExitRulesView, StopRule, StopRuleView, TakeProfitRule, TakeProfitView, TrailingExit,
    TrailingView,
};
use crate::signals::{highs_max, lows_min, max_high, min_low};
use crate::snapshot::{Candle, MarketSnapshot};
use crate::text::str_eq;
use vstd::prelude::*;

verus! {

/// An open position of the backtest.
pub struct PositionView {
    pub entry_ts: Seq<char>,
    pub side: Side,
    pub qty: (int, nat),
    pub entry_price: (int, nat),
    pub stop_price: (int, nat),
    pub take_profit_price: (int, nat),
    pub risk_amount: (int, nat),
    pub highest_price: (int, nat),
    pub lowest_price: (int, nat),
    pub trailing: Option<TrailingView>,
}

#[derive(Debug)]
pub struct Position {
    pub entry_ts: String,
    pub side: Side,
    pub qty: Dec,
    pub entry_price: Dec,
    pub stop_price: Dec,
    pub take_profit_price: Dec,
    pub risk_amount: Dec,
    pub highest_price: Dec,
    pub lowest_price: Dec,
    pub trailing: Option<TrailingExit>,
}

impl View for Position {
    type V = PositionView;

    open spec fn view(&self) -> PositionView {
        PositionView {
            entry_ts: self.entry_ts@,
            side: self.side,
            qty: self.qty@,
            entry_price: self.entry_price@,
            stop_price: self.stop_price@,
            take_profit_price: self.take_profit_price@,
            risk_amount: self.risk_amount@,
            highest_price: self.highest_price@,
            lowest_price: self.lowest_price@,
            trailing: opt_trailing(self.trailing),
        }
    }
}

/// A decimal that may have overflowed, as a placement that is there.
pub open spec fn lift(x: Option<(int, nat)>) -> Option<Option<(int, nat)>> {
    match x {
        Some(v) => Some(Some(v)),
        None => None,
    }
}

pub open spec fn opt_opt_view(r: Option<Option<Dec>>) -> Option<Option<(int, nat)>> {
    match r {
        Some(x) => Some(opt_view(x)),
        None => None,
    }
}

/// A price placed for a side: a long rounds down to the tick, a short rounds up.
pub open spec fn round_for(side: Side, raw: Option<Option<(int, nat)>>, tick: (int, nat)) -> Option<
    Option<(int, nat)>,
> {
    match raw {
        Some(Some(x)) => lift(
            if side == Side::Long {
                spec_round_down(x, tick)
            } else {
                spec_round_up(x, tick)
            },
        ),
        Some(None) => Some(None),
        None => None,
    }
}

fn round_for_side(side: Side, raw: Option<Option<Dec>>, tick: Dec) -> (r: Option<Option<Dec>>)
    ensures
        opt_opt_view(r) == round_for(side, opt_opt_view(raw), tick@),
{
    match raw {
        Some(Some(x)) => {
            let y = if side.is_long() {
                round_down(x, tick)
            } else {
                round_up(x, tick)
            };
            match y {
                Some(v) => Some(Some(v)),
                None => None,
            }
        },
        Some(None) => Some(None),
        None => None,
    }
}

fn lift_dec(x: Option<Dec>) -> (r: Option<Option<Dec>>)
    ensures
        opt_opt_view(r) == lift(opt_view(x)),
{
    match x {
        Some(v) => Some(Some(v)),
        None => None,
    }
}

/// The stop behind the swing of the candles before `i`: the lowest low (long) or highest
/// high (short) of the last `lookback` of them, never reaching back to the first candle.
pub open spec fn spec_swing_stop(side: Side, c: Seq<Candle>, i: int, lookback: int) -> Option<
    (int, nat),
> {
    if i == 0 {
        None
    } else {
        let back = if i >= lookback {
            i - lookback
        } else {
            0
        };
        let start = if back < 1 {
            1
        } else {
            back
        };
        if start >= i {
            None
        } else if side == Side::Long {
            Some(lows_min(c, start, i))
        } else {
            Some(highs_max(c, start, i))
        }
    }
}

pub fn swing_stop(side: Side, candles: &[Candle], i: usize, lookback: usize) -> (r: Option<Dec>)
    requires
        i < candles@.len(),
    ensures
        opt_view(r) == spec_swing_stop(side, candles@, i as int, lookback as int),
{
    if i == 0 {
        return None;
    }
    let back = if i >= lookback {
        i - lookback
    } else {
        0
    };
    let start = if back < 1 {
        1
    } else {
        back
    };
    if start >= i {
        None
    } else if side.is_long() {
        Some(min_low(candles, start, i))
    } else {
        Some(max_high(candles, start, i))
    }
}

/// The stop a new position gets.
pub open spec fn spec_initial_stop(
    side: Side,
    entry_price: (int, nat),
    stop: StopRuleView,
    c: Seq<Candle>,
    ind: IndicatorsView,
    i: int,
    tick: (int, nat),
) -> Option<Option<(int, nat)>> {
    let long = side == Side::Long;
    let raw = match stop {
        StopRuleView::Atr(id, mult) => match spec_indicator_value(ind, id, i) {
            None => Some(None),
            Some(a) => lift(
                if long {
                    sub_o(Some(entry_price), mul_o(Some(a), Some(mult)))
                } else {
                    add_o(Some(entry_price), mul_o(Some(a), Some(mult)))
                },
            ),
        },
        StopRuleView::Percent(pct) => {
            let frac = div_o(Some(pct), Some((100int, 0nat)));
            lift(
                if long {
                    mul_o(Some(entry_price), sub_o(Some((1int, 0nat)), frac))
                } else {
                    mul_o(Some(entry_price), add_o(Some((1int, 0nat)), frac))
                },
            )
        },
        StopRuleView::Swing(lookback) => Some(spec_swing_stop(side, c, i, lookback as int)),
    };
    round_for(side, raw, tick)
}

pub fn initial_stop(
    side: Side,
    entry_price: Dec,
    exits: &ExitRules,
    candles: &[Candle],
    ind: &IndicatorSeries,
    i: usize,
    tick_size: Dec,
) -> (r: Option<Option<Dec>>)
    requires
        i < candles@.len(),
    ensures
        opt_opt_view(r) == spec_initial_stop(
            side,
            entry_price@,
            exits@.stop,
            candles@,
            ind@,
            i as int,
            tick_size@,
        ),
{
    let long = side.is_long();
    let raw = match &exits.stop {
        StopRule::Atr { indicator_id, mult } => {
            let id = match indicator_id {
                Some(s) => Some(s.as_str()),
                None => None,
            };
            match indicator_value(ind, id, i) {
                None => Some(None),
                Some(a) => lift_dec(
                    if long {
                        opt_sub(Some(entry_price), opt_mul(Some(a), Some(*mult)))
                    } else {
                        opt_add(Some(entry_price), opt_mul(Some(a), Some(*mult)))
                    },
                ),
            }
        },
        StopRule::Percent(pct) => {
            let frac = opt_div(Some(*pct), Some(Dec::new(100, 0)));
            lift_dec(
                if long {
                    opt_mul(Some(entry_price), opt_sub(Some(Dec::one()), frac))
                } else {
                    opt_mul(Some(entry_price), opt_add(Some(Dec::one()), frac))
                },
            )
        },
        StopRule::Swing { lookback } => Some(swing_stop(side, candles, i, *lookback)),
    };
    round_for_side(side, raw, tick_size)
}

/// The take-profit a new position gets; the risk is the distance from the entry to the stop.
pub open spec fn spec_initial_take_profit(
    side: Side,
    entry_price: (int, nat),
    stop_price: (int, nat),
    take_profit: TakeProfitView,
    ind: IndicatorsView,
    i: int,
    tick: (int, nat),
) -> Option<Option<(int, nat)>> {
    let long = side == Side::Long;
    let risk = if long {
        sub_o(Some(entry_price), Some(stop_price))
    } else {
        sub_o(Some(stop_price), Some(entry_price))
    };
    match risk {
        None => None,
        Some(rk) => {
            let raw = match take_profit {
                TakeProfitView::Rr(rr) => lift(
                    if long {
                        add_o(Some(entry_price), mul_o(Some(rk), Some(rr)))
                    } else {
                        sub_o(Some(entry_price), mul_o(Some(rk), Some(rr)))
                    },
                ),
                TakeProfitView::Percent(pct) => {
                    let frac = div_o(Some(pct), Some((100int, 0nat)));
                    lift(
                        if long {
                            mul_o(Some(entry_price), add_o(Some((1int, 0nat)), frac))
                        } else {
                            mul_o(Some(entry_price), sub_o(Some((1int, 0nat)), frac))
                        },
                    )
                },
                TakeProfitView::Atr(id, mult) => match spec_indicator_value(ind, id, i) {
                    None => Some(None),
                    Some(a) => lift(
                        if long {
                            add_o(Some(entry_price), mul_o(Some(a), Some(mult)))
                        } else {
                            sub_o(Some(entry_price), mul_o(Some(a), Some(mult)))
                        },
                    ),
                },
            };
            round_for(side, raw, tick)
        },
    }
}

pub fn initial_take_profit(
    side: Side,
    entry_price: Dec,
    stop_price: Dec,
    exits: &ExitRules,
    ind: &IndicatorSeries,
    i: usize,
    tick_size: Dec,
) -> (r: Option<Option<Dec>>)
    ensures
        opt_opt_view(r) == spec_initial_take_profit(
            side,
            entry_price@,
            stop_price@,
            exits@.take_profit,
            ind@,
            i as int,
            tick_size@,
        ),
{
    let long = side.is_long();
    let risk = if long {
        opt_sub(Some(entry_price), Some(stop_price))
    } else {
        opt_sub(Some(stop_price), Some(entry_price))
    };
    let rk = match risk {
        Some(r) => r,
        None => {
            return None;
        },
    };
    let raw = match &exits.take_profit {
        TakeProfitRule::Rr(rr) => lift_dec(
            if long {
                opt_add(Some(entry_price), opt_mul(Some(rk), Some(*rr)))
            } else {
                opt_sub(Some(entry_price), opt_mul(Some(rk), Some(*rr)))
            },
        ),
        TakeProfitRule::Percent(pct) => {
            let frac = opt_div(Some(*pct), Some(Dec::new(100, 0)));
            lift_dec(
                if long {
                    opt_mul(Some(entry_price), opt_add(Some(Dec::one()), frac))
                } else {
                    opt_mul(Some(entry_price), opt_sub(Some(Dec::one()), frac))
                },
            )
        },
        TakeProfitRule::Atr { indicator_id, mult } => {
            let id = match indicator_id {
                Some(s) => Some(s.as_str()),
                None => None,
            };
            match indicator_value(ind, id, i) {
                None => Some(None),
                Some(a) => lift_dec(
                    if long {
                        opt_add(Some(entry_price), opt_mul(Some(a), Some(*mult)))
                    } else {
                        opt_sub(Some(entry_price), opt_mul(Some(a), Some(*mult)))
                    },
                ),
            }
        },
    };
    round_for_side(side, raw, tick_size)
}

/// A position after the trailing stop has followed candle `i`: the extremes take the bar in,
/// and the stop moves to the trailing level (rounded as a stop is) where that is tighter.
pub open spec fn spec_apply_trailing(
    pos: PositionView,
    c: Seq<Candle>,
    ind: IndicatorsView,
    i: int,
    tick: (int, nat),
) -> Option<PositionView> {
    match pos.trailing {
        None => Some(pos),
        Some(t) => {
            let long = pos.side == Side::Long;
            let hi = parts_max(pos.highest_price, c[i].high@);
            let lo = parts_min(pos.lowest_price, c[i].low@);
            let candidate = if t.mode == "atr"@ {
                match spec_indicator_value(ind, t.indicator_id, i) {
                    None => Some(None),
                    Some(a) => lift(
                        if long {
                            sub_o(Some(hi), mul_o(Some(a), Some(t.mult)))
                        } else {
                            add_o(Some(lo), mul_o(Some(a), Some(t.mult)))
                        },
                    ),
                }
            } else if t.mode == "swing"@ || t.mode == "order_block"@ {
                Some(spec_swing_stop(pos.side, c, i, t.lookback as int))
            } else {
                Some(None)
            };
            match round_for(pos.side, candidate, tick) {
                None => None,
                Some(level) => Some(
                    PositionView {
                        entry_ts: pos.entry_ts,
                        side: pos.side,
                        qty: pos.qty,
                        entry_price: pos.entry_price,
                        stop_price: match level {
                            Some(l) => if long {
                                parts_max(pos.stop_price, l)
                            } else {
                                parts_min(pos.stop_price, l)
                            },
                            None => pos.stop_price,
                        },
                        take_profit_price: pos.take_profit_price,
                        risk_amount: pos.risk_amount,
                        highest_price: hi,
                        lowest_price: lo,
                        trailing: pos.trailing,
                    },
                ),
            }
        },
    }
}

/// Moves a position's trailing stop for candle `i`; `false` where that overflows.
pub fn apply_trailing_stop(
    pos: &mut Position,
    candles: &[Candle],
    ind: &IndicatorSeries,
    i: usize,
    tick_size: Dec,
) -> (ok: bool)
    requires
        i < candles@.len(),
    ensures
        ok ==> spec_apply_trailing(old(pos)@, candles@, ind@, i as int, tick_size@) == Some(
            final(pos)@,
        ),
        !ok ==> spec_apply_trailing(old(pos)@, candles@, ind@, i as int, tick_size@) is None,
{
    let long = pos.side.is_long();
    let (mode_atr, mode_swing, id, mult, lookback) = match &pos.trailing {
        None => {
            return true;
        },
        Some(t) => {
            let id = match &t.indicator_id {
                Some(s) => Some(s.as_str()),
                None => None,
            };
            (
                str_eq(t.mode.as_str(), "atr"),
                str_eq(t.mode.as_str(), "swing") || str_eq(t.mode.as_str(), "order_block"),
                id,
                t.mult,
                t.lookback,
            )
        },
    };
    let c = &candles[i];
    let hi = pos.highest_price.max(c.high);
    let lo = pos.lowest_price.min(c.low);
    let candidate = if mode_atr {
        match indicator_value(ind, id, i) {
            None => Some(None),
            Some(a) => lift_dec(
                if long {
                    opt_sub(Some(hi), opt_mul(Some(a), Some(mult)))
                } else {
                    opt_add(Some(lo), opt_mul(Some(a), Some(mult)))
                },
            ),
        }
    } else if mode_swing {
        Some(swing_stop(pos.side, candles, i, lookback))
    } else {
        Some(None)
    };
    match round_for_side(pos.side, candidate, tick_size) {
        None => false,
        Some(level) => {
            pos.highest_price = hi;
            pos.lowest_price = lo;
            match level {
                Some(l) => {
                    if long {
                        pos.stop_price = pos.stop_price.max(l);
                    } else {
                        pos.stop_price = pos.stop_price.min(l);
                    }
                },
                None => {},
            }
            true
        },
    }
}

// ---- opening ----

pub open spec fn opt_opt_position(r: Option<Option<Position>>) -> Option<Option<PositionView>> {
    match r {
        Some(Some(p)) => Some(Some(p@)),
        Some(None) => Some(None),
        None => None,
    }
}

/// The position an entry opens at the close of candle `i`: filled with slippage, stopped and
/// sized by the rules, its quantity rounded down to the lot; no position where there is no
/// stop, the stop is not on the losing side, the quantity is not positive, the notional is
/// under the minimum, or there is no take-profit.
pub open spec fn spec_open_position(
    entry: EntryView,
    exits: ExitRulesView,
    c: Seq<Candle>,
    ind: IndicatorsView,
    i: int,
    equity: (int, nat),
    snap: MarketSnapshot,
) -> Option<Option<PositionView>> {
    let side = entry.side;
    let long = side == Side::Long;
    let tick = snap.contract.tick_size@;
    match spec_execution_price(c[i].close@, snap.slippage.bps@, long) {
        None => None,
        Some(ep) => match spec_initial_stop(side, ep, exits.stop, c, ind, i, tick) {
            None => None,
            Some(None) => Some(None),
            Some(Some(sp)) => match (if long {
                sub_o(Some(ep), Some(sp))
            } else {
                sub_o(Some(sp), Some(ep))
            }) {
                None => None,
                Some(rpu) => if rpu.0 <= 0 {
                    Some(None)
                } else {
                    match spec_risk_amount(entry.size, equity, ep, rpu) {
                        None => None,
                        Some(ra) => match div_o(Some(ra), Some(rpu)) {
                            None => None,
                            Some(units) => match spec_round_down(units, snap.contract.lot_size@) {
                                None => None,
                                Some(qty) => if qty.0 <= 0 {
                                    Some(None)
                                } else {
                                    match mul_o(Some(qty), Some(ep)) {
                                        None => None,
                                        Some(notional) => if num_lt(
                                            notional,
                                            snap.contract.min_notional@,
                                        ) {
                                            Some(None)
                                        } else {
                                            match spec_initial_take_profit(
                                                side,
                                                ep,
                                                sp,
                                                exits.take_profit,
                                                ind,
                                                i,
                                                tick,
                                            ) {
                                                None => None,
                                                Some(None) => Some(None),
                                                Some(Some(tp)) => Some(
                                                    Some(
                                                        PositionView {
                                                            entry_ts: c[i].ts@,
                                                            side,
                                                            qty,
                                                            entry_price: ep,
                                                            stop_price: sp,
                                                            take_profit_price: tp,
                                                            risk_amount: ra,
                                                            highest_price: c[i].high@,
                                                            lowest_price: c[i].low@,
                                                            trailing: exits.trailing,
                                                        },
                                                    ),
                                                ),
                                            }
                                        },
                                    }
                                },
                            },
                        },
                    }
                },
            },
        },
    }
}

pub fn open_position(
    entry: &EntryRule,
    exits: &ExitRules,
    candles: &[Candle],
    ind: &IndicatorSeries,
    i: usize,
    equity: Dec,
    snapshot: &MarketSnapshot,
) -> (r: Option<Option<Position>>)
    requires
        i < candles@.len(),
    ensures
        opt_opt_position(r) == spec_open_position(
            entry@,
            exits@,
            candles@,
            ind@,
            i as int,
            equity@,
            *snapshot,
        ),
{
    let c = &candles[i];
    let side = entry.side;
    let long = side.is_long();
    let tick = snapshot.contract.tick_size;
    let entry_price = match execution_price(c.close, snapshot.slippage.bps, long) {
        Some(p) => p,
        None => {
            return None;
        },
    };
    let stop_price = match initial_stop(side, entry_price, exits, candles, ind, i, tick) {
        None => {
            return None;
        },
        Some(None) => {
            return Some(None);
        },
        Some(Some(p)) => p,
    };
    let risk_per_unit = match (if long {
        entry_price.checked_sub(stop_price)
    } else {
        stop_price.checked_sub(entry_price)
    }) {
        Some(r) => r,
        None => {
            return None;
        },
    };
    if !risk_per_unit.is_positive() {
        return Some(None);
    }
    let risk_amount = match position_risk_amount(&entry.size, equity, entry_price, risk_per_unit) {
        Some(a) => a,
        None => {
            return None;
        },
    };
    let units = match risk_amount.checked_div(risk_per_unit) {
        Some(u) => u,
        None => {
            return None;
        },
    };
    let qty = match round_down(units, snapshot.contract.lot_size) {
        Some(q) => q,
        None => {
            return None;
        },
    };
    if !qty.is_positive() {
        return Some(None);
    }
    let notional = match qty.checked_mul(entry_price) {
        Some(n) => n,
        None => {
            return None;
        },
    };
    if notional.lt(&snapshot.contract.min_notional) {
        return Some(None);
    }
    let take_profit_price = match initial_take_profit(
        side,
        entry_price,
        stop_price,
        exits,
        ind,
        i,
        tick,
    ) {
        None => {
            return None;
        },
        Some(None) => {
            return Some(None);
        },
        Some(Some(p)) => p,
    };
    let trailing = match &exits.trailing {
        Some(t) => Some(t.copy()),
        None => None,
    };
    Some(
        Some(
            Position {
                entry_ts: c.ts.clone(),
                side,
                qty,
                entry_price,
                stop_price,
                take_profit_price,
                risk_amount,
                highest_price: c.high,
                lowest_price: c.low,
                trailing,
            },
        ),
    )
}

// ---- closing ----

/// How a decimal is written in the report: rounded to 8 places, trailing zeros dropped.
pub open spec fn fmt_text(d: (int, nat)) -> Seq<char> {
    decimal_text(decimal_normalize(decimal_round_dp(d, 8)))
}

pub fn fmt(value: Dec) -> (r: String)
    ensures
        r@ == fmt_text(value@),
{
    value.round_dp(8).normalize().to_text()
}

/// A closed trade, with its numbers written as text.
pub struct TradeView {
    pub entry_ts: Seq<char>,
    pub exit_ts: Seq<char>,
    pub symbol: Seq<char>,
    pub side: Seq<char>,
    pub qty: Seq<char>,
    pub entry_price: Seq<char>,
    pub exit_price: Seq<char>,
    pub stop_price: Seq<char>,
    pub take_profit_price: Seq<char>,
    pub gross_pnl: Seq<char>,
    pub fees: Seq<char>,
    pub net_pnl: Seq<char>,
    pub rr: Seq<char>,
    pub exit_reason: Seq<char>,
}

pub open spec fn trade_view(t: Trade) -> TradeView {
    TradeView {
        entry_ts: t.entry_ts@,
        exit_ts: t.exit_ts@,
        symbol: t.symbol@,
        side: t.side@,
        qty: t.qty@,
        entry_price: t.entry_price@,
        exit_price: t.exit_price@,
        stop_price: t.stop_price@,
        take_profit_price: t.take_profit_price@,
        gross_pnl: t.gross_pnl@,
        fees: t.fees@,
        net_pnl: t.net_pnl@,
        rr: t.rr@,
        exit_reason: t.exit_reason@,
    }
}

pub open spec fn trades_view(v: Seq<Trade>) -> Seq<TradeView> {
    v.map_values(|t: Trade| trade_view(t))
}

pub open spec fn side_text(side: Side) -> Seq<char> {
    match side {
        Side::Long => "long"@,
        Side::Short => "short"@,
    }
}

/// Closing a position at `exit_price`: the gross result, taker fees on both notionals, the
/// net result added to the equity, and the reward as a multiple of the risk (zero without
/// risk). Gives the new equity and the trade.
pub open spec fn spec_close(
    equity: (int, nat),
    pos: PositionView,
    exit_ts: Seq<char>,
    exit_price: (int, nat),
    exit_reason: Seq<char>,
    symbol: Seq<char>,
    taker_bps: (int, nat),
) -> Option<((int, nat), TradeView)> {
    let qty = Some(pos.qty);
    let notional_in = mul_o(qty, Some(pos.entry_price));
    let notional_out = mul_o(qty, Some(exit_price));
    let gross = if pos.side == Side::Long {
        mul_o(sub_o(Some(exit_price), Some(pos.entry_price)), qty)
    } else {
        mul_o(sub_o(Some(pos.entry_price), Some(exit_price)), qty)
    };
    let fees = div_o(
        mul_o(add_o(notional_in, notional_out), Some(taker_bps)),
        Some((10000int, 0nat)),
    );
    let net = sub_o(gross, fees);
    let new_equity = add_o(Some(equity), net);
    let rr = if pos.risk_amount.0 > 0 {
        div_o(net, Some(pos.risk_amount))
    } else {
        Some((0int, 0nat))
    };
    match (gross, fees, net, new_equity, rr) {
        (Some(g), Some(f), Some(n), Some(e), Some(r)) => Some(
            (
                e,
                TradeView {
                    entry_ts: pos.entry_ts,
                    exit_ts,
                    symbol,
                    side: side_text(pos.side),
                    qty: fmt_text(pos.qty),
                    entry_price: fmt_text(pos.entry_price),
                    exit_price: fmt_text(exit_price),
                    stop_price: fmt_text(pos.stop_price),
                    take_profit_price: fmt_text(pos.take_profit_price),
                    gross_pnl: fmt_text(g),
                    fees: fmt_text(f),
                    net_pnl: fmt_text(n),
                    rr: fmt_text(r),
                    exit_reason,
                },
            ),
        ),
        _ => None,
    }
}

/// Closes a position, books its trade and its result; `false` (nothing changed) where that
/// overflows.
pub fn close_position(
    equity: &mut Dec,
    trades: &mut Vec<Trade>,
    symbol: &str,
    pos: Position,
    candle: &Candle,
    exit_price: Dec,
    exit_reason: &str,
    snapshot: &MarketSnapshot,
) -> (ok: bool)
    ensures
        ok ==> spec_close(
            old(equity)@,
            pos@,
            candle.ts@,
            exit_price@,
            exit_reason@,
            symbol@,
            snapshot.fees.taker_bps@,
        ) == Some((final(equity)@, trade_view(final(trades)@.last())))
            && final(trades)@.drop_last() == old(trades)@ && final(trades)@.len() == old(trades)@.len() + 1,
        !ok ==> spec_close(
            old(equity)@,
            pos@,
            candle.ts@,
            exit_price@,
            exit_reason@,
            symbol@,
            snapshot.fees.taker_bps@,
        ) is None && *final(equity) == *old(equity) && final(trades)@ == old(trades)@,
{
    let qty = Some(pos.qty);
    let notional_in = opt_mul(qty, Some(pos.entry_price));
    let notional_out = opt_mul(qty, Some(exit_price));
    let gross = if pos.side.is_long() {
        opt_mul(opt_sub(Some(exit_price), Some(pos.entry_price)), qty)
    } else {
        opt_mul(opt_sub(Some(pos.entry_price), Some(exit_price)), qty)
    };
    let fees = opt_div(
        opt_mul(opt_add(notional_in, notional_out), Some(snapshot.fees.taker_bps)),
        Some(Dec::new(10000, 0)),
    );
    let net = opt_sub(gross, fees);
    let new_equity = opt_add(Some(*equity), net);
    let rr = if pos.risk_amount.is_positive() {
        opt_div(net, Some(pos.risk_amount))
    } else {
        Some(Dec::zero())
    };
    match (gross, fees, net, new_equity, rr) {
        (Some(g), Some(f), Some(n), Some(e), Some(r)) => {
            *equity = e;
            let trade = Trade {
                entry_ts: pos.entry_ts,
                exit_ts: candle.ts.clone(),
                symbol: symbol.to_string(),
                side: pos.side.as_str().to_string(),
                qty: fmt(pos.qty),
                entry_price: fmt(pos.entry_price),
                exit_price: fmt(exit_price),
                stop_price: fmt(pos.stop_price),
                take_profit_price: fmt(pos.take_profit_price),
                gross_pnl: fmt(g),
                fees: fmt(f),
                net_pnl: fmt(n),
                rr: fmt(r),
                exit_reason: exit_reason.to_string(),
            };
            trades.push(trade);
            assert(trades@.drop_last() =~= old(trades)@);
            true
        },
        _ => false,
    }
}

/// A point of the equity curve, with its numbers written as text.
pub struct PointView {
    pub ts: Seq<char>,
    pub equity: Seq<char>,
    pub drawdown_pct: Seq<char>,
}

pub open spec fn point_view(p: EquityPoint) -> PointView {
    PointView { ts: p.ts@, equity: p.equity@, drawdown_pct: p.drawdown_pct@ }
}

pub open spec fn curve_view(v: Seq<EquityPoint>) -> Seq<PointView> {
    v.map_values(|p: EquityPoint| point_view(p))
}

/// Recording the equity at a candle: the peak rises to it, and the drawdown is the percentage
/// below the peak (zero without a positive peak). Gives the new peak and the point.
pub open spec fn spec_push_equity(ts: Seq<char>, equity: (int, nat), peak: (int, nat)) -> Option<
    ((int, nat), PointView),
> {
    let pk = if num_lt(peak, equity) {
        equity
    } else {
        peak
    };
    let dd = if pk.0 > 0 {
        mul_o(div_o(sub_o(Some(pk), Some(equity)), Some(pk)), Some((100int, 0nat)))
    } else {
        Some((0int, 0nat))
    };
    match dd {
        Some(d) => Some((pk, PointView { ts, equity: fmt_text(equity), drawdown_pct: fmt_text(d) })),
        None => None,
    }
}

/// Appends the equity at a candle to the curve; `false` (nothing changed) where the drawdown
/// overflows.
pub fn push_equity(curve: &mut Vec<EquityPoint>, candle: &Candle, equity: Dec, peak: &mut Dec) -> (ok:
    bool)
    ensures
        ok ==> spec_push_equity(candle.ts@, equity@, old(peak)@) == Some(
            (final(peak)@, point_view(final(curve)@.last())),
        ) && final(curve)@.drop_last() == old(curve)@ && final(curve)@.len() == old(curve)@.len() + 1,
        !ok ==> spec_push_equity(candle.ts@, equity@, old(peak)@) is None && *final(peak) == *old(
            peak,
        ) && final(curve)@ == old(curve)@,
{
    let pk = if peak.lt(&equity) {
        equity
    } else {
        *peak
    };
    let dd = if pk.is_positive() {
        opt_mul(opt_div(opt_sub(Some(pk), Some(equity)), Some(pk)), Some(Dec::new(100, 0)))
    } else {
        Some(Dec::zero())
    };
    match dd {
        Some(d) => {
            *peak = pk;
            curve.push(EquityPoint { ts: candle.ts.clone(), equity: fmt(equity), drawdown_pct: fmt(d) });
            assert(curve@.drop_last() =~= old(curve)@);
            true
        },
        None => false,
    }
}

} // verus!
