//! The headline metrics of a backtest, read back from the report's text: net result, win
//! rate, expectancy, average reward-to-risk, Sharpe and Sortino ratios of the per-candle
//! returns, maximum drawdown, Calmar ratio, profit factor and time in market.
//!
//! The standard deviations take a square root by Newton's method; its starting point is
//! handed in (`seeds`), since it comes from a floating-point estimate.
use crate::backtest::{
    ratio, spec_ratio, BacktestMeta, BacktestReport, EquityPoint, KpiBundle, Trade,
};
use crate::simulate::BacktestRun;
use crate::snapshot::{BacktestConfig, MarketSnapshot};
use crate::text::{concat, u64_text};
use crate::decimal::{
    add_o, dec_count, div_o, mul_o, opt_add, opt_div, opt_mul, opt_sub, opt_view,
    parts_abs, present, sub_o, sum_o, Dec,
};
use crate::engine::{curve_view, fmt, fmt_text, trades_view, PointView, TradeView};
use crate::report::{parse_or_zero, parse_or_zero_of};
use crate::signals::last_max;
use vstd::prelude::*;

verus! {

/// The net results of the trades.
pub open spec fn pnls(trades: Seq<TradeView>) -> Seq<(int, nat)> {
    trades.map_values(|t: TradeView| parse_or_zero(t.net_pnl))
}

/// The reward-to-risk multiples of the trades.
pub open spec fn rrs(trades: Seq<TradeView>) -> Seq<(int, nat)> {
    trades.map_values(|t: TradeView| parse_or_zero(t.rr))
}

pub open spec fn dec_view(v: Seq<Dec>) -> Seq<(int, nat)> {
    v.map_values(|d: Dec| d@)
}

/// The sum of the positive items.
pub open spec fn sum_wins(xs: Seq<(int, nat)>) -> Option<(int, nat)>
    decreases xs.len(),
{
    if xs.len() == 0 {
        Some((0int, 0nat))
    } else if xs.last().0 > 0 {
        add_o(sum_wins(xs.drop_last()), Some(xs.last()))
    } else {
        sum_wins(xs.drop_last())
    }
}

/// The sum of the sizes of the negative items.
pub open spec fn sum_losses(xs: Seq<(int, nat)>) -> Option<(int, nat)>
    decreases xs.len(),
{
    if xs.len() == 0 {
        Some((0int, 0nat))
    } else if xs.last().0 < 0 {
        add_o(sum_losses(xs.drop_last()), Some(parts_abs(xs.last())))
    } else {
        sum_losses(xs.drop_last())
    }
}

/// The number of positive items.
pub open spec fn count_wins(xs: Seq<(int, nat)>) -> nat
    decreases xs.len(),
{
    if xs.len() == 0 {
        0
    } else if xs.last().0 > 0 {
        count_wins(xs.drop_last()) + 1
    } else {
        count_wins(xs.drop_last())
    }
}

/// The negative items, in order.
pub open spec fn negatives(xs: Seq<(int, nat)>) -> Seq<(int, nat)>
    decreases xs.len(),
{
    if xs.len() == 0 {
        Seq::empty()
    } else if xs.last().0 < 0 {
        negatives(xs.drop_last()).push(xs.last())
    } else {
        negatives(xs.drop_last())
    }
}

/// The mean, zero for no items.
pub open spec fn spec_average(xs: Seq<(int, nat)>) -> Option<(int, nat)> {
    if xs.len() == 0 {
        Some((0int, 0nat))
    } else {
        div_o(sum_o(present(xs)), Some((xs.len() as int, 0nat)))
    }
}

/// The returns between consecutive points of the curve before `m`, skipping those from an
/// equity that is not positive.
pub open spec fn returns_upto(curve: Seq<PointView>, m: int) -> Option<Seq<(int, nat)>>
    decreases m,
{
    if m <= 1 {
        Some(Seq::empty())
    } else {
        match returns_upto(curve, m - 1) {
            None => None,
            Some(rs) => {
                let prev = parse_or_zero(curve[m - 2].equity);
                let next = parse_or_zero(curve[m - 1].equity);
                if prev.0 > 0 {
                    match div_o(sub_o(Some(next), Some(prev)), Some(prev)) {
                        Some(r) => Some(rs.push(r)),
                        None => None,
                    }
                } else {
                    Some(rs)
                }
            },
        }
    }
}

pub open spec fn spec_returns(curve: Seq<PointView>) -> Option<Seq<(int, nat)>> {
    returns_upto(curve, curve.len() as int)
}

/// The sum of squared deviations from `avg`.
pub open spec fn sq_dev_sum(xs: Seq<(int, nat)>, avg: (int, nat)) -> Option<(int, nat)>
    decreases xs.len(),
{
    if xs.len() == 0 {
        Some((0int, 0nat))
    } else {
        let d = sub_o(Some(xs.last()), Some(avg));
        add_o(sq_dev_sum(xs.drop_last(), avg), mul_o(d, d))
    }
}

/// The sample variance (zero for fewer than two items).
pub open spec fn spec_variance(xs: Seq<(int, nat)>) -> Option<(int, nat)> {
    if xs.len() < 2 {
        Some((0int, 0nat))
    } else {
        match spec_average(xs) {
            None => None,
            Some(a) => div_o(sq_dev_sum(xs, a), Some(((xs.len() - 1) as int, 0nat))),
        }
    }
}

/// `k` Newton steps `x := (x + n / x) / 2` from `x`.
pub open spec fn newton(n: (int, nat), x: (int, nat), k: nat) -> Option<(int, nat)>
    decreases k,
{
    if k == 0 {
        Some(x)
    } else {
        match div_o(add_o(Some(x), div_o(Some(n), Some(x))), Some((2int, 0nat))) {
            Some(y) => newton(n, y, (k - 1) as nat),
            None => None,
        }
    }
}

/// The square root of `n` by sixteen Newton steps from `seed` (zero for `n` not positive).
pub open spec fn spec_sqrt(n: (int, nat), seed: (int, nat)) -> Option<(int, nat)> {
    if n.0 <= 0 {
        Some((0int, 0nat))
    } else {
        newton(n, seed, 16)
    }
}

/// The sample standard deviation, its square root taken from `seed`.
pub open spec fn spec_stddev(xs: Seq<(int, nat)>, seed: (int, nat)) -> Option<(int, nat)> {
    if xs.len() < 2 {
        Some((0int, 0nat))
    } else {
        match spec_variance(xs) {
            None => None,
            Some(v) => spec_sqrt(v, seed),
        }
    }
}

/// The largest drawdown of the curve, the last one where several are largest; points whose
/// drawdown does not parse are skipped, and an empty curve has none.
pub open spec fn dd_max(curve: Seq<PointView>) -> Option<(int, nat)>
    decreases curve.len(),
{
    if curve.len() == 0 {
        None
    } else {
        let rest = dd_max(curve.drop_last());
        match crate::decimal::decimal_parse(curve.last().drawdown_pct) {
            Some(d) => match rest {
                Some(m) => Some(last_max(m, d)),
                None => Some(d),
            },
            None => rest,
        }
    }
}

pub open spec fn max_drawdown(curve: Seq<PointView>) -> (int, nat) {
    match dd_max(curve) {
        Some(m) => m,
        None => (0int, 0nat),
    }
}

/// `n / d` where both are there, zero for a zero denominator.
pub open spec fn ratio_o(n: Option<(int, nat)>, d: Option<(int, nat)>) -> Option<(int, nat)> {
    match (n, d) {
        (Some(x), Some(y)) => spec_ratio(x, y),
        _ => None,
    }
}

/// The metrics by name, in name order; `None` where their arithmetic overflows (or the
/// initial equity is zero).
pub open spec fn spec_metrics(
    trades: Seq<TradeView>,
    curve: Seq<PointView>,
    initial_equity: (int, nat),
    seeds: ((int, nat), (int, nat)),
) -> Option<Seq<(Seq<char>, Seq<char>)>> {
    let p = pnls(trades);
    let n = trades.len();
    let total = sum_o(present(p));
    let gross_profit = sum_wins(p);
    let gross_loss = sum_losses(p);
    let win_rate = if n == 0 {
        Some((0int, 0nat))
    } else {
        div_o(Some((count_wins(p) as int, 0nat)), Some((n as int, 0nat)))
    };
    let expectancy = if n == 0 {
        Some((0int, 0nat))
    } else {
        div_o(total, Some((n as int, 0nat)))
    };
    let avg_rr = spec_average(rrs(trades));
    match spec_returns(curve) {
        None => None,
        Some(rs) => {
            let avg_r = spec_average(rs);
            let sharpe = mul_o(ratio_o(avg_r, spec_stddev(rs, seeds.0)), Some((100int, 0nat)));
            let sortino = mul_o(
                ratio_o(avg_r, spec_stddev(negatives(rs), seeds.1)),
                Some((100int, 0nat)),
            );
            let max_dd = max_drawdown(curve);
            let calmar = ratio_o(
                div_o(total, Some(initial_equity)),
                div_o(Some(max_dd), Some((100int, 0nat))),
            );
            let profit_factor = ratio_o(gross_profit, gross_loss);
            let cagr = div_o(total, Some(initial_equity));
            let time_in_market = if curve.len() == 0 {
                Some((0int, 0nat))
            } else {
                div_o(Some((n as int, 0nat)), Some((curve.len() as int, 0nat)))
            };
            match (
                total,
                win_rate,
                expectancy,
                avg_rr,
                sharpe,
                sortino,
                calmar,
                profit_factor,
                cagr,
                time_in_market,
            ) {
                (
                    Some(t),
                    Some(w),
                    Some(e),
                    Some(a),
                    Some(sh),
                    Some(so),
                    Some(ca),
                    Some(pf),
                    Some(cg),
                    Some(tm),
                ) => Some(
                    seq![
                        ("avg_rr"@, fmt_text(a)),
                        ("cagr"@, fmt_text(cg)),
                        ("calmar"@, fmt_text(ca)),
                        ("expectancy"@, fmt_text(e)),
                        ("max_dd_pct"@, fmt_text(max_dd)),
                        ("net_pnl"@, fmt_text(t)),
                        ("profit_factor"@, fmt_text(pf)),
                        ("sharpe"@, fmt_text(sh)),
                        ("sortino"@, fmt_text(so)),
                        ("time_in_market"@, fmt_text(tm)),
                        ("trade_count"@, crate::text::nat_text(n)),
                        ("win_rate"@, fmt_text(w)),
                    ],
                ),
                _ => None,
            }
        },
    }
}

proof fn lemma_dec_push(v: Seq<Dec>, d: Dec)
    ensures
        dec_view(v.push(d)) == dec_view(v).push(d@),
{
    assert(dec_view(v.push(d)) =~= dec_view(v).push(d@));
}

/// The net results of the trades, read back from their text.
fn pnls_of(trades: &Vec<Trade>) -> (r: Vec<Dec>)
    ensures
        dec_view(r@) == pnls(trades_view(trades@)),
{
    let ghost tv = trades_view(trades@);
    let mut out: Vec<Dec> = Vec::new();
    let mut k: usize = 0;
    while k < trades.len()
        invariant
            k <= trades@.len(),
            tv == trades_view(trades@),
            dec_view(out@) =~= pnls(tv).take(k as int),
        decreases trades.len() - k,
    {
        let d = parse_or_zero_of(trades[k].net_pnl.as_str());
        let ghost before = out@;
        out.push(d);
        proof {
            lemma_dec_push(before, d);
            assert(pnls(tv).take(k + 1) =~= pnls(tv).take(k as int).push(pnls(tv)[k as int]));
        }
        k = k + 1;
    }
    assert(pnls(tv).take(k as int) =~= pnls(tv));
    out
}

/// The reward-to-risk multiples of the trades, read back from their text.
fn rrs_of(trades: &Vec<Trade>) -> (r: Vec<Dec>)
    ensures
        dec_view(r@) == rrs(trades_view(trades@)),
{
    let ghost tv = trades_view(trades@);
    let mut out: Vec<Dec> = Vec::new();
    let mut k: usize = 0;
    while k < trades.len()
        invariant
            k <= trades@.len(),
            tv == trades_view(trades@),
            dec_view(out@) =~= rrs(tv).take(k as int),
        decreases trades.len() - k,
    {
        let d = parse_or_zero_of(trades[k].rr.as_str());
        let ghost before = out@;
        out.push(d);
        proof {
            lemma_dec_push(before, d);
            assert(rrs(tv).take(k + 1) =~= rrs(tv).take(k as int).push(rrs(tv)[k as int]));
        }
        k = k + 1;
    }
    assert(rrs(tv).take(k as int) =~= rrs(tv));
    out
}

/// The sum of the decimals, from zero.
fn sum_decimals(xs: &Vec<Dec>) -> (r: Option<Dec>)
    ensures
        opt_view(r) == sum_o(present(dec_view(xs@))),
{
    let ghost v = dec_view(xs@);
    let mut acc = Some(Dec::zero());
    let mut k: usize = 0;
    assert(present(v.take(0)) =~= Seq::<Option<(int, nat)>>::empty());
    while k < xs.len()
        invariant
            k <= xs@.len(),
            v == dec_view(xs@),
            opt_view(acc) == sum_o(present(v.take(k as int))),
        decreases xs.len() - k,
    {
        assert(present(v.take(k + 1)).drop_last() =~= present(v.take(k as int)));
        assert(present(v.take(k + 1)).last() == Some(xs@[k as int]@));
        acc = opt_add(acc, Some(xs[k]));
        k = k + 1;
    }
    assert(v.take(k as int) =~= v);
    acc
}

fn sum_wins_of(xs: &Vec<Dec>) -> (r: (Option<Dec>, usize))
    ensures
        opt_view(r.0) == sum_wins(dec_view(xs@)),
        r.1 as nat == count_wins(dec_view(xs@)),
{
    let ghost v = dec_view(xs@);
    let mut acc = Some(Dec::zero());
    let mut count: usize = 0;
    let mut k: usize = 0;
    while k < xs.len()
        invariant
            k <= xs@.len(),
            v == dec_view(xs@),
            count <= k,
            opt_view(acc) == sum_wins(v.take(k as int)),
            count as nat == count_wins(v.take(k as int)),
        decreases xs.len() - k,
    {
        assert(v.take(k + 1).drop_last() =~= v.take(k as int));
        assert(v.take(k + 1).last() == xs@[k as int]@);
        if xs[k].is_positive() {
            acc = opt_add(acc, Some(xs[k]));
            count = count + 1;
        }
        k = k + 1;
    }
    assert(v.take(k as int) =~= v);
    (acc, count)
}

fn sum_losses_of(xs: &Vec<Dec>) -> (r: Option<Dec>)
    ensures
        opt_view(r) == sum_losses(dec_view(xs@)),
{
    let ghost v = dec_view(xs@);
    let mut acc = Some(Dec::zero());
    let mut k: usize = 0;
    while k < xs.len()
        invariant
            k <= xs@.len(),
            v == dec_view(xs@),
            opt_view(acc) == sum_losses(v.take(k as int)),
        decreases xs.len() - k,
    {
        assert(v.take(k + 1).drop_last() =~= v.take(k as int));
        assert(v.take(k + 1).last() == xs@[k as int]@);
        if xs[k].is_negative() {
            acc = opt_add(acc, Some(xs[k].abs()));
        }
        k = k + 1;
    }
    assert(v.take(k as int) =~= v);
    acc
}

fn negatives_of(xs: &Vec<Dec>) -> (r: Vec<Dec>)
    ensures
        dec_view(r@) == negatives(dec_view(xs@)),
{
    let ghost v = dec_view(xs@);
    let mut out: Vec<Dec> = Vec::new();
    let mut k: usize = 0;
    assert(dec_view(out@) =~= Seq::<(int, nat)>::empty());
    while k < xs.len()
        invariant
            k <= xs@.len(),
            v == dec_view(xs@),
            dec_view(out@) == negatives(v.take(k as int)),
        decreases xs.len() - k,
    {
        assert(v.take(k + 1).drop_last() =~= v.take(k as int));
        assert(v.take(k + 1).last() == xs@[k as int]@);
        if xs[k].is_negative() {
            let ghost before = out@;
            out.push(xs[k]);
            proof {
                lemma_dec_push(before, xs@[k as int]);
            }
        }
        k = k + 1;
    }
    assert(v.take(k as int) =~= v);
    out
}

/// The mean of the decimals, zero for none.
pub fn average(xs: &Vec<Dec>) -> (r: Option<Dec>)
    ensures
        opt_view(r) == spec_average(dec_view(xs@)),
{
    if xs.len() == 0 {
        Some(Dec::zero())
    } else {
        opt_div(sum_decimals(xs), Some(dec_count(xs.len())))
    }
}

/// The returns between consecutive points of the equity curve.
pub fn equity_returns(curve: &Vec<EquityPoint>) -> (r: Option<Vec<Dec>>)
    ensures
        match r {
            Some(v) => spec_returns(curve_view(curve@)) == Some(dec_view(v@)),
            None => spec_returns(curve_view(curve@)) is None,
        },
{
    let ghost cv = curve_view(curve@);
    let mut out: Vec<Dec> = Vec::new();
    if curve.len() < 2 {
        assert(dec_view(out@) =~= Seq::<(int, nat)>::empty());
        return Some(out);
    }
    let mut j: usize = 1;
    assert(dec_view(out@) =~= Seq::<(int, nat)>::empty());
    assert(returns_upto(cv, 1) == Some(Seq::<(int, nat)>::empty()));
    while j < curve.len()
        invariant
            1 <= j <= curve@.len(),
            cv == curve_view(curve@),
            returns_upto(cv, j as int) == Some(dec_view(out@)),
        decreases curve.len() - j,
    {
        let prev = parse_or_zero_of(curve[j - 1].equity.as_str());
        let next = parse_or_zero_of(curve[j].equity.as_str());
        assert(cv[j - 1].equity == curve@[j - 1].equity@);
        assert(cv[j as int].equity == curve@[j as int].equity@);
        if prev.is_positive() {
            match opt_div(opt_sub(Some(next), Some(prev)), Some(prev)) {
                Some(r) => {
                    let ghost before = out@;
                    out.push(r);
                    proof {
                        lemma_dec_push(before, r);
                    }
                },
                None => {
                    proof {
                        lemma_returns_none(cv, j + 1, cv.len() as int);
                    }
                    return None;
                },
            }
        }
        j = j + 1;
    }
    Some(out)
}

proof fn lemma_returns_none(curve: Seq<PointView>, a: int, b: int)
    requires
        a <= b,
        returns_upto(curve, a) is None,
    ensures
        returns_upto(curve, b) is None,
    decreases b - a,
{
    if a < b {
        lemma_returns_none(curve, a, b - 1);
    }
}

fn sq_dev_sum_of(xs: &Vec<Dec>, avg: Dec) -> (r: Option<Dec>)
    ensures
        opt_view(r) == sq_dev_sum(dec_view(xs@), avg@),
{
    let ghost v = dec_view(xs@);
    let mut acc = Some(Dec::zero());
    let mut k: usize = 0;
    while k < xs.len()
        invariant
            k <= xs@.len(),
            v == dec_view(xs@),
            opt_view(acc) == sq_dev_sum(v.take(k as int), avg@),
        decreases xs.len() - k,
    {
        assert(v.take(k + 1).drop_last() =~= v.take(k as int));
        assert(v.take(k + 1).last() == xs@[k as int]@);
        let d = opt_sub(Some(xs[k]), Some(avg));
        acc = opt_add(acc, opt_mul(d, d));
        k = k + 1;
    }
    assert(v.take(k as int) =~= v);
    acc
}

/// The sample variance of the decimals (zero for fewer than two).
pub fn variance(xs: &Vec<Dec>) -> (r: Option<Dec>)
    ensures
        opt_view(r) == spec_variance(dec_view(xs@)),
{
    if xs.len() < 2 {
        return Some(Dec::zero());
    }
    match average(xs) {
        None => None,
        Some(a) => opt_div(sq_dev_sum_of(xs, a), Some(dec_count(xs.len() - 1))),
    }
}

/// The square root of `n` by sixteen Newton steps from `seed`.
pub fn decimal_sqrt(n: Dec, seed: Dec) -> (r: Option<Dec>)
    ensures
        opt_view(r) == spec_sqrt(n@, seed@),
{
    if !n.is_positive() {
        return Some(Dec::zero());
    }
    let mut x = seed;
    let mut k: u32 = 0;
    while k < 16
        invariant
            k <= 16,
            n@.0 > 0,
            newton(n@, seed@, 16) == newton(n@, x@, (16 - k) as nat),
        decreases 16 - k,
    {
        match opt_div(opt_add(Some(x), opt_div(Some(n), Some(x))), Some(Dec::new(2, 0))) {
            Some(y) => {
                x = y;
            },
            None => {
                return None;
            },
        }
        k = k + 1;
    }
    Some(x)
}

/// The sample standard deviation, the square root started from `seed`.
pub fn stddev(xs: &Vec<Dec>, seed: Dec) -> (r: Option<Dec>)
    ensures
        opt_view(r) == spec_stddev(dec_view(xs@), seed@),
{
    if xs.len() < 2 {
        return Some(Dec::zero());
    }
    match variance(xs) {
        None => None,
        Some(v) => decimal_sqrt(v, seed),
    }
}

fn max_drawdown_of(curve: &Vec<EquityPoint>) -> (r: Dec)
    ensures
        r@ == max_drawdown(curve_view(curve@)),
{
    let ghost cv = curve_view(curve@);
    let mut best: Option<Dec> = None;
    let mut k: usize = 0;
    while k < curve.len()
        invariant
            k <= curve@.len(),
            cv == curve_view(curve@),
            opt_view(best) == dd_max(cv.take(k as int)),
        decreases curve.len() - k,
    {
        assert(cv.take(k + 1).drop_last() =~= cv.take(k as int));
        assert(cv.take(k + 1).last().drawdown_pct == curve@[k as int].drawdown_pct@);
        match Dec::parse(curve[k].drawdown_pct.as_str()) {
            Some(d) => {
                best = match best {
                    Some(m) => {
                        if d.lt(&m) {
                            Some(m)
                        } else {
                            Some(d)
                        }
                    },
                    None => Some(d),
                };
            },
            None => {},
        }
        k = k + 1;
    }
    assert(cv.take(k as int) =~= cv);
    match best {
        Some(m) => m,
        None => Dec::zero(),
    }
}

/// The variances of the returns and of the losing returns of a curve: the numbers whose
/// square roots the Sharpe and Sortino ratios need.
pub fn return_variances(curve: &Vec<EquityPoint>) -> (r: Option<(Dec, Dec)>)
    ensures
        match r {
            Some((a, b)) => spec_returns(curve_view(curve@)) matches Some(rs) && spec_variance(rs)
                == Some(a@) && spec_variance(negatives(rs)) == Some(b@),
            None => match spec_returns(curve_view(curve@)) {
                Some(rs) => spec_variance(rs) is None || spec_variance(negatives(rs)) is None,
                None => true,
            },
        },
{
    let rets = match equity_returns(curve) {
        Some(v) => v,
        None => {
            return None;
        },
    };
    let down = negatives_of(&rets);
    match (variance(&rets), variance(&down)) {
        (Some(a), Some(b)) => Some((a, b)),
        _ => None,
    }
}

fn opt_ratio(n: Option<Dec>, d: Option<Dec>) -> (r: Option<Dec>)
    ensures
        opt_view(r) == ratio_o(opt_view(n), opt_view(d)),
{
    match (n, d) {
        (Some(x), Some(y)) => ratio(x, y),
        _ => None,
    }
}

pub open spec fn pairs_view(v: Seq<(String, String)>) -> Seq<(Seq<char>, Seq<char>)> {
    v.map_values(|e: (String, String)| (e.0@, e.1@))
}

/// The metrics of a run, by name in name order.
pub fn metrics(
    trades: &Vec<Trade>,
    curve: &Vec<EquityPoint>,
    initial_equity: Dec,
    seeds: (Dec, Dec),
) -> (r: Option<Vec<(String, String)>>)
    ensures
        match r {
            Some(v) => spec_metrics(
                trades_view(trades@),
                curve_view(curve@),
                initial_equity@,
                (seeds.0@, seeds.1@),
            ) == Some(pairs_view(v@)),
            None => spec_metrics(
                trades_view(trades@),
                curve_view(curve@),
                initial_equity@,
                (seeds.0@, seeds.1@),
            ) is None,
        },
{
    let pnls = pnls_of(trades);
    let n = trades.len();
    let total = sum_decimals(&pnls);
    let (gross_profit, wins) = sum_wins_of(&pnls);
    let gross_loss = sum_losses_of(&pnls);
    let win_rate = if n == 0 {
        Some(Dec::zero())
    } else {
        opt_div(Some(dec_count(wins)), Some(dec_count(n)))
    };
    let expectancy = if n == 0 {
        Some(Dec::zero())
    } else {
        opt_div(total, Some(dec_count(n)))
    };
    let avg_rr = average(&rrs_of(trades));
    let rets = match equity_returns(curve) {
        Some(v) => v,
        None => {
            return None;
        },
    };
    let down = negatives_of(&rets);
    let avg_r = average(&rets);
    let hundred = Some(Dec::new(100, 0));
    let sharpe = opt_mul(opt_ratio(avg_r, stddev(&rets, seeds.0)), hundred);
    let sortino = opt_mul(opt_ratio(avg_r, stddev(&down, seeds.1)), hundred);
    let max_dd = max_drawdown_of(curve);
    let calmar = opt_ratio(
        opt_div(total, Some(initial_equity)),
        opt_div(Some(max_dd), hundred),
    );
    let profit_factor = opt_ratio(gross_profit, gross_loss);
    let cagr = opt_div(total, Some(initial_equity));
    let time_in_market = if curve.len() == 0 {
        Some(Dec::zero())
    } else {
        opt_div(Some(dec_count(n)), Some(dec_count(curve.len())))
    };
    match (
        total,
        win_rate,
        expectancy,
        avg_rr,
        sharpe,
        sortino,
        calmar,
        profit_factor,
        cagr,
        time_in_market,
    ) {
        (
            Some(t),
            Some(w),
            Some(e),
            Some(a),
            Some(sh),
            Some(so),
            Some(ca),
            Some(pf),
            Some(cg),
            Some(tm),
        ) => {
            let mut out: Vec<(String, String)> = Vec::new();
            out.push(("avg_rr".to_string(), fmt(a)));
            out.push(("cagr".to_string(), fmt(cg)));
            out.push(("calmar".to_string(), fmt(ca)));
            out.push(("expectancy".to_string(), fmt(e)));
            out.push(("max_dd_pct".to_string(), fmt(max_dd)));
            out.push(("net_pnl".to_string(), fmt(t)));
            out.push(("profit_factor".to_string(), fmt(pf)));
            out.push(("sharpe".to_string(), fmt(sh)));
            out.push(("sortino".to_string(), fmt(so)));
            out.push(("time_in_market".to_string(), fmt(tm)));
            out.push(("trade_count".to_string(), crate::text::u64_text(n as u64)));
            out.push(("win_rate".to_string(), fmt(w)));
            assert(pairs_view(out@) =~= seq![
                ("avg_rr"@, fmt_text(a@)),
                ("cagr"@, fmt_text(cg@)),
                ("calmar"@, fmt_text(ca@)),
                ("expectancy"@, fmt_text(e@)),
                ("max_dd_pct"@, fmt_text(max_dd@)),
                ("net_pnl"@, fmt_text(t@)),
                ("profit_factor"@, fmt_text(pf@)),
                ("sharpe"@, fmt_text(sh@)),
                ("sortino"@, fmt_text(so@)),
                ("time_in_market"@, fmt_text(tm@)),
                ("trade_count"@, crate::text::nat_text(n as nat)),
                ("win_rate"@, fmt_text(w@)),
            ]);
            Some(out)
        },
        _ => None,
    }
}

/// `label` followed by the report text of `value`.
pub open spec fn labeled(label: Seq<char>, value: (int, nat)) -> Seq<char> {
    label + fmt_text(value)
}

fn labeled_text(label: &str, value: Dec) -> (r: String)
    ensures
        r@ == labeled(label@, value@),
{
    concat(label, fmt(value).as_str())
}

/// The fee model as the report describes it.
pub open spec fn fee_model_text(snap: MarketSnapshot) -> Seq<char> {
    labeled("maker_bps="@, snap.fees.maker_bps@) + labeled(",taker_bps="@, snap.fees.taker_bps@)
}

/// The contract as the report describes it.
pub open spec fn contract_text(snap: MarketSnapshot) -> Seq<char> {
    labeled("tick_size="@, snap.contract.tick_size@) + labeled(
        ",lot_size="@,
        snap.contract.lot_size@,
    ) + labeled(",min_notional="@, snap.contract.min_notional@) + labeled(
        ",max_leverage="@,
        snap.contract.max_leverage@,
    ) + labeled(",maintenance_margin_bps="@, snap.contract.maintenance_margin_bps@)
}

/// The versions a run records, by name in name order.
pub open spec fn lib_versions(spec_hash: Seq<char>, symbol: Seq<char>, snap: MarketSnapshot) -> Seq<
    (Seq<char>, Seq<char>),
> {
    seq![
        ("exec-rs"@, "0.1.0"@),
        ("rust_decimal"@, "1.41.0"@),
        ("spec_hash"@, spec_hash),
        ("strategy-spec"@, "workspace"@),
        ("symbol"@, symbol),
        ("timeframe"@, snap.timeframe@),
        ("venue"@, snap.venue@),
    ]
}

/// What `build_kpis` answers: the metrics, and the assumptions of the run as the report
/// writes them.
pub open spec fn kpis_answer(
    config: BacktestConfig,
    snapshot: MarketSnapshot,
    trades: Seq<Trade>,
    curve: Seq<EquityPoint>,
    spec_hash: Seq<char>,
    symbol: Seq<char>,
    sqrt_seeds: (Dec, Dec),
    r: Option<KpiBundle>,
) -> bool {
    match r {
        Some(k) => {
            &&& spec_metrics(
                trades_view(trades),
                curve_view(curve),
                config.initial_equity@,
                (sqrt_seeds.0@, sqrt_seeds.1@),
            ) == Some(pairs_view(k.metrics@))
            &&& k.meta.data_snapshot_id@ == snapshot.data_snapshot_id@
            &&& k.meta.fee_model@ == fee_model_text(snapshot)
            &&& k.meta.slippage_model@ == labeled("bps="@, snapshot.slippage.bps@)
            &&& k.meta.intrabar_assumption == snapshot.slippage.intrabar
            &&& k.meta.funding_model@ == labeled("bps_per_day="@, snapshot.funding.bps_per_day@)
            &&& k.meta.contract_spec@ == contract_text(snapshot)
            &&& pairs_view(k.meta.lib_versions@) == lib_versions(spec_hash, symbol, snapshot)
            &&& k.meta.image_digest@ == config.image_digest@
            &&& k.meta.seeds@ == seq![config.seed]
        },
        None => spec_metrics(
            trades_view(trades),
            curve_view(curve),
            config.initial_equity@,
            (sqrt_seeds.0@, sqrt_seeds.1@),
        ) is None,
    }
}

/// The metrics of a run and the assumptions it was made under.
pub fn build_kpis(
    config: &BacktestConfig,
    snapshot: &MarketSnapshot,
    trades: &Vec<Trade>,
    curve: &Vec<EquityPoint>,
    spec_hash: &str,
    symbol: &str,
    sqrt_seeds: (Dec, Dec),
) -> (r: Option<KpiBundle>)
    ensures
        kpis_answer(*config, *snapshot, trades@, curve@, spec_hash@, symbol@, sqrt_seeds, r),
{
    let metrics = match metrics(trades, curve, config.initial_equity, sqrt_seeds) {
        Some(m) => m,
        None => {
            return None;
        },
    };
    let fee_model = concat(
        labeled_text("maker_bps=", snapshot.fees.maker_bps).as_str(),
        labeled_text(",taker_bps=", snapshot.fees.taker_bps).as_str(),
    );
    let c = &snapshot.contract;
    let contract_spec = concat(
        concat(
            concat(
                concat(
                    labeled_text("tick_size=", c.tick_size).as_str(),
                    labeled_text(",lot_size=", c.lot_size).as_str(),
                ).as_str(),
                labeled_text(",min_notional=", c.min_notional).as_str(),
            ).as_str(),
            labeled_text(",max_leverage=", c.max_leverage).as_str(),
        ).as_str(),
        labeled_text(",maintenance_margin_bps=", c.maintenance_margin_bps).as_str(),
    );
    let mut versions: Vec<(String, String)> = Vec::new();
    versions.push(("exec-rs".to_string(), "0.1.0".to_string()));
    versions.push(("rust_decimal".to_string(), "1.41.0".to_string()));
    versions.push(("spec_hash".to_string(), spec_hash.to_string()));
    versions.push(("strategy-spec".to_string(), "workspace".to_string()));
    versions.push(("symbol".to_string(), symbol.to_string()));
    versions.push(("timeframe".to_string(), snapshot.timeframe.clone()));
    versions.push(("venue".to_string(), snapshot.venue.clone()));
    assert(pairs_view(versions@) =~= lib_versions(spec_hash@, symbol@, *snapshot));
    let mut seeds: Vec<u64> = Vec::new();
    seeds.push(config.seed);
    assert(seeds@ =~= seq![config.seed]);
    Some(
        KpiBundle {
            metrics,
            meta: BacktestMeta {
                data_snapshot_id: snapshot.data_snapshot_id.clone(),
                fee_model,
                slippage_model: labeled_text("bps=", snapshot.slippage.bps),
                intrabar_assumption: snapshot.slippage.intrabar,
                funding_model: labeled_text("bps_per_day=", snapshot.funding.bps_per_day),
                contract_spec,
                lib_versions: versions,
                image_digest: config.image_digest.clone(),
                seeds,
            },
        },
    )
}

/// The report of a run: its trades, curve and heatmap with the metrics built from them;
/// refused where the metrics overflow.
pub fn complete_backtest(
    run: BacktestRun,
    config: &BacktestConfig,
    snapshot: &MarketSnapshot,
    sqrt_seeds: (Dec, Dec),
) -> (r: Result<BacktestReport, String>)
    ensures
        match r {
            Ok(rep) => {
                &&& rep.spec_hash == run.spec_hash
                &&& rep.data_snapshot_id == run.data_snapshot_id
                &&& rep.equity_curve == run.equity_curve
                &&& rep.heatmap == run.heatmap
                &&& rep.trades == run.trades
                &&& kpis_answer(
                    *config,
                    *snapshot,
                    run.trades@,
                    run.equity_curve@,
                    run.spec_hash@,
                    run.symbol@,
                    sqrt_seeds,
                    Some(rep.kpi_jsonb),
                )
            },
            Err(m) => m@ == "decimal arithmetic overflowed"@ && kpis_answer(
                *config,
                *snapshot,
                run.trades@,
                run.equity_curve@,
                run.spec_hash@,
                run.symbol@,
                sqrt_seeds,
                None,
            ),
        },
{
    let kpi = match build_kpis(
        config,
        snapshot,
        &run.trades,
        &run.equity_curve,
        run.spec_hash.as_str(),
        run.symbol.as_str(),
        sqrt_seeds,
    ) {
        Some(k) => k,
        None => {
            proof {
                reveal_strlit("decimal arithmetic overflowed");
            }
            return Err("decimal arithmetic overflowed".to_string());
        },
    };
    Ok(
        BacktestReport {
            spec_hash: run.spec_hash,
            data_snapshot_id: run.data_snapshot_id,
            kpi_jsonb: kpi,
            equity_curve: run.equity_curve,
            heatmap: run.heatmap,
            trades: run.trades,
        },
    )
}

} // verus!
