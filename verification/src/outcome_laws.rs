//! What single operations promise of their results over all inputs: the profit factor's
//! direction, the scorecard's walk-forward requirement, the absolute price drift of a
//! reconciliation, a trailing stop that only tightens, and the literals a `when` may name.
use crate::backtest::{EquityPoint, KpiBundle, Side, Trade};
use crate::decimal::{decimal_difference, decimal_product, decimal_quotient, num_gt, num_lt, present, sum_o, Dec};
use crate::engine::{fmt_text, spec_apply_trailing, trades_view, PositionView};
use crate::indicators::IndicatorsView;
use crate::kpis::{kpis_answer, pairs_view, pnls, sum_losses, sum_wins};
use crate::reconcile::{spec_reconcile, Reconciled, ReconciliationCheck};
use crate::snapshot::{BacktestConfig, Candle, MarketSnapshot};
use crate::strategy_spec::{
    present_ids, semantic_problems, syntax_problems, unknown_problems, entry_problems, when_text,
    when_tokens, SemanticProblem, SpecError, SpecOutline, problems_view,
};
use crate::text::{digit_char, nat_text};
use crate::validation::{reason_if, scorecard_reasons, texts, ScorecardResult, ScorecardThresholds, ValidationMetrics};
use vstd::prelude::*;

verus! {

// ---- the profit factor ----

/// The results that made money, in order.
pub open spec fn winning_results(xs: Seq<(int, nat)>) -> Seq<(int, nat)>
    decreases xs.len(),
{
    if xs.len() == 0 {
        seq![]
    } else if xs.last().0 > 0 {
        winning_results(xs.drop_last()).push(xs.last())
    } else {
        winning_results(xs.drop_last())
    }
}

/// The sizes of the results that lost money, in order.
pub open spec fn losing_sizes(xs: Seq<(int, nat)>) -> Seq<(int, nat)>
    decreases xs.len(),
{
    if xs.len() == 0 {
        seq![]
    } else if xs.last().0 < 0 {
        losing_sizes(xs.drop_last()).push((-xs.last().0, xs.last().1))
    } else {
        losing_sizes(xs.drop_last())
    }
}

proof fn lemma_sum_push(s: Seq<(int, nat)>, x: (int, nat))
    ensures
        sum_o(present(s.push(x))) == crate::decimal::add_o(sum_o(present(s)), Some(x)),
{
    assert(present(s.push(x)).drop_last() =~= present(s));
    assert(present(s.push(x)).last() == Some(x));
}

proof fn lemma_gross_profit(xs: Seq<(int, nat)>)
    ensures
        sum_wins(xs) == sum_o(present(winning_results(xs))),
    decreases xs.len(),
{
    if xs.len() > 0 {
        lemma_gross_profit(xs.drop_last());
        if xs.last().0 > 0 {
            lemma_sum_push(winning_results(xs.drop_last()), xs.last());
        }
    }
}

proof fn lemma_gross_loss(xs: Seq<(int, nat)>)
    ensures
        sum_losses(xs) == sum_o(present(losing_sizes(xs))),
    decreases xs.len(),
{
    if xs.len() > 0 {
        lemma_gross_loss(xs.drop_last());
        if xs.last().0 < 0 {
            lemma_sum_push(losing_sizes(xs.drop_last()), (-xs.last().0, xs.last().1));
        }
    }
}

/// The reported profit factor is the gross profit (the sum of the winning trades' results)
/// divided by the gross loss (the sum of the sizes of the losing trades' results), and zero
/// where the gross loss is zero.
pub proof fn law_profit_factor_is_gross_profit_over_gross_loss(
    config: BacktestConfig,
    snapshot: MarketSnapshot,
    trades: Seq<Trade>,
    curve: Seq<EquityPoint>,
    spec_hash: Seq<char>,
    symbol: Seq<char>,
    seeds: (Dec, Dec),
    k: KpiBundle,
)
    requires
        kpis_answer(config, snapshot, trades, curve, spec_hash, symbol, seeds, Some(k)),
    ensures
        ({
            let p = pnls(trades_view(trades));
            let gross_profit = sum_o(present(winning_results(p)));
            let gross_loss = sum_o(present(losing_sizes(p)));
            &&& gross_profit is Some
            &&& gross_loss is Some
            &&& gross_loss.unwrap().0 != 0 ==> decimal_quotient(
                gross_profit.unwrap(),
                gross_loss.unwrap(),
            ) is Some
            &&& pairs_view(k.metrics@).contains(
                (
                    "profit_factor"@,
                    fmt_text(
                        if gross_loss.unwrap().0 == 0 {
                            (0int, 0nat)
                        } else {
                            decimal_quotient(gross_profit.unwrap(), gross_loss.unwrap()).unwrap()
                        },
                    ),
                ),
            )
        }),
{
    let p = pnls(trades_view(trades));
    lemma_gross_profit(p);
    lemma_gross_loss(p);
    let ms = pairs_view(k.metrics@);
    assert(ms[6].0 == "profit_factor"@);
    assert(ms.contains(ms[6]));
}

proof fn lemma_win_count(xs: Seq<(int, nat)>)
    ensures
        crate::kpis::count_wins(xs) == winning_results(xs).len(),
    decreases xs.len(),
{
    if xs.len() > 0 {
        lemma_win_count(xs.drop_last());
    }
}

proof fn lemma_sum_all(xs: Seq<(int, nat)>)
    ensures
        sum_o(present(xs)) == sum_o(xs.map_values(|x: (int, nat)| Some(x))),
{
}

/// The metrics that the trades alone decide: the trade count; the net result as the sum of
/// every trade's result; the win rate as the winning trades over all trades and the
/// expectancy as the net result over all trades (both zero without trades); the time in
/// market as the trades over the points of the equity curve (zero for an empty curve).
pub proof fn law_trade_metrics(
    config: BacktestConfig,
    snapshot: MarketSnapshot,
    trades: Seq<Trade>,
    curve: Seq<EquityPoint>,
    spec_hash: Seq<char>,
    symbol: Seq<char>,
    seeds: (Dec, Dec),
    k: KpiBundle,
)
    requires
        kpis_answer(config, snapshot, trades, curve, spec_hash, symbol, seeds, Some(k)),
    ensures
        ({
            let p = pnls(trades_view(trades));
            let n = trades.len();
            let ms = pairs_view(k.metrics@);
            let net = sum_o(present(p));
            &&& net is Some
            &&& ms.contains(("net_pnl"@, fmt_text(net.unwrap())))
            &&& ms.contains(("trade_count"@, nat_text(n)))
            &&& ms.contains(
                (
                    "win_rate"@,
                    fmt_text(
                        if n == 0 {
                            (0int, 0nat)
                        } else {
                            crate::decimal::decimal_quotient(
                                (winning_results(p).len() as int, 0nat),
                                (n as int, 0nat),
                            ).unwrap()
                        },
                    ),
                ),
            )
            &&& ms.contains(
                (
                    "expectancy"@,
                    fmt_text(
                        if n == 0 {
                            (0int, 0nat)
                        } else {
                            crate::decimal::decimal_quotient(net.unwrap(), (n as int, 0nat)).unwrap()
                        },
                    ),
                ),
            )
            &&& ms.contains(
                (
                    "time_in_market"@,
                    fmt_text(
                        if curve.len() == 0 {
                            (0int, 0nat)
                        } else {
                            crate::decimal::decimal_quotient(
                                (n as int, 0nat),
                                (curve.len() as int, 0nat),
                            ).unwrap()
                        },
                    ),
                ),
            )
        }),
{
    let p = pnls(trades_view(trades));
    lemma_win_count(p);
    let ms = pairs_view(k.metrics@);
    assert(trades_view(trades).len() == trades.len());
    assert(p.len() == trades.len());
    assert(crate::engine::curve_view(curve).len() == curve.len());
    assert(ms.contains(ms[3]));
    assert(ms.contains(ms[5]));
    assert(ms.contains(ms[9]));
    assert(ms.contains(ms[10]));
    assert(ms.contains(ms[11]));
}

// ---- the trailing stop ----

/// A trailing stop only tightens: after it follows a candle, a long position's stop is at
/// least where it was and a short position's stop at most where it was.
pub proof fn law_trailing_stop_only_tightens(
    pos: PositionView,
    c: Seq<Candle>,
    ind: IndicatorsView,
    i: int,
    tick: (int, nat),
    after: PositionView,
)
    requires
        spec_apply_trailing(pos, c, ind, i, tick) == Some(after),
    ensures
        pos.side == Side::Long ==> !num_lt(after.stop_price, pos.stop_price),
        pos.side != Side::Long ==> !num_lt(pos.stop_price, after.stop_price),
        after.side == pos.side,
        after.qty == pos.qty,
        after.entry_price == pos.entry_price,
        after.take_profit_price == pos.take_profit_price,
        pos.trailing is None ==> after == pos,
        pos.trailing is Some ==> !num_lt(after.highest_price, pos.highest_price) && !num_lt(
            after.highest_price,
            c[i].high@,
        ),
        pos.trailing is Some ==> !num_lt(pos.lowest_price, after.lowest_price) && !num_lt(
            c[i].low@,
            after.lowest_price,
        ),
{
}

// ---- the scorecard's walk-forward requirement ----

/// The text does not begin with `w`.
pub open spec fn not_walk_initial(s: Seq<char>) -> bool {
    s.len() > 0 && s[0] != 'w'
}

proof fn lemma_digits_initial(n: nat)
    ensures
        not_walk_initial(nat_text(n)),
    decreases n,
{
    if n >= 10 {
        lemma_digits_initial(n / 10);
        assert(nat_text(n)[0] == nat_text(n / 10)[0]);
    } else {
        assert(digit_char(n) != 'w');
    }
}

proof fn lemma_literal_initial(lit: Seq<char>, rest: Seq<char>)
    requires
        not_walk_initial(lit),
    ensures
        not_walk_initial(lit + rest),
{
    assert((lit + rest)[0] == lit[0]);
}

/// Every reason but the walk-forward one begins with another letter than `w`.
proof fn lemma_reasons_initial(t: ScorecardThresholds, m: ValidationMetrics)
    requires
        !t.require_walk_forward,
    ensures
        forall|j: int|
            0 <= j < scorecard_reasons(t, m).len() ==> not_walk_initial(
                #[trigger] scorecard_reasons(t, m)[j],
            ),
{
    reveal_strlit("run lasted ");
    reveal_strlit("max drawdown ");
    reveal_strlit("slippage ");
    reveal_strlit("out-of-sample check failed");
    lemma_literal_initial("run lasted "@, nat_text(m.run_days as nat) + " days; required 7"@);
    assert(crate::validation::run_days_reason(m) =~= "run lasted "@ + (nat_text(m.run_days as nat)
        + " days; required 7"@));
    lemma_digits_initial(m.trades as nat);
    lemma_literal_initial(
        nat_text(m.trades as nat),
        " trades observed; required at least "@ + nat_text(t.min_trades as nat),
    );
    assert(crate::validation::trades_reason(t, m) =~= nat_text(m.trades as nat) + (
    " trades observed; required at least "@ + nat_text(t.min_trades as nat)));
    let dd = crate::validation::drawdown_reason(t, m);
    assert(dd[0] == 'm');
    let sl = crate::validation::slippage_reason(t, m);
    assert(sl[0] == 's');
    lemma_digits_initial(m.risk_guard_events as nat);
    let re = crate::validation::risk_events_reason(t, m);
    assert(re[0] == nat_text(m.risk_guard_events as nat)[0]);
    lemma_digits_initial(m.exec_errors as nat);
    let ee = crate::validation::exec_errors_reason(t, m);
    assert(ee[0] == nat_text(m.exec_errors as nat)[0]);
}

/// A run is only held to the walk-forward check when the thresholds require it: without that
/// requirement no reason `walk-forward check failed` is reported, and with it that reason is
/// reported exactly when the check failed.
pub proof fn law_walk_forward_only_when_required(
    t: ScorecardThresholds,
    m: ValidationMetrics,
    r: ScorecardResult,
)
    requires
        texts(r.reasons@) == scorecard_reasons(t, m),
        r.passed <==> r.reasons@.len() == 0,
    ensures
        !t.require_walk_forward ==> !texts(r.reasons@).contains("walk-forward check failed"@),
        t.require_walk_forward && !m.walk_forward_passed ==> texts(r.reasons@).contains(
            "walk-forward check failed"@,
        ),
        t.require_walk_forward && !m.walk_forward_passed ==> !r.passed,
{
    reveal_strlit("walk-forward check failed");
    if !t.require_walk_forward {
        lemma_reasons_initial(t, m);
        if texts(r.reasons@).contains("walk-forward check failed"@) {
            let j = choose|j: int|
                0 <= j < texts(r.reasons@).len() && texts(r.reasons@)[j]
                    == "walk-forward check failed"@;
            assert(not_walk_initial(scorecard_reasons(t, m)[j]));
        }
    }
    if t.require_walk_forward && !m.walk_forward_passed {
        let s = scorecard_reasons(t, m);
        let head = crate::validation::reason_if(m.run_days < 7, crate::validation::run_days_reason(m))
            + crate::validation::reason_if(m.trades < t.min_trades, crate::validation::trades_reason(t, m))
            + crate::validation::reason_if(
            num_gt(m.max_drawdown_pct@, t.max_drawdown_pct@),
            crate::validation::drawdown_reason(t, m),
        ) + crate::validation::reason_if(
            num_gt(m.slippage_bps_vs_backtest@, t.max_slippage_bps_vs_backtest@),
            crate::validation::slippage_reason(t, m),
        ) + crate::validation::reason_if(
            m.risk_guard_events > t.max_risk_guard_events,
            crate::validation::risk_events_reason(t, m),
        ) + crate::validation::reason_if(
            m.exec_errors > t.max_exec_errors,
            crate::validation::exec_errors_reason(t, m),
        );
        assert(s[head.len() as int] == "walk-forward check failed"@);
        assert(texts(r.reasons@).contains(s[head.len() as int]));
    }
}

/// Without the walk-forward requirement, the verdict and the reasons do not depend on
/// whether the walk-forward check passed.
pub proof fn law_walk_forward_ignored_unless_required(
    t: ScorecardThresholds,
    m1: ValidationMetrics,
    m2: ValidationMetrics,
    r1: ScorecardResult,
    r2: ScorecardResult,
)
    requires
        !t.require_walk_forward,
        m2 == (ValidationMetrics { walk_forward_passed: m2.walk_forward_passed, ..m1 }),
        texts(r1.reasons@) == scorecard_reasons(t, m1),
        r1.passed <==> r1.reasons@.len() == 0,
        texts(r2.reasons@) == scorecard_reasons(t, m2),
        r2.passed <==> r2.reasons@.len() == 0,
    ensures
        r1.passed == r2.passed,
        texts(r1.reasons@) == texts(r2.reasons@),
{
    assert(texts(r1.reasons@).len() == r1.reasons@.len());
    assert(texts(r2.reasons@).len() == r2.reasons@.len());
}

/// A run passes exactly when it lasted seven days, made the required trades, stayed within
/// the drawdown, slippage, risk-event and error limits, and passed each check the thresholds
/// require.
pub proof fn law_scorecard_passes_exactly_within_thresholds(
    t: ScorecardThresholds,
    m: ValidationMetrics,
    r: ScorecardResult,
)
    requires
        texts(r.reasons@) == scorecard_reasons(t, m),
        r.passed <==> r.reasons@.len() == 0,
    ensures
        r.passed <==> {
            &&& m.run_days >= 7
            &&& m.trades >= t.min_trades
            &&& !num_gt(m.max_drawdown_pct@, t.max_drawdown_pct@)
            &&& !num_gt(m.slippage_bps_vs_backtest@, t.max_slippage_bps_vs_backtest@)
            &&& m.risk_guard_events <= t.max_risk_guard_events
            &&& m.exec_errors <= t.max_exec_errors
            &&& (t.require_walk_forward ==> m.walk_forward_passed)
            &&& (t.require_oos ==> m.oos_passed)
        },
{
    assert(texts(r.reasons@).len() == r.reasons@.len());
    let a1 = reason_if(m.run_days < 7, crate::validation::run_days_reason(m));
    let a2 = reason_if(m.trades < t.min_trades, crate::validation::trades_reason(t, m));
    let a3 = reason_if(
        num_gt(m.max_drawdown_pct@, t.max_drawdown_pct@),
        crate::validation::drawdown_reason(t, m),
    );
    let a4 = reason_if(
        num_gt(m.slippage_bps_vs_backtest@, t.max_slippage_bps_vs_backtest@),
        crate::validation::slippage_reason(t, m),
    );
    let a5 = reason_if(
        m.risk_guard_events > t.max_risk_guard_events,
        crate::validation::risk_events_reason(t, m),
    );
    let a6 = reason_if(m.exec_errors > t.max_exec_errors, crate::validation::exec_errors_reason(t, m));
    let a7 = reason_if(t.require_walk_forward && !m.walk_forward_passed, "walk-forward check failed"@);
    let a8 = reason_if(t.require_oos && !m.oos_passed, "out-of-sample check failed"@);
    assert(scorecard_reasons(t, m) == a1 + a2 + a3 + a4 + a5 + a6 + a7 + a8);
    assert(scorecard_reasons(t, m).len() == a1.len() + a2.len() + a3.len() + a4.len() + a5.len()
        + a6.len() + a7.len() + a8.len());
}

// ---- the price drift of a reconciliation ----

/// The size of a decimal, whatever its sign.
pub open spec fn magnitude(d: (int, nat)) -> (int, nat) {
    (if d.0 < 0 { -d.0 } else { d.0 }, d.1)
}

/// A fill whose symbol, side and quantity agree, against a positive venue price, is judged
/// by its price drift `|local - exchange| / exchange * 10000`: beyond the limit it is a price
/// drift, else it matches.
pub proof fn law_price_drift_is_absolute(
    c: ReconciliationCheck,
    max_bps: (int, nat),
    qty_diff: (int, nat),
    diff: (int, nat),
    ratio: (int, nat),
    bps: (int, nat),
)
    requires
        c.local_symbol@ == c.exchange_symbol@,
        c.local_side == c.exchange_side,
        decimal_difference(c.local_qty@, c.exchange_qty@) == Some(qty_diff),
        qty_diff.0 == 0,
        c.exchange_price@.0 > 0,
        decimal_difference(c.local_price@, c.exchange_price@) == Some(diff),
        decimal_quotient(magnitude(diff), c.exchange_price@) == Some(ratio),
        decimal_product(ratio, (10000int, 0nat)) == Some(bps),
    ensures
        spec_reconcile(c, max_bps) == Some(
            if num_gt(bps, max_bps) {
                Reconciled::PriceDriftExcessive(bps)
            } else {
                Reconciled::Matched
            },
        ),
{
}

/// The drift does not depend on the side of the venue price the local price lies: two fills
/// alike but for a local price the same distance above and below give the same answer.
pub proof fn law_price_drift_is_symmetric(
    c1: ReconciliationCheck,
    c2: ReconciliationCheck,
    max_bps: (int, nat),
    diff: (int, nat),
)
    requires
        c2 == (ReconciliationCheck { local_price: c2.local_price, ..c1 }),
        decimal_difference(c1.local_price@, c1.exchange_price@) == Some(diff),
        decimal_difference(c2.local_price@, c2.exchange_price@) == Some((-diff.0, diff.1)),
    ensures
        spec_reconcile(c1, max_bps) == spec_reconcile(c2, max_bps),
{
    assert(magnitude(diff) == magnitude((-diff.0, diff.1)));
}

/// A reconciliation compares the symbol first, then the side, then the quantity: differing
/// symbols or sides are reported as such, and a quantity that differs by a nonzero amount is
/// a quantity mismatch carrying that amount's size.
pub proof fn law_reconcile_reports_first_disagreement(
    c: ReconciliationCheck,
    max_bps: (int, nat),
    qty_diff: (int, nat),
)
    ensures
        c.local_symbol@ != c.exchange_symbol@ ==> spec_reconcile(c, max_bps) == Some(
            Reconciled::SymbolMismatch(c.local_symbol@, c.exchange_symbol@),
        ),
        c.local_symbol@ == c.exchange_symbol@ && c.local_side != c.exchange_side ==> spec_reconcile(
            c,
            max_bps,
        ) == Some(Reconciled::SideMismatch(c.local_side, c.exchange_side)),
        c.local_symbol@ == c.exchange_symbol@ && c.local_side == c.exchange_side
            && decimal_difference(c.local_qty@, c.exchange_qty@) == Some(qty_diff) && qty_diff.0
            != 0 ==> spec_reconcile(c, max_bps) == Some(
            Reconciled::QtyMismatch(c.local_qty@, c.exchange_qty@, magnitude(qty_diff)),
        ),
        c.local_symbol@ == c.exchange_symbol@ && c.local_side == c.exchange_side
            && decimal_difference(c.local_qty@, c.exchange_qty@) == Some(qty_diff) && qty_diff.0
            == 0 && c.exchange_price@.0 <= 0 ==> spec_reconcile(c, max_bps) == Some(
            Reconciled::Matched,
        ),
{
}

// ---- the ids a `when` may name ----

/// Every identifier of every entry's `when` is a declared indicator or pattern id or one of
/// the literals `true` and `false`.
pub open spec fn whens_name_known_ids(o: SpecOutline) -> bool {
    let known = present_ids(o.indicator_ids@) + present_ids(o.pattern_ids@);
    forall|k: int, j: int|
        #![trigger when_tokens(when_text(o.entry_whens@[k]))[j]]
        0 <= k < o.entry_whens@.len() && 0 <= j < when_tokens(when_text(o.entry_whens@[k])).len()
            ==> {
            let tok = when_tokens(when_text(o.entry_whens@[k]))[j];
            tok == "true"@ || tok == "false"@ || known.contains(tok)
        }
}

proof fn lemma_no_unknown(toks: Seq<Seq<char>>, known: Seq<Seq<char>>, i: nat)
    requires
        forall|j: int|
            0 <= j < toks.len() ==> #[trigger] toks[j] == "true"@ || toks[j] == "false"@
                || known.contains(toks[j]),
    ensures
        unknown_problems(toks, known, i) == Seq::<(Seq<char>, Seq<char>, Option<Seq<char>>)>::empty(),
    decreases toks.len(),
{
    if toks.len() > 0 {
        let r = toks.drop_last();
        assert forall|j: int| 0 <= j < r.len() implies #[trigger] r[j] == "true"@ || r[j]
            == "false"@ || known.contains(r[j]) by {
            assert(r[j] == toks[j]);
        }
        lemma_no_unknown(r, known, i);
        assert(toks.last() == toks[toks.len() - 1]);
    }
}

/// The codes of the entries' problems where every identifier is known.
proof fn lemma_entry_codes(whens: Seq<Option<String>>, known: Seq<Seq<char>>)
    requires
        forall|k: int, j: int|
            #![trigger when_tokens(when_text(whens[k]))[j]]
            0 <= k < whens.len() && 0 <= j < when_tokens(when_text(whens[k])).len() ==> {
                let tok = when_tokens(when_text(whens[k]))[j];
                tok == "true"@ || tok == "false"@ || known.contains(tok)
            },
    ensures
        forall|j: int|
            0 <= j < entry_problems(whens, known).len() ==> (#[trigger] entry_problems(
                whens,
                known,
            )[j]).0 == "invalid_when_syntax"@,
    decreases whens.len(),
{
    if whens.len() > 0 {
        let r = whens.drop_last();
        assert forall|k: int, j: int|
            #![trigger when_tokens(when_text(r[k]))[j]]
            0 <= k < r.len() && 0 <= j < when_tokens(when_text(r[k])).len() implies {
            let tok = when_tokens(when_text(r[k]))[j];
            tok == "true"@ || tok == "false"@ || known.contains(tok)
        } by {
            assert(r[k] == whens[k]);
            let tok = when_tokens(when_text(whens[k]))[j];
            assert(tok == "true"@ || tok == "false"@ || known.contains(tok));
        }
        lemma_entry_codes(r, known);
        let i = (whens.len() - 1) as nat;
        let w = when_text(whens.last());
        let toks = when_tokens(w);
        assert forall|j: int| 0 <= j < toks.len() implies #[trigger] toks[j] == "true"@ || toks[j]
            == "false"@ || known.contains(toks[j]) by {
            assert(whens.last() == whens[whens.len() - 1]);
            let tok = when_tokens(when_text(whens[whens.len() - 1]))[j];
            assert(tok == "true"@ || tok == "false"@ || known.contains(tok));
        }
        lemma_no_unknown(toks, known, i);
        let e = entry_problems(whens, known);
        let a = entry_problems(r, known);
        let b = syntax_problems(w, i);
        assert(e =~= a + b + Seq::<(Seq<char>, Seq<char>, Option<Seq<char>>)>::empty());
        assert forall|j: int| 0 <= j < e.len() implies (#[trigger] e[j]).0
            == "invalid_when_syntax"@ by {
            if j >= a.len() {
                assert(e[j] == b[j - a.len()]);
            }
        }
    }
}

/// A `when` that names only declared indicator or pattern ids and the literals `true` and
/// `false` gives no `unknown_id` problem.
pub proof fn law_known_ids_raise_no_unknown_id(o: SpecOutline, r: Result<(), SpecError>)
    requires
        whens_name_known_ids(o),
        r is Ok <==> semantic_problems(o).len() == 0,
        r is Err ==> (r matches Err(SpecError::Semantic(ps)) && problems_view(ps@)
            == semantic_problems(o)),
    ensures
        forall|j: int|
            0 <= j < semantic_problems(o).len() ==> (#[trigger] semantic_problems(o)[j]).0
                != "unknown_id"@,
        r matches Err(SpecError::Semantic(ps)) ==> forall|j: int|
            0 <= j < ps@.len() ==> (#[trigger] ps@[j]).code@ != "unknown_id"@,
{
    let known = present_ids(o.indicator_ids@) + present_ids(o.pattern_ids@);
    lemma_entry_codes(o.entry_whens@, known);
    reveal_strlit("unknown_id");
    reveal_strlit("invalid_when_syntax");
    reveal_strlit("dup_indicator_id");
    reveal_strlit("dup_pattern_id");
    reveal_strlit("min_rr_below_three");
    let s = semantic_problems(o);
    let d1: Seq<(Seq<char>, Seq<char>, Option<Seq<char>>)> = if crate::strategy_spec::has_dup(
        present_ids(o.indicator_ids@),
    ) {
        seq![crate::strategy_spec::problem("dup_indicator_id"@, "indicator ids must be unique"@, "indicators"@)]
    } else {
        seq![]
    };
    let d2: Seq<(Seq<char>, Seq<char>, Option<Seq<char>>)> = if crate::strategy_spec::has_dup(
        present_ids(o.pattern_ids@),
    ) {
        seq![crate::strategy_spec::problem("dup_pattern_id"@, "pattern ids must be unique"@, "patterns"@)]
    } else {
        seq![]
    };
    let e = entry_problems(o.entry_whens@, known);
    let d3: Seq<(Seq<char>, Seq<char>, Option<Seq<char>>)> = if o.min_rr_below_three {
        seq![
            crate::strategy_spec::problem(
                "min_rr_below_three"@,
                "risk.min_rr must be >= 3 (Apostila methodology requires >= 3)"@,
                "risk.min_rr"@,
            ),
        ]
    } else {
        seq![]
    };
    assert(s =~= d1 + d2 + e + d3);
    assert forall|j: int| 0 <= j < s.len() implies (#[trigger] s[j]).0 != "unknown_id"@ by {
        if j < d1.len() {
            assert(s[j] == d1[j]);
            assert(d1[j].0.len() != "unknown_id"@.len());
        } else if j < d1.len() + d2.len() {
            assert(s[j] == d2[j - d1.len()]);
            assert(d2[j - d1.len()].0.len() != "unknown_id"@.len());
        } else if j < d1.len() + d2.len() + e.len() {
            assert(s[j] == e[j - d1.len() - d2.len()]);
            assert(e[j - d1.len() - d2.len()].0 == "invalid_when_syntax"@);
            assert("invalid_when_syntax"@.len() != "unknown_id"@.len());
        } else {
            assert(s[j] == d3[j - d1.len() - d2.len() - e.len()]);
            assert(d3[j - d1.len() - d2.len() - e.len()].0.len() != "unknown_id"@.len());
        }
    }
    match r {
        Err(SpecError::Semantic(ps)) => {
            assert forall|j: int| 0 <= j < ps@.len() implies (#[trigger] ps@[j]).code@
                != "unknown_id"@ by {
                assert(problems_view(ps@)[j] == crate::strategy_spec::problem_view(ps@[j]));
                assert(s[j].0 == ps@[j].code@);
            }
        },
        _ => {},
    }
}

/// Some problem of the list has the code `code`.
pub open spec fn has_code(ps: Seq<(Seq<char>, Seq<char>, Option<Seq<char>>)>, code: Seq<char>) -> bool {
    exists|q: int| 0 <= q < ps.len() && (#[trigger] ps[q]).0 == code
}

proof fn lemma_unknown_found(toks: Seq<Seq<char>>, known: Seq<Seq<char>>, i: nat, j: int)
    requires
        0 <= j < toks.len(),
        !(toks[j] == "true"@ || toks[j] == "false"@ || known.contains(toks[j])),
    ensures
        has_code(unknown_problems(toks, known, i), "unknown_id"@),
    decreases toks.len(),
{
    let u = unknown_problems(toks, known, i);
    if j == toks.len() - 1 {
        assert(toks.last() == toks[j]);
        assert(u.last().0 == "unknown_id"@);
        assert(u[u.len() - 1].0 == "unknown_id"@);
    } else {
        let r = toks.drop_last();
        assert(r[j] == toks[j]);
        lemma_unknown_found(r, known, i, j);
        let ur = unknown_problems(r, known, i);
        let q = choose|q: int| 0 <= q < ur.len() && (#[trigger] ur[q]).0 == "unknown_id"@;
        assert(u[q] == ur[q]);
    }
}

proof fn lemma_entry_unknown_found(whens: Seq<Option<String>>, known: Seq<Seq<char>>, k: int, j: int)
    requires
        0 <= k < whens.len(),
        0 <= j < when_tokens(when_text(whens[k])).len(),
        ({
            let tok = when_tokens(when_text(whens[k]))[j];
            !(tok == "true"@ || tok == "false"@ || known.contains(tok))
        }),
    ensures
        has_code(entry_problems(whens, known), "unknown_id"@),
    decreases whens.len(),
{
    let r = whens.drop_last();
    let i = (whens.len() - 1) as nat;
    let w = when_text(whens.last());
    let a = entry_problems(r, known);
    let b = syntax_problems(w, i);
    let u = unknown_problems(when_tokens(w), known, i);
    let e = entry_problems(whens, known);
    assert(e == a + b + u);
    if k == whens.len() - 1 {
        assert(whens.last() == whens[k]);
        lemma_unknown_found(when_tokens(w), known, i, j);
        let q = choose|q: int| 0 <= q < u.len() && (#[trigger] u[q]).0 == "unknown_id"@;
        assert(e[a.len() + b.len() + q] == u[q]);
    } else {
        assert(r[k] == whens[k]);
        lemma_entry_unknown_found(r, known, k, j);
        let q = choose|q: int| 0 <= q < a.len() && (#[trigger] a[q]).0 == "unknown_id"@;
        assert(e[q] == a[q]);
    }
}

/// A `when` that names an identifier that is neither a declared indicator or pattern id nor
/// `true` or `false` makes the check fail with an `unknown_id` problem.
pub proof fn law_unknown_id_is_reported(o: SpecOutline, r: Result<(), SpecError>, k: int, j: int)
    requires
        0 <= k < o.entry_whens@.len(),
        0 <= j < when_tokens(when_text(o.entry_whens@[k])).len(),
        ({
            let tok = when_tokens(when_text(o.entry_whens@[k]))[j];
            let known = present_ids(o.indicator_ids@) + present_ids(o.pattern_ids@);
            !(tok == "true"@ || tok == "false"@ || known.contains(tok))
        }),
        r is Ok <==> semantic_problems(o).len() == 0,
        r is Err ==> (r matches Err(SpecError::Semantic(ps)) && problems_view(ps@)
            == semantic_problems(o)),
    ensures
        has_code(semantic_problems(o), "unknown_id"@),
        r is Err,
{
    let known = present_ids(o.indicator_ids@) + present_ids(o.pattern_ids@);
    lemma_entry_unknown_found(o.entry_whens@, known, k, j);
    let e = entry_problems(o.entry_whens@, known);
    let q = choose|q: int| 0 <= q < e.len() && (#[trigger] e[q]).0 == "unknown_id"@;
    let s = semantic_problems(o);
    let d1: Seq<(Seq<char>, Seq<char>, Option<Seq<char>>)> = if crate::strategy_spec::has_dup(
        present_ids(o.indicator_ids@),
    ) {
        seq![crate::strategy_spec::problem("dup_indicator_id"@, "indicator ids must be unique"@, "indicators"@)]
    } else {
        seq![]
    };
    let d2: Seq<(Seq<char>, Seq<char>, Option<Seq<char>>)> = if crate::strategy_spec::has_dup(
        present_ids(o.pattern_ids@),
    ) {
        seq![crate::strategy_spec::problem("dup_pattern_id"@, "pattern ids must be unique"@, "patterns"@)]
    } else {
        seq![]
    };
    let d3: Seq<(Seq<char>, Seq<char>, Option<Seq<char>>)> = if o.min_rr_below_three {
        seq![
            crate::strategy_spec::problem(
                "min_rr_below_three"@,
                "risk.min_rr must be >= 3 (Apostila methodology requires >= 3)"@,
                "risk.min_rr"@,
            ),
        ]
    } else {
        seq![]
    };
    assert(s =~= d1 + d2 + e + d3);
    assert(s[d1.len() + d2.len() + q] == e[q]);
}

} // verus!
