//! The trading rules a backtest reads from a Strategy Spec: entries (side, condition and
//! sizing) and exits (stop, take-profit and an optional trailing stop), and the risk a sizing
//! rule puts on a trade.
use crate::backtest::{spec_expr_parse, Expr, ExprParser, ExprTree, Side};
use crate::decimal::{div_o, min_o, mul_o, opt_div, opt_min, opt_mul, opt_view, Dec};
use crate::json::{
    parse_usize_path, parse_decimal_path, json_decimal, json_get, json_items, json_path, json_text,
    member_items, member_text, JsonValue,
};
use crate::signals::{count_param, decimal_param};
use crate::text::str_eq;
use vstd::prelude::*;

verus! {

/// How a stop is placed.
pub enum StopRuleView {
    Atr(Option<Seq<char>>, (int, nat)),
    Percent((int, nat)),
    Swing(nat),
}

/// How a take-profit is placed.
pub enum TakeProfitView {
    Rr((int, nat)),
    Percent((int, nat)),
    Atr(Option<Seq<char>>, (int, nat)),
}

/// How a trailing stop follows the price.
pub struct TrailingView {
    pub mode: Seq<char>,
    pub indicator_id: Option<Seq<char>>,
    pub mult: (int, nat),
    pub lookback: nat,
}

pub struct ExitRulesView {
    pub stop: StopRuleView,
    pub take_profit: TakeProfitView,
    pub trailing: Option<TrailingView>,
}

pub struct SizeView {
    pub kind: Seq<char>,
    pub value: (int, nat),
    pub kelly_cap: Option<(int, nat)>,
}

pub struct EntryView {
    pub side: Side,
    pub when: ExprTree,
    pub size: SizeView,
}

/// A stop: `atr_mult` ATRs away (of a named ATR or the fallback), a percentage away, or
/// beyond the swing of the last `lookback` candles.
#[derive(Debug)]
pub enum StopRule {
    Atr { indicator_id: Option<String>, mult: Dec },
    Percent(Dec),
    Swing { lookback: usize },
}

/// A take-profit: a multiple of the risk, a percentage away, or ATRs away.
#[derive(Debug)]
pub enum TakeProfitRule {
    Rr(Dec),
    Percent(Dec),
    Atr { indicator_id: Option<String>, mult: Dec },
}

/// A trailing stop: `atr` mode trails the extreme by `mult` ATRs; `swing` and `order_block`
/// trail the swing of the last `lookback` candles.
#[derive(Debug)]
pub struct TrailingExit {
    pub mode: String,
    pub indicator_id: Option<String>,
    pub mult: Dec,
    pub lookback: usize,
}

#[derive(Debug)]
pub struct ExitRules {
    pub stop: StopRule,
    pub take_profit: TakeProfitRule,
    pub trailing: Option<TrailingExit>,
}

/// How much of the equity a trade risks.
#[derive(Debug)]
pub struct SizeRule {
    pub kind: String,
    pub value: Dec,
    pub kelly_cap: Option<Dec>,
}

#[derive(Debug)]
pub struct EntryRule {
    pub side: Side,
    pub when: Expr,
    pub size: SizeRule,
}

pub open spec fn opt_string(x: Option<String>) -> Option<Seq<char>> {
    match x {
        Some(s) => Some(s@),
        None => None,
    }
}

impl View for StopRule {
    type V = StopRuleView;

    open spec fn view(&self) -> StopRuleView {
        match *self {
            StopRule::Atr { indicator_id, mult } => StopRuleView::Atr(opt_string(indicator_id), mult@),
            StopRule::Percent(p) => StopRuleView::Percent(p@),
            StopRule::Swing { lookback } => StopRuleView::Swing(lookback as nat),
        }
    }
}

impl View for TakeProfitRule {
    type V = TakeProfitView;

    open spec fn view(&self) -> TakeProfitView {
        match *self {
            TakeProfitRule::Rr(r) => TakeProfitView::Rr(r@),
            TakeProfitRule::Percent(p) => TakeProfitView::Percent(p@),
            TakeProfitRule::Atr { indicator_id, mult } => TakeProfitView::Atr(
                opt_string(indicator_id),
                mult@,
            ),
        }
    }
}

impl View for TrailingExit {
    type V = TrailingView;

    open spec fn view(&self) -> TrailingView {
        TrailingView {
            mode: self.mode@,
            indicator_id: opt_string(self.indicator_id),
            mult: self.mult@,
            lookback: self.lookback as nat,
        }
    }
}

pub open spec fn opt_trailing(t: Option<TrailingExit>) -> Option<TrailingView> {
    match t {
        Some(x) => Some(x@),
        None => None,
    }
}

impl View for ExitRules {
    type V = ExitRulesView;

    open spec fn view(&self) -> ExitRulesView {
        ExitRulesView {
            stop: self.stop@,
            take_profit: self.take_profit@,
            trailing: opt_trailing(self.trailing),
        }
    }
}

impl View for SizeRule {
    type V = SizeView;

    open spec fn view(&self) -> SizeView {
        SizeView { kind: self.kind@, value: self.value@, kelly_cap: opt_view(self.kelly_cap) }
    }
}

impl View for EntryRule {
    type V = EntryView;

    open spec fn view(&self) -> EntryView {
        EntryView { side: self.side, when: self.when@, size: self.size@ }
    }
}

fn copy_text(s: &Option<String>) -> (r: Option<String>)
    ensures
        opt_string(r) == opt_string(*s),
{
    match s {
        Some(x) => Some(x.clone()),
        None => None,
    }
}

impl TrailingExit {
    /// A copy of the trailing rule, for a position to carry.
    pub fn copy(&self) -> (r: TrailingExit)
        ensures
            r@ == self@,
    {
        TrailingExit {
            mode: self.mode.clone(),
            indicator_id: copy_text(&self.indicator_id),
            mult: self.mult,
            lookback: self.lookback,
        }
    }
}

// ---- exits ----

/// The text at `params.<key>` of an exit.
pub open spec fn param_text(e: JsonValue, key: Seq<char>) -> Option<Seq<char>> {
    json_text(json_path(e, seq!["params"@, key]))
}

/// The stop an exit declares, if it is one.
pub open spec fn stop_of(e: JsonValue) -> Option<StopRuleView> {
    match json_text(json_get(e, "kind"@)) {
        Some(k) => if k == "stop_atr"@ {
            Some(StopRuleView::Atr(param_text(e, "atr_id"@), decimal_param(e, "mult"@, (15int, 1nat))))
        } else if k == "stop_pct"@ {
            Some(StopRuleView::Percent(decimal_param(e, "pct"@, (1int, 0nat))))
        } else if k == "stop_swing"@ {
            Some(StopRuleView::Swing(count_param(e, "lookback"@, 20) as nat))
        } else {
            None
        },
        None => None,
    }
}

/// The take-profit an exit declares, if it is one; a multiple of the risk defaults to
/// `min_rr`.
pub open spec fn take_profit_of(e: JsonValue, min_rr: (int, nat)) -> Option<TakeProfitView> {
    match json_text(json_get(e, "kind"@)) {
        Some(k) => if k == "tp_rr"@ {
            Some(TakeProfitView::Rr(decimal_param(e, "rr"@, min_rr)))
        } else if k == "tp_pct"@ {
            Some(TakeProfitView::Percent(decimal_param(e, "pct"@, (3int, 0nat))))
        } else if k == "tp_atr"@ {
            Some(TakeProfitView::Atr(param_text(e, "atr_id"@), decimal_param(e, "mult"@, (3int, 0nat))))
        } else {
            None
        },
        None => None,
    }
}

/// The indicator a trailing stop names: `params.atr_id` where that key is there (a text or
/// nothing), else `params.ref_id`.
pub open spec fn trailing_id(e: JsonValue) -> Option<Seq<char>> {
    match json_get(e, "params"@) {
        Some(p) => match json_get(p, "atr_id"@) {
            Some(v) => json_text(Some(v)),
            None => json_text(json_get(p, "ref_id"@)),
        },
        None => None,
    }
}

/// The trailing stop an exit declares, if it is one.
pub open spec fn trailing_of(e: JsonValue) -> Option<TrailingView> {
    if json_text(json_get(e, "kind"@)) == Some("trailing"@) {
        Some(
            TrailingView {
                mode: match param_text(e, "mode"@) {
                    Some(m) => m,
                    None => "atr"@,
                },
                indicator_id: trailing_id(e),
                mult: decimal_param(e, "mult"@, (1int, 0nat)),
                lookback: count_param(e, "lookback"@, 10) as nat,
            },
        )
    } else {
        None
    }
}

pub open spec fn first_stop(items: Seq<JsonValue>) -> Option<StopRuleView>
    decreases items.len(),
{
    if items.len() == 0 {
        None
    } else {
        match stop_of(items[0]) {
            Some(r) => Some(r),
            None => first_stop(items.drop_first()),
        }
    }
}

pub open spec fn first_take_profit(items: Seq<JsonValue>, min_rr: (int, nat)) -> Option<
    TakeProfitView,
>
    decreases items.len(),
{
    if items.len() == 0 {
        None
    } else {
        match take_profit_of(items[0], min_rr) {
            Some(r) => Some(r),
            None => first_take_profit(items.drop_first(), min_rr),
        }
    }
}

pub open spec fn first_trailing(items: Seq<JsonValue>) -> Option<TrailingView>
    decreases items.len(),
{
    if items.len() == 0 {
        None
    } else {
        match trailing_of(items[0]) {
            Some(r) => Some(r),
            None => first_trailing(items.drop_first()),
        }
    }
}

/// The exits of a spec: the first stop it declares (1.5 fallback ATRs by default), the first
/// take-profit (`min_rr` times the risk by default), and the first trailing stop, if any.
pub open spec fn spec_parse_exit_rules(spec: JsonValue, min_rr: (int, nat)) -> ExitRulesView {
    let items = json_items(json_get(spec, "exits"@));
    ExitRulesView {
        stop: match first_stop(items) {
            Some(s) => s,
            None => StopRuleView::Atr(None, (15int, 1nat)),
        },
        take_profit: match first_take_profit(items, min_rr) {
            Some(t) => t,
            None => TakeProfitView::Rr(min_rr),
        },
        trailing: first_trailing(items),
    }
}

fn param_text_at<'a>(e: &'a JsonValue, key: &str) -> (r: Option<&'a str>)
    ensures
        match r {
            Some(s) => param_text(*e, key@) == Some(s@),
            None => param_text(*e, key@) is None,
        },
{
    let path: [&str; 2] = ["params", key];
    let found = crate::json::text_at(e, &path);
    assert(path@.map_values(|k: &str| k@) =~= seq!["params"@, key@]);
    found
}

fn owned(x: Option<&str>) -> (r: Option<String>)
    ensures
        opt_string(r) == crate::json::opt_text(x),
{
    match x {
        Some(s) => Some(s.to_string()),
        None => None,
    }
}

fn decimal_param_of(v: &JsonValue, key: &str, default: Dec) -> (r: Dec)
    ensures
        r@ == decimal_param(*v, key@, default@),
{
    let path: [&str; 2] = ["params", key];
    let found = parse_decimal_path(v, &path);
    assert(path@.map_values(|k: &str| k@) =~= seq!["params"@, key@]);
    match found {
        Some(d) => d,
        None => default,
    }
}

fn count_param_of(v: &JsonValue, key: &str, default: usize) -> (r: usize)
    ensures
        r as int == count_param(*v, key@, default as int),
{
    let path: [&str; 2] = ["params", key];
    let found = parse_usize_path(v, &path);
    assert(path@.map_values(|k: &str| k@) =~= seq!["params"@, key@]);
    match found {
        Some(n) => n,
        None => default,
    }
}

fn stop_rule_of(e: &JsonValue) -> (r: Option<StopRule>)
    ensures
        match r {
            Some(s) => stop_of(*e) == Some(s@),
            None => stop_of(*e) is None,
        },
{
    let kind = match member_text(e, "kind") {
        Some(k) => k,
        None => {
            return None;
        },
    };
    if str_eq(kind, "stop_atr") {
        Some(
            StopRule::Atr {
                indicator_id: owned(param_text_at(e, "atr_id")),
                mult: decimal_param_of(e, "mult", Dec::new(15, 1)),
            },
        )
    } else if str_eq(kind, "stop_pct") {
        Some(StopRule::Percent(decimal_param_of(e, "pct", Dec::new(1, 0))))
    } else if str_eq(kind, "stop_swing") {
        Some(StopRule::Swing { lookback: count_param_of(e, "lookback", 20) })
    } else {
        None
    }
}

fn take_profit_rule_of(e: &JsonValue, min_rr: Dec) -> (r: Option<TakeProfitRule>)
    ensures
        match r {
            Some(t) => take_profit_of(*e, min_rr@) == Some(t@),
            None => take_profit_of(*e, min_rr@) is None,
        },
{
    let kind = match member_text(e, "kind") {
        Some(k) => k,
        None => {
            return None;
        },
    };
    if str_eq(kind, "tp_rr") {
        Some(TakeProfitRule::Rr(decimal_param_of(e, "rr", min_rr)))
    } else if str_eq(kind, "tp_pct") {
        Some(TakeProfitRule::Percent(decimal_param_of(e, "pct", Dec::new(3, 0))))
    } else if str_eq(kind, "tp_atr") {
        Some(
            TakeProfitRule::Atr {
                indicator_id: owned(param_text_at(e, "atr_id")),
                mult: decimal_param_of(e, "mult", Dec::new(3, 0)),
            },
        )
    } else {
        None
    }
}

fn trailing_id_of(e: &JsonValue) -> (r: Option<String>)
    ensures
        opt_string(r) == trailing_id(*e),
{
    match e.get("params") {
        Some(p) => match p.get("atr_id") {
            Some(v) => owned(v.as_str()),
            None => match p.get("ref_id") {
                Some(v) => owned(v.as_str()),
                None => None,
            },
        },
        None => None,
    }
}

fn trailing_rule_of(e: &JsonValue) -> (r: Option<TrailingExit>)
    ensures
        opt_trailing(r) == trailing_of(*e),
{
    let is_trailing = match member_text(e, "kind") {
        Some(k) => str_eq(k, "trailing"),
        None => false,
    };
    proof {
        reveal_strlit("trailing");
    }
    if !is_trailing {
        return None;
    }
    let mode = match param_text_at(e, "mode") {
        Some(m) => m.to_string(),
        None => "atr".to_string(),
    };
    proof {
        reveal_strlit("atr");
    }
    Some(
        TrailingExit {
            mode,
            indicator_id: trailing_id_of(e),
            mult: decimal_param_of(e, "mult", Dec::one()),
            lookback: count_param_of(e, "lookback", 10),
        },
    )
}

/// Reads the exits of a spec.
pub fn parse_exit_rules(spec: &JsonValue, min_rr: Dec) -> (r: ExitRules)
    ensures
        r@ == spec_parse_exit_rules(*spec, min_rr@),
{
    let items = member_items(spec, "exits");
    let ghost all = items@;
    let n = items.len();
    assert(all.skip(0) =~= all);
    let mut stop: Option<StopRule> = None;
    let mut k: usize = 0;
    while k < n && stop.is_none()
        invariant
            k <= n == all.len(),
            all == items@,
            stop is None ==> first_stop(all) == first_stop(all.skip(k as int)),
            stop matches Some(x) ==> first_stop(all) == Some(x@),
        decreases n - k,
    {
        assert(all.skip(k as int).drop_first() =~= all.skip(k + 1));
        assert(all.skip(k as int)[0] == all[k as int]);
        stop = stop_rule_of(&items[k]);
        k = k + 1;
    }
    assert(all.skip(n as int) =~= Seq::<JsonValue>::empty());
    let stop = match stop {
        Some(s) => s,
        None => StopRule::Atr { indicator_id: None, mult: Dec::new(15, 1) },
    };
    let mut take_profit: Option<TakeProfitRule> = None;
    let mut k: usize = 0;
    while k < n && take_profit.is_none()
        invariant
            k <= n == all.len(),
            all == items@,
            take_profit is None ==> first_take_profit(all, min_rr@) == first_take_profit(all.skip(k as int), min_rr@),
            take_profit matches Some(x) ==> first_take_profit(all, min_rr@) == Some(x@),
        decreases n - k,
    {
        assert(all.skip(k as int).drop_first() =~= all.skip(k + 1));
        assert(all.skip(k as int)[0] == all[k as int]);
        take_profit = take_profit_rule_of(&items[k], min_rr);
        k = k + 1;
    }
    let take_profit = match take_profit {
        Some(t) => t,
        None => TakeProfitRule::Rr(min_rr),
    };
    let mut trailing: Option<TrailingExit> = None;
    let mut k: usize = 0;
    while k < n && trailing.is_none()
        invariant
            k <= n == all.len(),
            all == items@,
            trailing is None ==> first_trailing(all) == first_trailing(all.skip(k as int)),
            trailing is Some ==> first_trailing(all) == opt_trailing(trailing),
        decreases n - k,
    {
        assert(all.skip(k as int).drop_first() =~= all.skip(k + 1));
        assert(all.skip(k as int)[0] == all[k as int]);
        trailing = trailing_rule_of(&items[k]);
        k = k + 1;
    }
    ExitRules { stop, take_profit, trailing }
}

// ---- entries ----

/// An entry of the spec: a side, a condition and a sizing rule (`risk_pct` at 0.5 unless it
/// says otherwise), or the reason it cannot be read.
pub open spec fn entry_of(e: JsonValue) -> Result<EntryView, Seq<char>> {
    let side = match json_text(json_get(e, "side"@)) {
        Some(s) => if s == "long"@ {
            Some(Side::Long)
        } else if s == "short"@ {
            Some(Side::Short)
        } else {
            None
        },
        None => None,
    };
    match side {
        None => Err("entry side must be long or short"@),
        Some(sd) => match json_text(json_get(e, "when"@)) {
            None => Err("entry.when is required"@),
            Some(w) => match json_get(e, "size"@) {
                None => Err("entry.size is required"@),
                Some(size) => match spec_expr_parse(w) {
                    Err(m) => Err(m),
                    Ok(t) => Ok(
                        EntryView {
                            side: sd,
                            when: t,
                            size: SizeView {
                                kind: match json_text(json_get(size, "kind"@)) {
                                    Some(k) => k,
                                    None => "risk_pct"@,
                                },
                                value: match json_decimal(json_path(size, seq!["value"@])) {
                                    Some(v) => v,
                                    None => (5int, 1nat),
                                },
                                kelly_cap: json_decimal(json_path(size, seq!["kelly_cap"@])),
                            },
                        },
                    ),
                },
            },
        },
    }
}

/// The entries in order, or the first reason one cannot be read.
pub open spec fn entries_of(items: Seq<JsonValue>) -> Result<Seq<EntryView>, Seq<char>>
    decreases items.len(),
{
    if items.len() == 0 {
        Ok(Seq::empty())
    } else {
        match entries_of(items.drop_last()) {
            Err(m) => Err(m),
            Ok(es) => match entry_of(items.last()) {
                Err(m) => Err(m),
                Ok(e) => Ok(es.push(e)),
            },
        }
    }
}

/// The entries of a spec; a spec without one is refused.
pub open spec fn spec_parse_entries(spec: JsonValue) -> Result<Seq<EntryView>, Seq<char>> {
    match entries_of(json_items(json_get(spec, "entries"@))) {
        Err(m) => Err(m),
        Ok(es) => if es.len() == 0 {
            Err("at least one entry rule is required"@)
        } else {
            Ok(es)
        },
    }
}

pub open spec fn entries_view(v: Seq<EntryRule>) -> Seq<EntryView> {
    v.map_values(|e: EntryRule| e@)
}

proof fn lemma_entries_err(items: Seq<JsonValue>, a: int)
    requires
        0 <= a <= items.len(),
        entries_of(items.take(a)) is Err,
    ensures
        entries_of(items) == entries_of(items.take(a)),
    decreases items.len() - a,
{
    if a < items.len() {
        assert(items.take(a + 1).drop_last() =~= items.take(a));
        lemma_entries_err(items, a + 1);
    } else {
        assert(items.take(a) =~= items);
    }
}

fn entry_rule_of(e: &JsonValue) -> (r: Result<EntryRule, String>)
    ensures
        match r {
            Ok(x) => entry_of(*e) == Ok::<EntryView, Seq<char>>(x@),
            Err(m) => entry_of(*e) == Err::<EntryView, Seq<char>>(m@),
        },
{
    proof {
        reveal_strlit("entry side must be long or short");
        reveal_strlit("entry.when is required");
        reveal_strlit("entry.size is required");
        reveal_strlit("risk_pct");
    }
    let side = match member_text(e, "side") {
        Some(s) => Side::from_str(s),
        None => None,
    };
    let side = match side {
        Some(sd) => sd,
        None => {
            return Err("entry side must be long or short".to_string());
        },
    };
    let when = match member_text(e, "when") {
        Some(w) => w,
        None => {
            return Err("entry.when is required".to_string());
        },
    };
    let size = match e.get("size") {
        Some(z) => z,
        None => {
            return Err("entry.size is required".to_string());
        },
    };
    let when = match ExprParser::new(when).parse() {
        Ok(t) => t,
        Err(m) => {
            return Err(m);
        },
    };
    let kind = match member_text(size, "kind") {
        Some(k) => k.to_string(),
        None => "risk_pct".to_string(),
    };
    let value_path: [&str; 1] = ["value"];
    let cap_path: [&str; 1] = ["kelly_cap"];
    let value = parse_decimal_path(size, &value_path);
    let kelly_cap = parse_decimal_path(size, &cap_path);
    assert(value_path@.map_values(|k: &str| k@) =~= seq!["value"@]);
    assert(cap_path@.map_values(|k: &str| k@) =~= seq!["kelly_cap"@]);
    let value = match value {
        Some(v) => v,
        None => Dec::new(5, 1),
    };
    Ok(EntryRule { side, when, size: SizeRule { kind, value, kelly_cap } })
}

/// Reads the entries of a spec.
pub fn parse_entries(spec: &JsonValue) -> (r: Result<Vec<EntryRule>, String>)
    ensures
        match r {
            Ok(v) => spec_parse_entries(*spec) == Ok::<Seq<EntryView>, Seq<char>>(entries_view(v@)),
            Err(m) => spec_parse_entries(*spec) == Err::<Seq<EntryView>, Seq<char>>(m@),
        },
{
    let items = member_items(spec, "entries");
    let ghost all = items@;
    let mut out: Vec<EntryRule> = Vec::new();
    let mut k: usize = 0;
    assert(all.take(0) =~= Seq::<JsonValue>::empty());
    assert(entries_view(out@) =~= Seq::<EntryView>::empty());
    while k < items.len()
        invariant
            k <= all.len(),
            all == items@,
            all == json_items(json_get(*spec, "entries"@)),
            entries_of(all.take(k as int)) == Ok::<Seq<EntryView>, Seq<char>>(entries_view(out@)),
        decreases items.len() - k,
    {
        assert(all.take(k + 1).drop_last() =~= all.take(k as int));
        assert(all.take(k + 1).last() == all[k as int]);
        match entry_rule_of(&items[k]) {
            Ok(e) => {
                let ghost before = out@;
                out.push(e);
                assert(entries_view(out@) =~= entries_view(before).push(e@));
            },
            Err(m) => {
                proof {
                    lemma_entries_err(all, k + 1);
                }
                return Err(m);
            },
        }
        k = k + 1;
    }
    assert(all.take(k as int) =~= all);
    if out.len() == 0 {
        proof {
            reveal_strlit("at least one entry rule is required");
        }
        return Err("at least one entry rule is required".to_string());
    }
    Ok(out)
}

// ---- sizing ----

/// The amount a trade risks: `fixed_pct` and `vol_target` risk `value` percent of the equity
/// scaled by the stop distance over the price, `fixed_notional` risks `value` so scaled,
/// `kelly_fraction` risks the equity times `value` (capped by `kelly_cap`) so scaled, and
/// any other kind risks `value` percent of the equity.
pub open spec fn spec_risk_amount(
    size: SizeView,
    equity: (int, nat),
    entry_price: (int, nat),
    risk_per_unit: (int, nat),
) -> Option<(int, nat)> {
    let scale = div_o(Some(risk_per_unit), Some(entry_price));
    let pct = div_o(Some(size.value), Some((100int, 0nat)));
    if size.kind == "fixed_pct"@ || size.kind == "vol_target"@ {
        mul_o(mul_o(Some(equity), pct), scale)
    } else if size.kind == "fixed_notional"@ {
        mul_o(Some(size.value), scale)
    } else if size.kind == "kelly_fraction"@ {
        let cap = match size.kelly_cap {
            Some(c) => c,
            None => size.value,
        };
        mul_o(mul_o(Some(equity), min_o(Some(size.value), Some(cap))), scale)
    } else {
        mul_o(Some(equity), pct)
    }
}

/// The amount a trade risks under a sizing rule, `None` where that overflows.
pub fn position_risk_amount(size: &SizeRule, equity: Dec, entry_price: Dec, risk_per_unit: Dec) -> (r:
    Option<Dec>)
    ensures
        opt_view(r) == spec_risk_amount(size@, equity@, entry_price@, risk_per_unit@),
{
    let kind = size.kind.as_str();
    let hundred = Dec::new(100, 0);
    if str_eq(kind, "fixed_pct") || str_eq(kind, "vol_target") {
        opt_mul(
            opt_mul(Some(equity), opt_div(Some(size.value), Some(hundred))),
            opt_div(Some(risk_per_unit), Some(entry_price)),
        )
    } else if str_eq(kind, "fixed_notional") {
        opt_mul(Some(size.value), opt_div(Some(risk_per_unit), Some(entry_price)))
    } else if str_eq(kind, "kelly_fraction") {
        let cap = match size.kelly_cap {
            Some(c) => c,
            None => size.value,
        };
        opt_mul(
            opt_mul(Some(equity), opt_min(Some(size.value), Some(cap))),
            opt_div(Some(risk_per_unit), Some(entry_price)),
        )
    } else {
        opt_mul(Some(equity), opt_div(Some(size.value), Some(hundred)))
    }
}

} // verus!
