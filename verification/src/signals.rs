//! What a Strategy Spec's entry conditions read at a candle: price patterns (Wyckoff, VSA,
//! market structure), filters, and whether each declared indicator has a value.
//!
//! A pattern or filter is `Some(true)` or `Some(false)`; it is `None` where the decimal
//! arithmetic it needs overflows.
use crate::backtest::{context_view, in_session, spec_in_session};
use crate::decimal::{
    div_o, mul_o, num_le, num_lt, opt_div, opt_mul, opt_sub, opt_view, parts_min, sub_o, Dec,
};
use crate::indicators::{
    series_lookup, value_at, IndicatorSeries, IndicatorsView,
};
use crate::json::{
    parse_usize_path, parse_decimal_path, json_count, json_decimal, json_get, json_items, json_path, json_text,
    member_items, member_text, text_at, JsonValue,
};
use crate::snapshot::Candle;
use crate::text::{concat, nat_text, str_eq, u64_text};
use vstd::prelude::*;
use vstd::utf8::encode_utf8;

verus! {

/// The lowest low of candles `lo..hi`, the first one where several are lowest (as
/// `Iterator::min` picks).
pub open spec fn lows_min(c: Seq<Candle>, lo: int, hi: int) -> (int, nat)
    decreases hi - lo,
{
    if hi <= lo + 1 {
        c[lo].low@
    } else {
        parts_min(lows_min(c, lo, hi - 1), c[hi - 1].low@)
    }
}

/// The larger of two, the second where they are equal (as `Iterator::max` picks the last).
pub open spec fn last_max(a: (int, nat), b: (int, nat)) -> (int, nat) {
    if num_lt(b, a) {
        a
    } else {
        b
    }
}

/// The highest high of candles `lo..hi`, the last one where several are highest.
pub open spec fn highs_max(c: Seq<Candle>, lo: int, hi: int) -> (int, nat)
    decreases hi - lo,
{
    if hi <= lo + 1 {
        c[lo].high@
    } else {
        last_max(highs_max(c, lo, hi - 1), c[hi - 1].high@)
    }
}

pub fn min_low(candles: &[Candle], lo: usize, hi: usize) -> (r: Dec)
    requires
        lo < hi <= candles@.len(),
    ensures
        r@ == lows_min(candles@, lo as int, hi as int),
{
    let mut m = candles[lo].low;
    let mut j = lo + 1;
    while j < hi
        invariant
            lo < j <= hi <= candles@.len(),
            m@ == lows_min(candles@, lo as int, j as int),
        decreases hi - j,
    {
        m = m.min(candles[j].low);
        j = j + 1;
    }
    m
}

pub fn max_high(candles: &[Candle], lo: usize, hi: usize) -> (r: Dec)
    requires
        lo < hi <= candles@.len(),
    ensures
        r@ == highs_max(candles@, lo as int, hi as int),
{
    let mut m = candles[lo].high;
    let mut j = lo + 1;
    while j < hi
        invariant
            lo < j <= hi <= candles@.len(),
            m@ == highs_max(candles@, lo as int, j as int),
        decreases hi - j,
    {
        let h = candles[j].high;
        if !h.lt(&m) {
            m = h;
        }
        j = j + 1;
    }
    m
}

/// A spring: the low pierces the lowest low of the last `lookback` candles (at most `i`, at
/// least two), the close recovers above it, and the piercing is at most `penetration` ATRs.
pub open spec fn spec_wyckoff_spring(
    c: Seq<Candle>,
    atr: Seq<Option<(int, nat)>>,
    i: int,
    lookback: int,
    penetration: (int, nat),
) -> Option<bool> {
    let eff = if lookback < i { lookback } else { i };
    if eff < 2 {
        Some(false)
    } else {
        let prior_low = lows_min(c, i - eff, i);
        match atr[i] {
            None => Some(false),
            Some(a) => if num_lt(c[i].low@, prior_low) && num_lt(prior_low, c[i].close@) {
                match sub_o(Some(prior_low), Some(c[i].low@)) {
                    Some(d) => match mul_o(Some(a), Some(penetration)) {
                        Some(lim) => Some(num_le(d, lim)),
                        None => None,
                    },
                    None => None,
                }
            } else {
                Some(false)
            },
        }
    }
}

pub fn wyckoff_spring(
    candles: &[Candle],
    atr: &[Option<Dec>],
    i: usize,
    lookback: usize,
    penetration: Dec,
) -> (r: Option<bool>)
    requires
        i < candles@.len(),
        atr@.len() == candles@.len(),
    ensures
        r == spec_wyckoff_spring(
            candles@,
            atr@.map_values(|x: Option<Dec>| opt_view(x)),
            i as int,
            lookback as int,
            penetration@,
        ),
{
    let ghost av = atr@.map_values(|x: Option<Dec>| opt_view(x));
    let eff = if lookback < i {
        lookback
    } else {
        i
    };
    if eff < 2 {
        return Some(false);
    }
    let c = &candles[i];
    let prior_low = min_low(candles, i - eff, i);
    assert(av[i as int] == opt_view(atr@[i as int]));
    match atr[i] {
        None => Some(false),
        Some(a) => {
            if c.low.lt(&prior_low) && prior_low.lt(&c.close) {
                let d = opt_sub(Some(prior_low), Some(c.low));
                let lim = opt_mul(Some(a), Some(penetration));
                match (d, lim) {
                    (Some(dv), Some(lv)) => Some(dv.le(&lv)),
                    _ => None,
                }
            } else {
                Some(false)
            }
        },
    }
}

/// An upthrust: the high pierces the highest high of the last `lookback` candles, the close
/// falls back below it, and the piercing is at most one ATR.
pub open spec fn spec_wyckoff_upthrust(
    c: Seq<Candle>,
    atr: Seq<Option<(int, nat)>>,
    i: int,
    lookback: int,
) -> Option<bool> {
    let eff = if lookback < i { lookback } else { i };
    if eff < 2 {
        Some(false)
    } else {
        let prior_high = highs_max(c, i - eff, i);
        match atr[i] {
            None => Some(false),
            Some(a) => if num_lt(prior_high, c[i].high@) && num_lt(c[i].close@, prior_high) {
                match sub_o(Some(c[i].high@), Some(prior_high)) {
                    Some(d) => Some(num_le(d, a)),
                    None => None,
                }
            } else {
                Some(false)
            },
        }
    }
}

pub fn wyckoff_upthrust(candles: &[Candle], atr: &[Option<Dec>], i: usize, lookback: usize) -> (r:
    Option<bool>)
    requires
        i < candles@.len(),
        atr@.len() == candles@.len(),
    ensures
        r == spec_wyckoff_upthrust(
            candles@,
            atr@.map_values(|x: Option<Dec>| opt_view(x)),
            i as int,
            lookback as int,
        ),
{
    let ghost av = atr@.map_values(|x: Option<Dec>| opt_view(x));
    let eff = if lookback < i {
        lookback
    } else {
        i
    };
    if eff < 2 {
        return Some(false);
    }
    let c = &candles[i];
    let prior_high = max_high(candles, i - eff, i);
    assert(av[i as int] == opt_view(atr@[i as int]));
    match atr[i] {
        None => Some(false),
        Some(a) => {
            if prior_high.lt(&c.high) && c.close.lt(&prior_high) {
                match opt_sub(Some(c.high), Some(prior_high)) {
                    Some(d) => Some(d.le(&a)),
                    None => None,
                }
            } else {
                Some(false)
            }
        },
    }
}

/// A quiet bar: a down bar (`up` false) or an up bar (`up` true) on volume at most `ratio`
/// times its average.
pub open spec fn spec_vsa_volume_bar(
    c: Seq<Candle>,
    vma: Seq<Option<(int, nat)>>,
    i: int,
    ratio: (int, nat),
    up: bool,
) -> Option<bool> {
    match vma[i] {
        None => Some(false),
        Some(ma) => {
            let direction = if up {
                num_lt(c[i].open@, c[i].close@)
            } else {
                num_lt(c[i].close@, c[i].open@)
            };
            if direction {
                match mul_o(Some(ma), Some(ratio)) {
                    Some(lim) => Some(num_le(c[i].volume@, lim)),
                    None => None,
                }
            } else {
                Some(false)
            }
        },
    }
}

fn vsa_volume_bar(
    candles: &[Candle],
    volume_ma: &[Option<Dec>],
    i: usize,
    ratio: Dec,
    up: bool,
) -> (r: Option<bool>)
    requires
        i < candles@.len(),
        volume_ma@.len() == candles@.len(),
    ensures
        r == spec_vsa_volume_bar(
            candles@,
            volume_ma@.map_values(|x: Option<Dec>| opt_view(x)),
            i as int,
            ratio@,
            up,
        ),
{
    let ghost vv = volume_ma@.map_values(|x: Option<Dec>| opt_view(x));
    assert(vv[i as int] == opt_view(volume_ma@[i as int]));
    let c = &candles[i];
    match volume_ma[i] {
        None => Some(false),
        Some(ma) => {
            let direction = if up {
                c.open.lt(&c.close)
            } else {
                c.close.lt(&c.open)
            };
            if direction {
                match opt_mul(Some(ma), Some(ratio)) {
                    Some(lim) => Some(c.volume.le(&lim)),
                    None => None,
                }
            } else {
                Some(false)
            }
        },
    }
}

/// No supply: a down bar on volume at most `ratio` times its average.
pub fn vsa_no_supply(candles: &[Candle], volume_ma: &[Option<Dec>], i: usize, ratio: Dec) -> (r:
    Option<bool>)
    requires
        i < candles@.len(),
        volume_ma@.len() == candles@.len(),
    ensures
        r == spec_vsa_volume_bar(
            candles@,
            volume_ma@.map_values(|x: Option<Dec>| opt_view(x)),
            i as int,
            ratio@,
            false,
        ),
{
    vsa_volume_bar(candles, volume_ma, i, ratio, false)
}

/// No demand: an up bar on volume at most `ratio` times its average.
pub fn vsa_no_demand(candles: &[Candle], volume_ma: &[Option<Dec>], i: usize, ratio: Dec) -> (r:
    Option<bool>)
    requires
        i < candles@.len(),
        volume_ma@.len() == candles@.len(),
    ensures
        r == spec_vsa_volume_bar(
            candles@,
            volume_ma@.map_values(|x: Option<Dec>| opt_view(x)),
            i as int,
            ratio@,
            true,
        ),
{
    vsa_volume_bar(candles, volume_ma, i, ratio, true)
}

/// Stopping or climactic volume: at least 1.5 times the average.
pub open spec fn spec_high_volume_bar(c: Seq<Candle>, vma: Seq<Option<(int, nat)>>, i: int) -> Option<
    bool,
> {
    match vma[i] {
        None => Some(false),
        Some(ma) => match mul_o(Some(ma), Some((15int, 1nat))) {
            Some(lim) => Some(num_le(lim, c[i].volume@)),
            None => None,
        },
    }
}

pub fn high_volume_bar(candles: &[Candle], volume_ma: &[Option<Dec>], i: usize) -> (r: Option<bool>)
    requires
        i < candles@.len(),
        volume_ma@.len() == candles@.len(),
    ensures
        r == spec_high_volume_bar(
            candles@,
            volume_ma@.map_values(|x: Option<Dec>| opt_view(x)),
            i as int,
        ),
{
    let ghost vv = volume_ma@.map_values(|x: Option<Dec>| opt_view(x));
    assert(vv[i as int] == opt_view(volume_ma@[i as int]));
    match volume_ma[i] {
        None => Some(false),
        Some(ma) => match opt_mul(Some(ma), Some(Dec::new(15, 1))) {
            Some(lim) => Some(lim.le(&candles[i].volume)),
            None => None,
        },
    }
}

/// Effort without result, or a test bar: a range no wider than the previous bar's on volume
/// at most average.
pub open spec fn spec_narrow_spread_low_volume(
    c: Seq<Candle>,
    vma: Seq<Option<(int, nat)>>,
    i: int,
) -> Option<bool> {
    if i == 0 {
        Some(false)
    } else {
        match sub_o(Some(c[i].high@), Some(c[i].low@)) {
            Some(spread) => match sub_o(Some(c[i - 1].high@), Some(c[i - 1].low@)) {
                Some(prev_spread) => match vma[i] {
                    Some(ma) => Some(num_le(spread, prev_spread) && num_le(c[i].volume@, ma)),
                    None => Some(false),
                },
                None => None,
            },
            None => None,
        }
    }
}

pub fn narrow_spread_low_volume(candles: &[Candle], volume_ma: &[Option<Dec>], i: usize) -> (r:
    Option<bool>)
    requires
        i < candles@.len(),
        volume_ma@.len() == candles@.len(),
    ensures
        r == spec_narrow_spread_low_volume(
            candles@,
            volume_ma@.map_values(|x: Option<Dec>| opt_view(x)),
            i as int,
        ),
{
    if i == 0 {
        return Some(false);
    }
    let ghost vv = volume_ma@.map_values(|x: Option<Dec>| opt_view(x));
    assert(vv[i as int] == opt_view(volume_ma@[i as int]));
    let spread = match opt_sub(Some(candles[i].high), Some(candles[i].low)) {
        Some(s) => s,
        None => {
            return None;
        },
    };
    let prev_spread = match opt_sub(Some(candles[i - 1].high), Some(candles[i - 1].low)) {
        Some(s) => s,
        None => {
            return None;
        },
    };
    match volume_ma[i] {
        Some(ma) => Some(spread.le(&prev_spread) && candles[i].volume.le(&ma)),
        None => Some(false),
    }
}

/// An order block: after a down bar, a close above its high (`demand`); after an up bar, a
/// close below its low (`supply`).
pub open spec fn spec_order_block(pattern: JsonValue, c: Seq<Candle>, i: int) -> bool {
    if i == 0 {
        false
    } else {
        let side = match json_text(json_path(pattern, seq!["params"@, "side"@])) {
            Some(s) => s,
            None => "demand"@,
        };
        let prev = c[i - 1];
        if side == "supply"@ {
            num_lt(prev.open@, prev.close@) && num_lt(c[i].close@, prev.low@)
        } else {
            num_lt(prev.close@, prev.open@) && num_lt(prev.high@, c[i].close@)
        }
    }
}

pub fn order_block(pattern: &JsonValue, candles: &[Candle], i: usize) -> (r: bool)
    requires
        i < candles@.len(),
    ensures
        r == spec_order_block(*pattern, candles@, i as int),
{
    if i == 0 {
        return false;
    }
    let path: [&str; 2] = ["params", "side"];
    let found = text_at(pattern, &path);
    assert(path@.map_values(|k: &str| k@) =~= seq!["params"@, "side"@]);
    let side = match found {
        Some(s) => s,
        None => "demand",
    };
    proof {
        reveal_strlit("demand");
    }
    let prev = &candles[i - 1];
    let c = &candles[i];
    if str_eq(side, "supply") {
        prev.open.lt(&prev.close) && c.close.lt(&prev.low)
    } else {
        prev.close.lt(&prev.open) && prev.high.lt(&c.close)
    }
}

/// A count parameter of a pattern or filter, or `default`.
pub open spec fn count_param(v: JsonValue, key: Seq<char>, default: int) -> int {
    match json_count(json_path(v, seq!["params"@, key])) {
        Some(n) => n as int,
        None => default,
    }
}

/// A decimal parameter of a pattern or filter, or `default`.
pub open spec fn decimal_param(v: JsonValue, key: Seq<char>, default: (int, nat)) -> (int, nat) {
    match json_decimal(json_path(v, seq!["params"@, key])) {
        Some(d) => d,
        None => default,
    }
}

fn count_param_at(v: &JsonValue, key: &str, default: usize) -> (r: usize)
    ensures
        r as int == count_param(*v, key@, default as int),
{
    let path: [&str; 2] = ["params", key];
    let found = parse_usize_path(v, &path);
    assert(path@.map_values(|k: &str| k@) =~= seq!["params"@, key@]);
    match found {
        Some(n) => n,
        None => default,
    }
}

fn decimal_param_at(v: &JsonValue, key: &str, default: Dec) -> (r: Dec)
    ensures
        r@ == decimal_param(*v, key@, default@),
{
    let path: [&str; 2] = ["params", key];
    let found = parse_decimal_path(v, &path);
    assert(path@.map_values(|k: &str| k@) =~= seq!["params"@, key@]);
    match found {
        Some(d) => d,
        None => default,
    }
}

/// The kind a pattern or filter names (empty where it names none).
pub open spec fn kind_of(v: JsonValue) -> Seq<char> {
    match json_text(json_get(v, "kind"@)) {
        Some(k) => k,
        None => ""@,
    }
}

/// Whether a pattern holds at candle `i`.
pub open spec fn spec_eval_pattern(pattern: JsonValue, c: Seq<Candle>, ind: IndicatorsView, i: int) -> Option<
    bool,
> {
    let kind = kind_of(pattern);
    if kind == "wyckoff_spring"@ {
        spec_wyckoff_spring(
            c,
            ind.atr,
            i,
            count_param(pattern, "lookback"@, 20),
            decimal_param(pattern, "penetration_atr"@, (5int, 1nat)),
        )
    } else if kind == "wyckoff_upthrust"@ {
        spec_wyckoff_upthrust(c, ind.atr, i, count_param(pattern, "lookback"@, 20))
    } else if kind == "vsa_no_supply"@ {
        spec_vsa_volume_bar(
            c,
            ind.volume_ma,
            i,
            decimal_param(pattern, "vol_ratio_max"@, (7int, 1nat)),
            false,
        )
    } else if kind == "vsa_no_demand"@ {
        spec_vsa_volume_bar(
            c,
            ind.volume_ma,
            i,
            decimal_param(pattern, "vol_ratio_max"@, (7int, 1nat)),
            true,
        )
    } else if kind == "vsa_stopping_volume"@ || kind == "vsa_climactic_volume"@ {
        spec_high_volume_bar(c, ind.volume_ma, i)
    } else if kind == "vsa_effort_no_result"@ || kind == "vsa_test_bar"@ {
        spec_narrow_spread_low_volume(c, ind.volume_ma, i)
    } else if kind == "order_block"@ {
        Some(spec_order_block(pattern, c, i))
    } else if kind == "liquidity_sweep"@ {
        match spec_wyckoff_spring(c, ind.atr, i, 20, (1int, 0nat)) {
            Some(true) => Some(true),
            Some(false) => spec_wyckoff_upthrust(c, ind.atr, i, 20),
            None => None,
        }
    } else if kind == "break_of_structure"@ {
        Some(i >= 5 && num_lt(highs_max(c, i - 5, i), c[i].close@))
    } else if kind == "change_of_character"@ {
        Some(i >= 5 && num_lt(c[i].close@, lows_min(c, i - 5, i)))
    } else {
        Some(false)
    }
}

/// The fallback series have a value slot for every candle.
pub open spec fn fits(ind: IndicatorsView, n: nat) -> bool {
    ind.atr.len() == n && ind.volume_ma.len() == n
}

fn kind_text(v: &JsonValue) -> (r: &str)
    ensures
        r@ == kind_of(*v),
{
    let k = match member_text(v, "kind") {
        Some(k) => k,
        None => "",
    };
    proof {
        reveal_strlit("");
    }
    k
}

/// Evaluates a pattern of the spec at candle `i`.
pub fn eval_pattern(pattern: &JsonValue, candles: &[Candle], ind: &IndicatorSeries, i: usize) -> (r:
    Option<bool>)
    requires
        i < candles@.len(),
        fits(ind@, candles@.len()),
    ensures
        r == spec_eval_pattern(*pattern, candles@, ind@, i as int),
{
    let kind = kind_text(pattern);
    let atr = ind.atr_fallback.as_slice();
    let vma = ind.volume_ma_fallback.as_slice();
    if str_eq(kind, "wyckoff_spring") {
        let lookback = count_param_at(pattern, "lookback", 20);
        let penetration = decimal_param_at(pattern, "penetration_atr", Dec::new(5, 1));
        wyckoff_spring(candles, atr, i, lookback, penetration)
    } else if str_eq(kind, "wyckoff_upthrust") {
        let lookback = count_param_at(pattern, "lookback", 20);
        wyckoff_upthrust(candles, atr, i, lookback)
    } else if str_eq(kind, "vsa_no_supply") {
        let ratio = decimal_param_at(pattern, "vol_ratio_max", Dec::new(7, 1));
        vsa_no_supply(candles, vma, i, ratio)
    } else if str_eq(kind, "vsa_no_demand") {
        let ratio = decimal_param_at(pattern, "vol_ratio_max", Dec::new(7, 1));
        vsa_no_demand(candles, vma, i, ratio)
    } else if str_eq(kind, "vsa_stopping_volume") || str_eq(kind, "vsa_climactic_volume") {
        high_volume_bar(candles, vma, i)
    } else if str_eq(kind, "vsa_effort_no_result") || str_eq(kind, "vsa_test_bar") {
        narrow_spread_low_volume(candles, vma, i)
    } else if str_eq(kind, "order_block") {
        Some(order_block(pattern, candles, i))
    } else if str_eq(kind, "liquidity_sweep") {
        match wyckoff_spring(candles, atr, i, 20, Dec::one()) {
            Some(true) => Some(true),
            Some(false) => wyckoff_upthrust(candles, atr, i, 20),
            None => None,
        }
    } else if str_eq(kind, "break_of_structure") {
        Some(i >= 5 && max_high(candles, i - 5, i).lt(&candles[i].close))
    } else if str_eq(kind, "change_of_character") {
        Some(i >= 5 && candles[i].close.lt(&min_low(candles, i - 5, i)))
    } else {
        Some(false)
    }
}

/// Whether a filter passes at candle `i`: a spread cap, a minimum price, a session window, a
/// volatility band (ATR as a percentage of the close); `weekday` and `regime` always pass,
/// any other kind never does.
pub open spec fn spec_eval_filter(filter: JsonValue, c: Seq<Candle>, ind: IndicatorsView, i: int) -> Option<
    bool,
> {
    let kind = kind_of(filter);
    let candle = c[i];
    if kind == "max_spread_bps"@ {
        let spread = match candle.spread_bps {
            Some(s) => s@,
            None => (0int, 0nat),
        };
        Some(num_le(spread, decimal_param(filter, "value"@, (999999int, 0nat))))
    } else if kind == "min_price"@ {
        Some(num_le(decimal_param(filter, "value"@, (0int, 0nat)), candle.close@))
    } else if kind == "session"@ {
        let window = match json_text(json_path(filter, seq!["params"@, "window"@])) {
            Some(w) => w,
            None => "00-23"@,
        };
        Some(spec_in_session(encode_utf8(candle.ts@), window))
    } else if kind == "weekday"@ || kind == "regime"@ {
        Some(true)
    } else if kind == "volatility"@ {
        match value_at(ind.atr, i) {
            None => Some(false),
            Some(a) => match mul_o(div_o(Some(a), Some(candle.close@)), Some((100int, 0nat))) {
                Some(pct) => Some(
                    num_le(decimal_param(filter, "min_pct"@, (0int, 0nat)), pct) && num_le(
                        pct,
                        decimal_param(filter, "max_pct"@, (999999int, 0nat)),
                    ),
                ),
                None => None,
            },
        }
    } else {
        Some(false)
    }
}

fn series_at(xs: &Vec<Option<Dec>>, i: usize) -> (r: Option<Dec>)
    ensures
        opt_view(r) == value_at(xs@.map_values(|x: Option<Dec>| opt_view(x)), i as int),
{
    if i < xs.len() {
        xs[i]
    } else {
        None
    }
}

/// Evaluates a filter of the spec at candle `i`.
pub fn eval_filter(filter: &JsonValue, candles: &[Candle], ind: &IndicatorSeries, i: usize) -> (r:
    Option<bool>)
    requires
        i < candles@.len(),
    ensures
        r == spec_eval_filter(*filter, candles@, ind@, i as int),
{
    let kind = kind_text(filter);
    let c = &candles[i];
    if str_eq(kind, "max_spread_bps") {
        let spread = match c.spread_bps {
            Some(s) => s,
            None => Dec::zero(),
        };
        Some(spread.le(&decimal_param_at(filter, "value", Dec::new(999999, 0))))
    } else if str_eq(kind, "min_price") {
        Some(decimal_param_at(filter, "value", Dec::zero()).le(&c.close))
    } else if str_eq(kind, "session") {
        let path: [&str; 2] = ["params", "window"];
        let found = text_at(filter, &path);
        assert(path@.map_values(|k: &str| k@) =~= seq!["params"@, "window"@]);
        let window = match found {
            Some(w) => w,
            None => "00-23",
        };
        proof {
            reveal_strlit("00-23");
        }
        Some(in_session(c.ts.as_str(), window))
    } else if str_eq(kind, "weekday") || str_eq(kind, "regime") {
        Some(true)
    } else if str_eq(kind, "volatility") {
        match series_at(&ind.atr_fallback, i) {
            None => Some(false),
            Some(a) => match opt_mul(opt_div(Some(a), Some(c.close)), Some(Dec::new(100, 0))) {
                Some(pct) => {
                    let min = decimal_param_at(filter, "min_pct", Dec::zero());
                    let max = decimal_param_at(filter, "max_pct", Dec::new(999999, 0));
                    Some(min.le(&pct) && pct.le(&max))
                },
                None => None,
            },
        }
    } else {
        Some(false)
    }
}

/// The facts of the indicators that have an `id`: whether each has a value at `i`.
pub open spec fn indicator_facts(items: Seq<JsonValue>, ind: IndicatorsView, i: int) -> Seq<
    (Seq<char>, bool),
>
    decreases items.len(),
{
    if items.len() == 0 {
        Seq::empty()
    } else {
        let rest = indicator_facts(items.drop_last(), ind, i);
        match json_text(json_get(items.last(), "id"@)) {
            Some(id) => rest.push(
                (
                    id,
                    match series_lookup(ind.values, id) {
                        Some(xs) => value_at(xs, i) is Some,
                        None => false,
                    },
                ),
            ),
            None => rest,
        }
    }
}

/// The facts of the patterns that have an `id`; `None` where one overflows.
pub open spec fn pattern_facts(items: Seq<JsonValue>, c: Seq<Candle>, ind: IndicatorsView, i: int) -> Option<
    Seq<(Seq<char>, bool)>,
>
    decreases items.len(),
{
    if items.len() == 0 {
        Some(Seq::empty())
    } else {
        match pattern_facts(items.drop_last(), c, ind, i) {
            Some(rest) => match json_text(json_get(items.last(), "id"@)) {
                Some(id) => match spec_eval_pattern(items.last(), c, ind, i) {
                    Some(b) => Some(rest.push((id, b))),
                    None => None,
                },
                None => Some(rest),
            },
            None => None,
        }
    }
}

/// The name of the filter at `k`: its kind, or `filter_k` where it names none.
pub open spec fn filter_name(filter: JsonValue, k: nat) -> Seq<char> {
    match json_text(json_get(filter, "kind"@)) {
        Some(s) => s,
        None => "filter_"@ + nat_text(k),
    }
}

/// The facts of the filters, named by kind; `None` where one overflows.
pub open spec fn filter_facts(items: Seq<JsonValue>, c: Seq<Candle>, ind: IndicatorsView, i: int) -> Option<
    Seq<(Seq<char>, bool)>,
>
    decreases items.len(),
{
    if items.len() == 0 {
        Some(Seq::empty())
    } else {
        match filter_facts(items.drop_last(), c, ind, i) {
            Some(rest) => match spec_eval_filter(items.last(), c, ind, i) {
                Some(b) => Some(rest.push((filter_name(items.last(), (items.len() - 1) as nat), b))),
                None => None,
            },
            None => None,
        }
    }
}

/// What the entry conditions read at candle `i`: the indicator facts, then the pattern facts,
/// then the filter facts (a later fact of the same name wins).
pub open spec fn spec_eval_context(spec: JsonValue, c: Seq<Candle>, ind: IndicatorsView, i: int) -> Option<
    Seq<(Seq<char>, bool)>,
> {
    match pattern_facts(json_items(json_get(spec, "patterns"@)), c, ind, i) {
        Some(ps) => match filter_facts(json_items(json_get(spec, "filters"@)), c, ind, i) {
            Some(fs) => Some(
                indicator_facts(json_items(json_get(spec, "indicators"@)), ind, i) + ps + fs,
            ),
            None => None,
        },
        None => None,
    }
}

proof fn lemma_facts_push(v: Seq<(String, bool)>, e: (String, bool))
    ensures
        context_view(v.push(e)) == context_view(v).push((e.0@, e.1)),
{
    assert(context_view(v.push(e)) =~= context_view(v).push((e.0@, e.1)));
}

proof fn lemma_pattern_facts_none(items: Seq<JsonValue>, c: Seq<Candle>, ind: IndicatorsView, i: int, a: int)
    requires
        0 <= a <= items.len(),
        pattern_facts(items.take(a), c, ind, i) is None,
    ensures
        pattern_facts(items, c, ind, i) is None,
    decreases items.len() - a,
{
    if a < items.len() {
        assert(items.take(a + 1).drop_last() =~= items.take(a));
        lemma_pattern_facts_none(items, c, ind, i, a + 1);
    } else {
        assert(items.take(a) =~= items);
    }
}

proof fn lemma_filter_facts_none(items: Seq<JsonValue>, c: Seq<Candle>, ind: IndicatorsView, i: int, a: int)
    requires
        0 <= a <= items.len(),
        filter_facts(items.take(a), c, ind, i) is None,
    ensures
        filter_facts(items, c, ind, i) is None,
    decreases items.len() - a,
{
    if a < items.len() {
        assert(items.take(a + 1).drop_last() =~= items.take(a));
        lemma_filter_facts_none(items, c, ind, i, a + 1);
    } else {
        assert(items.take(a) =~= items);
    }
}

fn has_value(ind: &IndicatorSeries, id: &str, i: usize) -> (r: bool)
    ensures
        r == match series_lookup(ind@.values, id@) {
            Some(xs) => value_at(xs, i as int) is Some,
            None => false,
        },
{
    let mut k = ind.values.len();
    let ghost all = ind@.values;
    assert(all.take(k as int) =~= all);
    while k > 0
        invariant
            k <= ind.values@.len(),
            all == ind@.values,
            series_lookup(all, id@) == series_lookup(all.take(k as int), id@),
        decreases k,
    {
        let ghost pre = all.take(k as int);
        assert(pre.drop_last() =~= all.take(k - 1));
        assert(pre.last() == all[k - 1]);
        if str_eq(ind.values[k - 1].0.as_str(), id) {
            let v = series_at(&ind.values[k - 1].1, i);
            return v.is_some();
        }
        k = k - 1;
    }
    assert(all.take(0) =~= Seq::<(Seq<char>, Seq<Option<(int, nat)>>)>::empty());
    false
}

/// The facts the entry conditions read at candle `i`.
pub fn eval_context(spec: &JsonValue, candles: &[Candle], ind: &IndicatorSeries, i: usize) -> (r:
    Option<Vec<(String, bool)>>)
    requires
        i < candles@.len(),
        fits(ind@, candles@.len()),
    ensures
        match r {
            Some(v) => spec_eval_context(*spec, candles@, ind@, i as int) == Some(context_view(v@)),
            None => spec_eval_context(*spec, candles@, ind@, i as int) is None,
        },
{
    let mut out: Vec<(String, bool)> = Vec::new();
    let indicators = member_items(spec, "indicators");
    let ghost inds = indicators@;
    let mut k: usize = 0;
    assert(inds.take(0) =~= Seq::<JsonValue>::empty());
    while k < indicators.len()
        invariant
            k <= inds.len(),
            inds == indicators@,
            context_view(out@) == indicator_facts(inds.take(k as int), ind@, i as int),
        decreases indicators.len() - k,
    {
        assert(inds.take(k + 1).drop_last() =~= inds.take(k as int));
        assert(inds.take(k + 1).last() == inds[k as int]);
        match member_text(&indicators[k], "id") {
            Some(id) => {
                let b = has_value(ind, id, i);
                let ghost before = out@;
                out.push((id.to_string(), b));
                proof {
                    lemma_facts_push(before, out@.last());
                }
            },
            None => {},
        }
        k = k + 1;
    }
    assert(inds.take(k as int) =~= inds);
    let ghost base = context_view(out@);
    let patterns = member_items(spec, "patterns");
    let ghost pats = patterns@;
    let mut k: usize = 0;
    assert(pats.take(0) =~= Seq::<JsonValue>::empty());
    assert(base + Seq::<(Seq<char>, bool)>::empty() =~= base);
    while k < patterns.len()
        invariant
            i < candles@.len(),
            fits(ind@, candles@.len()),
            k <= pats.len(),
            pats == patterns@,
            pats == json_items(json_get(*spec, "patterns"@)),
            pattern_facts(pats.take(k as int), candles@, ind@, i as int) matches Some(ps) && context_view(out@) == base + ps,
        decreases patterns.len() - k,
    {
        assert(pats.take(k + 1).drop_last() =~= pats.take(k as int));
        assert(pats.take(k + 1).last() == pats[k as int]);
        let ghost ps = pattern_facts(pats.take(k as int), candles@, ind@, i as int).unwrap();
        match member_text(&patterns[k], "id") {
            Some(id) => {
                match eval_pattern(&patterns[k], candles, ind, i) {
                    Some(b) => {
                        let ghost before = out@;
                        out.push((id.to_string(), b));
                        proof {
                            lemma_facts_push(before, out@.last());
                            assert(base + ps.push((id@, b)) =~= (base + ps).push((id@, b)));
                        }
                    },
                    None => {
                        proof {
                            assert(pattern_facts(pats.take(k + 1), candles@, ind@, i as int) is None);
                            lemma_pattern_facts_none(pats, candles@, ind@, i as int, k + 1);
                        }
                        return None;
                    },
                }
            },
            None => {},
        }
        k = k + 1;
    }
    assert(pats.take(k as int) =~= pats);
    let ghost with_patterns = context_view(out@);
    let filters = member_items(spec, "filters");
    let ghost fils = filters@;
    let mut k: usize = 0;
    assert(fils.take(0) =~= Seq::<JsonValue>::empty());
    assert(with_patterns + Seq::<(Seq<char>, bool)>::empty() =~= with_patterns);
    while k < filters.len()
        invariant
            i < candles@.len(),
            k <= fils.len(),
            fils == filters@,
            fils == json_items(json_get(*spec, "filters"@)),
            filter_facts(fils.take(k as int), candles@, ind@, i as int) matches Some(fs) && context_view(out@) == with_patterns + fs,
        decreases filters.len() - k,
    {
        assert(fils.take(k + 1).drop_last() =~= fils.take(k as int));
        assert(fils.take(k + 1).last() == fils[k as int]);
        let ghost fs = filter_facts(fils.take(k as int), candles@, ind@, i as int).unwrap();
        let name = match member_text(&filters[k], "kind") {
            Some(s) => s.to_string(),
            None => concat("filter_", u64_text(k as u64).as_str()),
        };
        proof {
            reveal_strlit("filter_");
        }
        assert(name@ == filter_name(fils[k as int], k as nat));
        match eval_filter(&filters[k], candles, ind, i) {
            Some(b) => {
                let ghost before = out@;
                out.push((name, b));
                proof {
                    lemma_facts_push(before, out@.last());
                    assert(with_patterns + fs.push((name@, b)) =~= (with_patterns + fs).push(
                        (name@, b),
                    ));
                }
            },
            None => {
                proof {
                    assert(filter_facts(fils.take(k + 1), candles@, ind@, i as int) is None);
                    lemma_filter_facts_none(fils, candles@, ind@, i as int, k + 1);
                }
                return None;
            },
        }
        k = k + 1;
    }
    assert(fils.take(k as int) =~= fils);
    Some(out)
}

} // verus!
