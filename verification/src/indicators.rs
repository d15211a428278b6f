//! The indicator series a backtest computes over its candles: average true range, moving
//! averages of volume and of a price source, the exponential moving average and the RSI.
//!
//! A series holds one entry per candle, absent where the indicator has no value yet. Where the
//! decimal arithmetic overflows the whole series is absent (`None`).
use crate::decimal::{
    abs_o, add_o, dec_count, div_o, max_o, mul_o, opt_abs, opt_add, opt_div, opt_max, opt_mul,
    opt_sub, opt_view, sub_o, sum_o, Dec,
};
use crate::json::{
    parse_usize_path, json_count, json_get, json_items, json_path, json_text, member_items, member_text,
    opt_text, JsonValue,
};
use crate::snapshot::{candle_source, spec_candle_source, Candle};
use crate::text::str_eq;
use vstd::prelude::*;

verus! {

/// The values of a series.
pub open spec fn series_view(v: Seq<Option<Dec>>) -> Seq<Option<(int, nat)>> {
    v.map_values(|x: Option<Dec>| opt_view(x))
}

/// A computed series, or `None` where computing it overflowed.
pub open spec fn opt_series(r: Option<Vec<Option<Dec>>>) -> Option<Seq<Option<(int, nat)>>> {
    match r {
        Some(v) => Some(series_view(v@)),
        None => None,
    }
}

/// A series with no value anywhere.
pub open spec fn no_values(n: nat) -> Seq<Option<(int, nat)>> {
    Seq::new(n, |i: int| None)
}

/// The average of the `length` items that end at `i`.
pub open spec fn window_avg(xs: Seq<Option<(int, nat)>>, length: nat, i: int) -> Option<(int, nat)> {
    div_o(sum_o(xs.subrange(i + 1 - length, i + 1)), Some((length as int, 0nat)))
}

/// The moving average of `xs` over `length` items: no value before index `length`, the window
/// average from there on; `None` where any of those averages overflows.
pub open spec fn moving_series(xs: Seq<Option<(int, nat)>>, length: nat) -> Option<
    Seq<Option<(int, nat)>>,
> {
    if forall|i: int| length <= i < xs.len() ==> #[trigger] window_avg(xs, length, i) is Some {
        Some(Seq::new(xs.len(), |i: int| if i < length { None } else { window_avg(xs, length, i) }))
    } else {
        None
    }
}

/// The true range of candle `i`: the largest of its own range and its distances from the
/// previous close (zero for the first candle).
pub open spec fn spec_true_range(c: Seq<Candle>, i: int) -> Option<(int, nat)> {
    if i == 0 {
        Some((0int, 0nat))
    } else {
        let prev_close = Some(c[i - 1].close@);
        max_o(
            max_o(
                sub_o(Some(c[i].high@), Some(c[i].low@)),
                abs_o(sub_o(Some(c[i].high@), prev_close)),
            ),
            abs_o(sub_o(Some(c[i].low@), prev_close)),
        )
    }
}

pub open spec fn true_ranges(c: Seq<Candle>) -> Seq<Option<(int, nat)>> {
    Seq::new(c.len(), |i: int| spec_true_range(c, i))
}

/// The average true range over `length` candles; no value anywhere for a zero length.
pub open spec fn spec_atr(c: Seq<Candle>, length: nat) -> Option<Seq<Option<(int, nat)>>> {
    if !(forall|i: int| 1 <= i < c.len() ==> #[trigger] spec_true_range(c, i) is Some) {
        None
    } else if length == 0 {
        Some(no_values(c.len()))
    } else {
        moving_series(true_ranges(c), length)
    }
}

pub open spec fn volumes(c: Seq<Candle>) -> Seq<Option<(int, nat)>> {
    Seq::new(c.len(), |i: int| Some(c[i].volume@))
}

/// The moving average of volume over `length` candles (a zero length divides by zero, so
/// there is none where there are candles).
pub open spec fn spec_volume_ma(c: Seq<Candle>, length: nat) -> Option<Seq<Option<(int, nat)>>> {
    moving_series(volumes(c), length)
}

pub open spec fn sources(c: Seq<Candle>, source: Seq<char>) -> Seq<Option<(int, nat)>> {
    Seq::new(c.len(), |i: int| spec_candle_source(c[i], source))
}

/// The simple moving average of a price source; no value anywhere for a zero length.
pub open spec fn spec_sma(c: Seq<Candle>, length: nat, source: Seq<char>) -> Option<
    Seq<Option<(int, nat)>>,
> {
    if length == 0 {
        Some(no_values(c.len()))
    } else {
        moving_series(sources(c, source), length)
    }
}

/// The exponential average after the first `m` candles, seeded with the first candle's
/// source, and the series so far.
pub open spec fn ema_run(
    c: Seq<Candle>,
    length: nat,
    source: Seq<char>,
    k: Option<(int, nat)>,
    m: nat,
) -> Option<((int, nat), Seq<Option<(int, nat)>>)>
    decreases m,
{
    if m == 0 {
        match spec_candle_source(c[0], source) {
            Some(p) => Some((p, Seq::empty())),
            None => None,
        }
    } else {
        match ema_run(c, length, source, k, (m - 1) as nat) {
            Some((prev, out)) => match add_o(
                mul_o(spec_candle_source(c[m - 1], source), k),
                mul_o(Some(prev), sub_o(Some((1int, 0nat)), k)),
            ) {
                Some(p) => Some((p, out.push(if m - 1 >= length { Some(p) } else { None }))),
                None => None,
            },
            None => None,
        }
    }
}

/// The exponential moving average with weight `2 / (length + 1)`, reported from index
/// `length` on.
pub open spec fn spec_ema(c: Seq<Candle>, length: nat, source: Seq<char>) -> Option<
    Seq<Option<(int, nat)>>,
> {
    if length == 0 || c.len() == 0 {
        Some(no_values(c.len()))
    } else if length >= usize::MAX {
        None
    } else {
        match ema_run(
            c,
            length,
            source,
            div_o(Some((2int, 0nat)), Some(((length + 1) as int, 0nat))),
            c.len(),
        ) {
            Some((_, out)) => Some(out),
            None => None,
        }
    }
}

/// The gains and losses of the closes over the consecutive pairs `(j, j + 1)` for `lo <= j <
/// hi`, added up left to right.
pub open spec fn rsi_sums(c: Seq<Candle>, lo: int, hi: int) -> Option<((int, nat), (int, nat))>
    decreases hi - lo,
{
    if hi <= lo {
        Some(((0int, 0nat), (0int, 0nat)))
    } else {
        match rsi_sums(c, lo, hi - 1) {
            Some((g, l)) => match sub_o(Some(c[hi].close@), Some(c[hi - 1].close@)) {
                Some(delta) => if delta.0 >= 0 {
                    match add_o(Some(g), Some(delta)) {
                        Some(g2) => Some((g2, l)),
                        None => None,
                    }
                } else {
                    match add_o(Some(l), abs_o(Some(delta))) {
                        Some(l2) => Some((g, l2)),
                        None => None,
                    }
                },
                None => None,
            },
            None => None,
        }
    }
}

/// The RSI at `i` over the `length` candles that end there: 100 without losses, else
/// `100 - 100 / (1 + gains / losses)`.
pub open spec fn rsi_at(c: Seq<Candle>, length: nat, i: int) -> Option<(int, nat)> {
    match rsi_sums(c, i + 1 - length, i) {
        Some((g, l)) => if l.0 == 0 {
            Some((100int, 0nat))
        } else {
            sub_o(
                Some((100int, 0nat)),
                div_o(Some((100int, 0nat)), add_o(Some((1int, 0nat)), div_o(Some(g), Some(l)))),
            )
        },
        None => None,
    }
}

/// The RSI series; no value anywhere for a zero length or too few candles.
pub open spec fn spec_rsi(c: Seq<Candle>, length: nat) -> Option<Seq<Option<(int, nat)>>> {
    if length == 0 || c.len() <= length {
        Some(no_values(c.len()))
    } else if forall|i: int| length <= i < c.len() ==> #[trigger] rsi_at(c, length, i) is Some {
        Some(Seq::new(c.len(), |i: int| if i < length { None } else { rsi_at(c, length, i) }))
    } else {
        None
    }
}

proof fn lemma_series_push(s: Seq<Option<Dec>>, x: Option<Dec>)
    ensures
        series_view(s.push(x)) == series_view(s).push(opt_view(x)),
{
    assert(series_view(s.push(x)) =~= series_view(s).push(opt_view(x)));
}

/// Once the exponential average overflows it stays absent.
proof fn lemma_ema_none(
    c: Seq<Candle>,
    length: nat,
    source: Seq<char>,
    k: Option<(int, nat)>,
    m: nat,
    m2: nat,
)
    requires
        m <= m2,
        ema_run(c, length, source, k, m) is None,
    ensures
        ema_run(c, length, source, k, m2) is None,
    decreases m2 - m,
{
    if m < m2 {
        lemma_ema_none(c, length, source, k, m, (m2 - 1) as nat);
    }
}

/// Once the gains or losses overflow they stay absent.
proof fn lemma_rsi_none(c: Seq<Candle>, lo: int, a: int, b: int)
    requires
        lo <= a <= b,
        rsi_sums(c, lo, a) is None,
    ensures
        rsi_sums(c, lo, b) is None,
    decreases b - a,
{
    if a < b {
        lemma_rsi_none(c, lo, a, b - 1);
    }
}

fn none_series(n: usize) -> (r: Vec<Option<Dec>>)
    ensures
        series_view(r@) == no_values(n as nat),
{
    let mut out: Vec<Option<Dec>> = Vec::new();
    let mut i: usize = 0;
    while i < n
        invariant
            i <= n,
            series_view(out@) =~= no_values(i as nat),
        decreases n - i,
    {
        let ghost before = out@;
        out.push(None);
        proof {
            lemma_series_push(before, None);
            assert(no_values((i + 1) as nat) =~= no_values(i as nat).push(None));
        }
        i = i + 1;
    }
    out
}

/// The sum of the items `lo..hi`.
fn window_sum(xs: &Vec<Option<Dec>>, lo: usize, hi: usize) -> (r: Option<Dec>)
    requires
        lo <= hi <= xs@.len(),
    ensures
        opt_view(r) == sum_o(series_view(xs@).subrange(lo as int, hi as int)),
{
    let ghost all = series_view(xs@);
    let mut acc = Some(Dec::zero());
    let mut j = lo;
    assert(all.subrange(lo as int, lo as int) =~= Seq::<Option<(int, nat)>>::empty());
    while j < hi
        invariant
            lo <= j <= hi <= xs@.len(),
            all == series_view(xs@),
            opt_view(acc) == sum_o(all.subrange(lo as int, j as int)),
        decreases hi - j,
    {
        assert(all.subrange(lo as int, j + 1).drop_last() =~= all.subrange(lo as int, j as int));
        acc = opt_add(acc, xs[j]);
        j = j + 1;
    }
    acc
}

/// The moving average of `xs` over `length` items.
fn moving(xs: &Vec<Option<Dec>>, length: usize) -> (r: Option<Vec<Option<Dec>>>)
    ensures
        opt_series(r) == moving_series(series_view(xs@), length as nat),
{
    let ghost all = series_view(xs@);
    let n = xs.len();
    let mut out: Vec<Option<Dec>> = Vec::new();
    let mut i: usize = 0;
    while i < n
        invariant
            i <= n == xs@.len(),
            all == series_view(xs@),
            out@.len() == i,
            forall|j: int|
                0 <= j < i ==> #[trigger] series_view(out@)[j] == (if j < length {
                    None
                } else {
                    window_avg(all, length as nat, j)
                }),
            forall|j: int| length <= j < i ==> #[trigger] window_avg(all, length as nat, j) is Some,
        decreases n - i,
    {
        let ghost before = out@;
        if i < length {
            out.push(None);
            proof {
                lemma_series_push(before, None);
            }
        } else {
            let s = window_sum(xs, i + 1 - length, i + 1);
            let v = opt_div(s, Some(dec_count(length)));
            assert(opt_view(v) == window_avg(all, length as nat, i as int));
            if v.is_none() {
                return None;
            }
            out.push(v);
            proof {
                lemma_series_push(before, v);
            }
        }
        i = i + 1;
    }
    assert(series_view(out@) =~= Seq::new(
        all.len(),
        |i: int|
            if i < length {
                None
            } else {
                window_avg(all, length as nat, i)
            },
    ));
    Some(out)
}

fn true_range(candles: &[Candle], i: usize) -> (r: Option<Dec>)
    requires
        i < candles@.len(),
    ensures
        opt_view(r) == spec_true_range(candles@, i as int),
{
    if i == 0 {
        return Some(Dec::zero());
    }
    let c = &candles[i];
    let prev_close = Some(candles[i - 1].close);
    opt_max(
        opt_max(
            opt_sub(Some(c.high), Some(c.low)),
            opt_abs(opt_sub(Some(c.high), prev_close)),
        ),
        opt_abs(opt_sub(Some(c.low), prev_close)),
    )
}

/// The average true range over `length` candles.
pub fn atr(candles: &[Candle], length: usize) -> (r: Option<Vec<Option<Dec>>>)
    ensures
        opt_series(r) == spec_atr(candles@, length as nat),
{
    let n = candles.len();
    let mut trs: Vec<Option<Dec>> = Vec::new();
    let mut i: usize = 0;
    while i < n
        invariant
            i <= n == candles@.len(),
            trs@.len() == i,
            forall|j: int| 0 <= j < i ==> #[trigger] series_view(trs@)[j] == spec_true_range(candles@, j),
            forall|j: int| 1 <= j < i ==> #[trigger] spec_true_range(candles@, j) is Some,
        decreases n - i,
    {
        let t = true_range(candles, i);
        if t.is_none() {
            return None;
        }
        let ghost before = trs@;
        trs.push(t);
        proof {
            lemma_series_push(before, t);
        }
        i = i + 1;
    }
    assert(series_view(trs@) =~= true_ranges(candles@));
    if length == 0 {
        return Some(none_series(n));
    }
    moving(&trs, length)
}

/// The moving average of volume over `length` candles.
pub fn volume_ma(candles: &[Candle], length: usize) -> (r: Option<Vec<Option<Dec>>>)
    ensures
        opt_series(r) == spec_volume_ma(candles@, length as nat),
{
    let n = candles.len();
    let mut xs: Vec<Option<Dec>> = Vec::new();
    let mut i: usize = 0;
    while i < n
        invariant
            i <= n == candles@.len(),
            xs@.len() == i,
            forall|j: int| 0 <= j < i ==> #[trigger] series_view(xs@)[j] == Some(candles@[j].volume@),
        decreases n - i,
    {
        let ghost before = xs@;
        xs.push(Some(candles[i].volume));
        proof {
            lemma_series_push(before, Some(candles@[i as int].volume));
        }
        i = i + 1;
    }
    assert(series_view(xs@) =~= volumes(candles@));
    moving(&xs, length)
}

fn source_values(candles: &[Candle], source: &str) -> (r: Vec<Option<Dec>>)
    ensures
        series_view(r@) == sources(candles@, source@),
{
    let n = candles.len();
    let mut xs: Vec<Option<Dec>> = Vec::new();
    let mut i: usize = 0;
    while i < n
        invariant
            i <= n == candles@.len(),
            xs@.len() == i,
            forall|j: int|
                0 <= j < i ==> #[trigger] series_view(xs@)[j] == spec_candle_source(candles@[j], source@),
        decreases n - i,
    {
        let ghost before = xs@;
        let v = candle_source(&candles[i], source);
        xs.push(v);
        proof {
            lemma_series_push(before, v);
        }
        i = i + 1;
    }
    assert(series_view(xs@) =~= sources(candles@, source@));
    xs
}

/// The simple moving average of a price source.
pub fn moving_average(candles: &[Candle], length: usize, source: &str) -> (r: Option<
    Vec<Option<Dec>>,
>)
    ensures
        opt_series(r) == spec_sma(candles@, length as nat, source@),
{
    if length == 0 {
        return Some(none_series(candles.len()));
    }
    let xs = source_values(candles, source);
    moving(&xs, length)
}

/// The exponential moving average of a price source.
pub fn ema(candles: &[Candle], length: usize, source: &str) -> (r: Option<Vec<Option<Dec>>>)
    ensures
        opt_series(r) == spec_ema(candles@, length as nat, source@),
{
    let n = candles.len();
    if length == 0 || n == 0 {
        return Some(none_series(n));
    }
    if length == usize::MAX {
        return None;
    }
    let k = opt_div(Some(Dec::new(2, 0)), Some(dec_count(length + 1)));
    let ghost kv = opt_view(k);
    let mut prev = match candle_source(&candles[0], source) {
        Some(p) => p,
        None => {
            proof {
                lemma_ema_none(candles@, length as nat, source@, kv, 0, n as nat);
            }
            return None;
        },
    };
    let mut out: Vec<Option<Dec>> = Vec::new();
    let mut i: usize = 0;
    while i < n
        invariant
            i <= n == candles@.len(),
            n > 0,
            0 < length < usize::MAX,
            kv == opt_view(k),
            kv == div_o(Some((2int, 0nat)), Some((length + 1, 0nat))),
            ema_run(candles@, length as nat, source@, kv, i as nat) == Some(
                (prev@, series_view(out@)),
            ),
        decreases n - i,
    {
        let value = candle_source(&candles[i], source);
        let one_minus_k = opt_sub(Some(Dec::one()), k);
        let next = opt_add(opt_mul(value, k), opt_mul(Some(prev), one_minus_k));
        match next {
            Some(p) => {
                prev = p;
                if i >= length {
                    out.push(Some(p));
                } else {
                    out.push(None);
                }
                assert(series_view(out@) =~= series_view(out@.drop_last()).push(
                    opt_view(out@.last()),
                ));
            },
            None => {
                proof {
                    assert(ema_run(candles@, length as nat, source@, kv, (i + 1) as nat) is None);
                    lemma_ema_none(candles@, length as nat, source@, kv, (i + 1) as nat, n as nat);
                }
                return None;
            },
        }
        i = i + 1;
    }
    Some(out)
}

fn rsi_window(candles: &[Candle], lo: usize, hi: usize) -> (r: Option<(Dec, Dec)>)
    requires
        lo <= hi < candles@.len(),
    ensures
        match r {
            Some((g, l)) => rsi_sums(candles@, lo as int, hi as int) == Some((g@, l@)),
            None => rsi_sums(candles@, lo as int, hi as int) is None,
        },
{
    let mut gains = Dec::zero();
    let mut losses = Dec::zero();
    let mut j = lo;
    while j < hi
        invariant
            lo <= j <= hi < candles@.len(),
            rsi_sums(candles@, lo as int, j as int) == Some((gains@, losses@)),
        decreases hi - j,
    {
        let delta = match candles[j + 1].close.checked_sub(candles[j].close) {
            Some(d) => d,
            None => {
                proof {
                    lemma_rsi_none(candles@, lo as int, j + 1, hi as int);
                }
                return None;
            },
        };
        if !delta.is_negative() {
            match gains.checked_add(delta) {
                Some(g) => {
                    gains = g;
                },
                None => {
                    proof {
                        lemma_rsi_none(candles@, lo as int, j + 1, hi as int);
                    }
                    return None;
                },
            }
        } else {
            match losses.checked_add(delta.abs()) {
                Some(l) => {
                    losses = l;
                },
                None => {
                    proof {
                        lemma_rsi_none(candles@, lo as int, j + 1, hi as int);
                    }
                    return None;
                },
            }
        }
        j = j + 1;
    }
    Some((gains, losses))
}

fn rsi_value(candles: &[Candle], length: usize, i: usize) -> (r: Option<Dec>)
    requires
        1 <= length <= i < candles@.len(),
    ensures
        opt_view(r) == rsi_at(candles@, length as nat, i as int),
{
    match rsi_window(candles, i - (length - 1), i) {
        Some((g, l)) => {
            if l.is_zero() {
                Some(Dec::new(100, 0))
            } else {
                opt_sub(
                    Some(Dec::new(100, 0)),
                    opt_div(
                        Some(Dec::new(100, 0)),
                        opt_add(Some(Dec::one()), opt_div(Some(g), Some(l))),
                    ),
                )
            }
        },
        None => None,
    }
}

/// The RSI over `length` candles.
pub fn rsi(candles: &[Candle], length: usize) -> (r: Option<Vec<Option<Dec>>>)
    ensures
        opt_series(r) == spec_rsi(candles@, length as nat),
{
    let n = candles.len();
    if length == 0 || n <= length {
        return Some(none_series(n));
    }
    let mut out: Vec<Option<Dec>> = Vec::new();
    let mut i: usize = 0;
    while i < n
        invariant
            1 <= length < n == candles@.len(),
            i <= n,
            out@.len() == i,
            forall|j: int|
                0 <= j < i ==> #[trigger] series_view(out@)[j] == (if j < length {
                    None
                } else {
                    rsi_at(candles@, length as nat, j)
                }),
            forall|j: int| length <= j < i ==> #[trigger] rsi_at(candles@, length as nat, j) is Some,
        decreases n - i,
    {
        let ghost before = out@;
        if i < length {
            out.push(None);
            proof {
                lemma_series_push(before, None);
            }
        } else {
            let v = rsi_value(candles, length, i);
            if v.is_none() {
                return None;
            }
            out.push(v);
            proof {
                lemma_series_push(before, v);
            }
        }
        i = i + 1;
    }
    assert(series_view(out@) =~= Seq::new(
        candles@.len(),
        |i: int|
            if i < length {
                None
            } else {
                rsi_at(candles@, length as nat, i)
            },
    ));
    Some(out)
}

/// The length parameter of an indicator (14 unless it gives one).
pub open spec fn indicator_length(ind: JsonValue) -> usize {
    match json_count(json_path(ind, seq!["params"@, "length"@])) {
        Some(l) => l,
        None => 14,
    }
}

fn length_param(ind: &JsonValue) -> (r: usize)
    ensures
        r == indicator_length(*ind),
{
    let path: [&str; 2] = ["params", "length"];
    let r = parse_usize_path(ind, &path);
    assert(path@.map_values(|k: &str| k@) =~= seq!["params"@, "length"@]);
    match r {
        Some(l) => l,
        None => 14,
    }
}

/// The price source of an indicator (`close` unless it names one).
pub open spec fn indicator_source(ind: JsonValue) -> Seq<char> {
    match json_text(json_get(ind, "source"@)) {
        Some(s) => s,
        None => "close"@,
    }
}

/// The kind of an indicator (empty unless it names one).
pub open spec fn member_or_empty(v: JsonValue, key: Seq<char>) -> Seq<char> {
    match json_text(json_get(v, key)) {
        Some(s) => s,
        None => ""@,
    }
}

/// The series of one indicator of the spec: `atr`, `volume_ma`, `sma`, `ema` or `rsi` over its
/// length, no value anywhere for any other kind.
pub open spec fn spec_indicator(ind: JsonValue, c: Seq<Candle>) -> Option<Seq<Option<(int, nat)>>> {
    let length = indicator_length(ind) as nat;
    let kind = member_or_empty(ind, "kind"@);
    if kind == "atr"@ {
        spec_atr(c, length)
    } else if kind == "volume_ma"@ {
        spec_volume_ma(c, length)
    } else if kind == "sma"@ {
        spec_sma(c, length, indicator_source(ind))
    } else if kind == "ema"@ {
        spec_ema(c, length, indicator_source(ind))
    } else if kind == "rsi"@ {
        spec_rsi(c, length)
    } else {
        Some(no_values(c.len()))
    }
}

/// The series of the indicators that have an `id`, in order; `None` where one overflows.
pub open spec fn indicator_entries(items: Seq<JsonValue>, c: Seq<Candle>) -> Option<
    Seq<(Seq<char>, Seq<Option<(int, nat)>>)>,
>
    decreases items.len(),
{
    if items.len() == 0 {
        Some(Seq::empty())
    } else {
        match indicator_entries(items.drop_last(), c) {
            Some(es) => match json_text(json_get(items.last(), "id"@)) {
                Some(id) => match spec_indicator(items.last(), c) {
                    Some(xs) => Some(es.push((id, xs))),
                    None => None,
                },
                None => Some(es),
            },
            None => None,
        }
    }
}

/// The indicators of a run: those the spec declares, by id, and the ATR(14) and volume
/// MA(20) that patterns and stops fall back on.
pub struct IndicatorsView {
    pub values: Seq<(Seq<char>, Seq<Option<(int, nat)>>)>,
    pub atr: Seq<Option<(int, nat)>>,
    pub volume_ma: Seq<Option<(int, nat)>>,
}

pub open spec fn spec_build_indicators(spec: JsonValue, c: Seq<Candle>) -> Option<IndicatorsView> {
    match spec_atr(c, 14) {
        Some(a) => match spec_volume_ma(c, 20) {
            Some(v) => match indicator_entries(json_items(json_get(spec, "indicators"@)), c) {
                Some(es) => Some(IndicatorsView { values: es, atr: a, volume_ma: v }),
                None => None,
            },
            None => None,
        },
        None => None,
    }
}

/// The series declared for `key`: the last one with that id.
pub open spec fn series_lookup(values: Seq<(Seq<char>, Seq<Option<(int, nat)>>)>, key: Seq<char>) -> Option<
    Seq<Option<(int, nat)>>,
>
    decreases values.len(),
{
    if values.len() == 0 {
        None
    } else if values.last().0 == key {
        Some(values.last().1)
    } else {
        series_lookup(values.drop_last(), key)
    }
}

/// The value at `i` of a series, if it has one there.
pub open spec fn value_at(xs: Seq<Option<(int, nat)>>, i: int) -> Option<(int, nat)> {
    if 0 <= i < xs.len() {
        xs[i]
    } else {
        None
    }
}

/// The value of indicator `id` at `i`, falling back on the ATR(14) where it has none.
pub open spec fn spec_indicator_value(ind: IndicatorsView, id: Option<Seq<char>>, i: int) -> Option<
    (int, nat),
> {
    let primary = match id {
        Some(k) => match series_lookup(ind.values, k) {
            Some(xs) => value_at(xs, i),
            None => None,
        },
        None => None,
    };
    if primary is Some {
        primary
    } else {
        value_at(ind.atr, i)
    }
}

/// The indicator series of a run.
#[derive(Debug, Clone)]
pub struct IndicatorSeries {
    pub values: Vec<(String, Vec<Option<Dec>>)>,
    pub atr_fallback: Vec<Option<Dec>>,
    pub volume_ma_fallback: Vec<Option<Dec>>,
}

pub open spec fn entries_view(v: Seq<(String, Vec<Option<Dec>>)>) -> Seq<
    (Seq<char>, Seq<Option<(int, nat)>>),
> {
    v.map_values(|e: (String, Vec<Option<Dec>>)| (e.0@, series_view(e.1@)))
}

impl View for IndicatorSeries {
    type V = IndicatorsView;

    open spec fn view(&self) -> IndicatorsView {
        IndicatorsView {
            values: entries_view(self.values@),
            atr: series_view(self.atr_fallback@),
            volume_ma: series_view(self.volume_ma_fallback@),
        }
    }
}

fn indicator_series(ind: &JsonValue, candles: &[Candle]) -> (r: Option<Vec<Option<Dec>>>)
    ensures
        opt_series(r) == spec_indicator(*ind, candles@),
{
    let length = length_param(ind);
    let source = match member_text(ind, "source") {
        Some(s) => s,
        None => "close",
    };
    let kind = match member_text(ind, "kind") {
        Some(k) => k,
        None => "",
    };
    proof {
        reveal_strlit("close");
        reveal_strlit("");
    }
    assert(source@ == indicator_source(*ind));
    assert(kind@ == member_or_empty(*ind, "kind"@));
    if str_eq(kind, "atr") {
        atr(candles, length)
    } else if str_eq(kind, "volume_ma") {
        volume_ma(candles, length)
    } else if str_eq(kind, "sma") {
        moving_average(candles, length, source)
    } else if str_eq(kind, "ema") {
        ema(candles, length, source)
    } else if str_eq(kind, "rsi") {
        rsi(candles, length)
    } else {
        Some(none_series(candles.len()))
    }
}

/// Computes the indicators a spec declares, with the fallback ATR(14) and volume MA(20).
pub fn build_indicator_series(spec: &JsonValue, candles: &[Candle]) -> (r: Option<IndicatorSeries>)
    ensures
        match r {
            Some(s) => spec_build_indicators(*spec, candles@) == Some(s@),
            None => spec_build_indicators(*spec, candles@) is None,
        },
{
    let atr_fallback = match atr(candles, 14) {
        Some(a) => a,
        None => {
            return None;
        },
    };
    let volume_ma_fallback = match volume_ma(candles, 20) {
        Some(v) => v,
        None => {
            return None;
        },
    };
    let items = member_items(spec, "indicators");
    let ghost all = items@;
    let mut values: Vec<(String, Vec<Option<Dec>>)> = Vec::new();
    let mut i: usize = 0;
    assert(all.take(0) =~= Seq::<JsonValue>::empty());
    while i < items.len()
        invariant
            i <= all.len(),
            all == items@,
            all == json_items(json_get(*spec, "indicators"@)),
            spec_atr(candles@, 14) == Some(series_view(atr_fallback@)),
            spec_volume_ma(candles@, 20) == Some(series_view(volume_ma_fallback@)),
            indicator_entries(all.take(i as int), candles@) == Some(entries_view(values@)),
        decreases items.len() - i,
    {
        let ghost pre = all.take(i as int);
        let ghost next = all.take(i + 1);
        assert(next.drop_last() =~= pre);
        assert(next.last() == all[i as int]);
        let ind = &items[i];
        match member_text(ind, "id") {
            Some(id) => {
                match indicator_series(ind, candles) {
                    Some(xs) => {
                        let ghost before = values@;
                        values.push((id.to_string(), xs));
                        assert(entries_view(values@) =~= entries_view(before).push(
                            (id@, series_view(xs@)),
                        ));
                    },
                    None => {
                        proof {
                            assert(indicator_entries(next, candles@) is None);
                            lemma_entries_none(all, candles@, i + 1);
                        }
                        return None;
                    },
                }
            },
            None => {},
        }
        i = i + 1;
    }
    assert(all.take(i as int) =~= all);
    Some(IndicatorSeries { values, atr_fallback, volume_ma_fallback })
}

/// Once an indicator overflows, every longer list of indicators does.
proof fn lemma_entries_none(items: Seq<JsonValue>, c: Seq<Candle>, a: int)
    requires
        0 <= a <= items.len(),
        indicator_entries(items.take(a), c) is None,
    ensures
        indicator_entries(items, c) is None,
    decreases items.len() - a,
{
    if a < items.len() {
        let next = items.take(a + 1);
        assert(next.drop_last() =~= items.take(a));
        lemma_entries_none(items, c, a + 1);
    } else {
        assert(items.take(a) =~= items);
    }
}

fn lookup_series<'a>(values: &'a Vec<(String, Vec<Option<Dec>>)>, key: &str) -> (r: Option<
    &'a Vec<Option<Dec>>,
>)
    ensures
        match r {
            Some(xs) => series_lookup(entries_view(values@), key@) == Some(series_view(xs@)),
            None => series_lookup(entries_view(values@), key@) is None,
        },
{
    let ghost all = entries_view(values@);
    let mut i = values.len();
    assert(all.take(i as int) =~= all);
    while i > 0
        invariant
            i <= values@.len(),
            all == entries_view(values@),
            series_lookup(all, key@) == series_lookup(all.take(i as int), key@),
        decreases i,
    {
        let ghost pre = all.take(i as int);
        assert(pre.drop_last() =~= all.take(i - 1));
        assert(pre.last() == all[i - 1]);
        if str_eq(values[i - 1].0.as_str(), key) {
            return Some(&values[i - 1].1);
        }
        i = i - 1;
    }
    assert(all.take(0) =~= Seq::<(Seq<char>, Seq<Option<(int, nat)>>)>::empty());
    None
}

fn series_get(xs: &Vec<Option<Dec>>, i: usize) -> (r: Option<Dec>)
    ensures
        opt_view(r) == value_at(series_view(xs@), i as int),
{
    if i < xs.len() {
        xs[i]
    } else {
        None
    }
}

/// The value of indicator `id` at candle `i`, or of the fallback ATR(14).
pub fn indicator_value(ind: &IndicatorSeries, id: Option<&str>, i: usize) -> (r: Option<Dec>)
    ensures
        opt_view(r) == spec_indicator_value(ind@, opt_text(id), i as int),
{
    let primary = match id {
        Some(k) => match lookup_series(&ind.values, k) {
            Some(xs) => series_get(xs, i),
            None => None,
        },
        None => None,
    };
    if primary.is_some() {
        primary
    } else {
        series_get(&ind.atr_fallback, i)
    }
}

/// The fallback series have one slot per candle.
pub proof fn lemma_built_fits(spec: JsonValue, c: Seq<Candle>)
    ensures
        spec_build_indicators(spec, c) matches Some(v) ==> v.atr.len() == c.len()
            && v.volume_ma.len() == c.len(),
{
    assert(true_ranges(c).len() == c.len());
    assert(volumes(c).len() == c.len());
}

} // verus!
