//! What a backtest reports besides its trades and equity curve: the monthly heatmap and the
//! headline metrics with the assumptions of the run.
use crate::backtest::{str_get, HeatmapCell, Trade};
use crate::decimal::{add_o, decimal_parse, Dec};
use crate::engine::{fmt, fmt_text, trade_view, trades_view, TradeView};
use crate::runner::{insert_sorted, lemma_push_to_set, texts_sorted};
use crate::text::str_eq;
use crate::validation::texts;
use vstd::prelude::*;
use vstd::utf8::{decode_utf8, encode_utf8, encode_utf8_decode_utf8, is_char_boundary};

verus! {

/// The month a trade is booked in: the first seven bytes of its exit time (`YYYY-MM`), or
/// `unknown` where there are not seven.
pub open spec fn month_key(ts: Seq<char>) -> Seq<char> {
    let b = encode_utf8(ts);
    if 7 <= b.len() && is_char_boundary(b, 0) && is_char_boundary(b, 7) {
        decode_utf8(b.subrange(0, 7))
    } else {
        "unknown"@
    }
}

pub fn month_of(ts: &str) -> (r: String)
    ensures
        r@ == month_key(ts@),
{
    match str_get(ts, 0, 7) {
        Some(m) => {
            proof {
                encode_utf8_decode_utf8(m@);
            }
            m.to_string()
        },
        None => {
            proof {
                reveal_strlit("unknown");
            }
            "unknown".to_string()
        },
    }
}

/// A decimal written as text, zero where the text does not parse.
pub open spec fn parse_or_zero(t: Seq<char>) -> (int, nat) {
    match decimal_parse(t) {
        Some(d) => d,
        None => (0int, 0nat),
    }
}

pub fn parse_or_zero_of(t: &str) -> (r: Dec)
    ensures
        r@ == parse_or_zero(t@),
{
    match Dec::parse(t) {
        Some(d) => d,
        None => Dec::zero(),
    }
}

/// The count and the net result of the trades of month `key`, the result kept as report
/// text and read back at each step; `None` where a sum overflows.
pub open spec fn heat_fold(trades: Seq<TradeView>, key: Seq<char>) -> Option<(nat, Seq<char>)>
    decreases trades.len(),
{
    if trades.len() == 0 {
        Some((0nat, fmt_text((0int, 0nat))))
    } else {
        match heat_fold(trades.drop_last(), key) {
            Some((n, pnl)) => if month_key(trades.last().exit_ts) == key {
                match add_o(Some(parse_or_zero(pnl)), Some(parse_or_zero(trades.last().net_pnl))) {
                    Some(s) => Some((n + 1, fmt_text(s))),
                    None => None,
                }
            } else {
                Some((n, pnl))
            },
            None => None,
        }
    }
}

/// The months of the trades.
pub open spec fn months(trades: Seq<TradeView>) -> Seq<Seq<char>> {
    trades.map_values(|t: TradeView| month_key(t.exit_ts))
}

pub open spec fn heat_view(h: Seq<(String, HeatmapCell)>) -> Seq<(Seq<char>, (nat, Seq<char>))> {
    h.map_values(|e: (String, HeatmapCell)| (e.0@, (e.1.trades as nat, e.1.pnl@)))
}

pub open spec fn heat_keys(h: Seq<(Seq<char>, (nat, Seq<char>))>) -> Seq<Seq<char>> {
    h.map_values(|e: (Seq<char>, (nat, Seq<char>))| e.0)
}

/// `h` is the heatmap of the trades: one cell per month that has a trade, sorted by month,
/// each with its count and net result.
pub open spec fn heatmap_of(trades: Seq<TradeView>, h: Seq<(Seq<char>, (nat, Seq<char>))>) -> bool {
    &&& texts_sorted(heat_keys(h))
    &&& heat_keys(h).to_set() == months(trades).to_set()
    &&& forall|j: int| 0 <= j < h.len() ==> heat_fold(trades, #[trigger] h[j].0) == Some(h[j].1)
}

/// Some month's sum overflows.
pub open spec fn heatmap_fails(trades: Seq<TradeView>) -> bool {
    exists|j: int| 0 <= j < trades.len() && heat_fold(trades, #[trigger] month_key(trades[j].exit_ts)) is None
}

fn heat_cell(trades: &Vec<Trade>, key: &str) -> (r: Option<HeatmapCell>)
    ensures
        match r {
            Some(c) => heat_fold(trades_view(trades@), key@) == Some((c.trades as nat, c.pnl@)),
            None => heat_fold(trades_view(trades@), key@) is None,
        },
{
    let ghost tv = trades_view(trades@);
    let mut count: usize = 0;
    let mut pnl = fmt(Dec::zero());
    let mut k: usize = 0;
    assert(tv.take(0) =~= Seq::<TradeView>::empty());
    while k < trades.len()
        invariant
            k <= trades@.len(),
            tv == trades_view(trades@),
            count <= k,
            heat_fold(tv.take(k as int), key@) == Some((count as nat, pnl@)),
        decreases trades.len() - k,
    {
        let ghost pre = tv.take(k as int);
        let ghost next = tv.take(k + 1);
        assert(next.drop_last() =~= pre);
        assert(next.last() == trade_view(trades@[k as int]));
        let t = &trades[k];
        let month = month_of(t.exit_ts.as_str());
        if str_eq(month.as_str(), key) {
            let a = parse_or_zero_of(pnl.as_str());
            let b = parse_or_zero_of(t.net_pnl.as_str());
            match a.checked_add(b) {
                Some(s) => {
                    count = count + 1;
                    pnl = fmt(s);
                },
                None => {
                    proof {
                        lemma_heat_none(tv, key@, k + 1);
                    }
                    return None;
                },
            }
        }
        k = k + 1;
    }
    assert(tv.take(k as int) =~= tv);
    Some(HeatmapCell { trades: count, pnl })
}

proof fn lemma_heat_none(trades: Seq<TradeView>, key: Seq<char>, a: int)
    requires
        0 <= a <= trades.len(),
        heat_fold(trades.take(a), key) is None,
    ensures
        heat_fold(trades, key) is None,
    decreases trades.len() - a,
{
    if a < trades.len() {
        assert(trades.take(a + 1).drop_last() =~= trades.take(a));
        lemma_heat_none(trades, key, a + 1);
    } else {
        assert(trades.take(a) =~= trades);
    }
}

/// The monthly heatmap of the trades, sorted by month; `None` where a month's sum
/// overflows.
pub fn build_heatmap(trades: &Vec<Trade>) -> (r: Option<Vec<(String, HeatmapCell)>>)
    ensures
        match r {
            Some(h) => heatmap_of(trades_view(trades@), heat_view(h@)),
            None => heatmap_fails(trades_view(trades@)),
        },
{
    let ghost tv = trades_view(trades@);
    let mut keys: Vec<String> = Vec::new();
    let mut k: usize = 0;
    assert(texts(keys@) =~= Seq::<Seq<char>>::empty());
    assert(months(tv).take(0) =~= Seq::<Seq<char>>::empty());
    while k < trades.len()
        invariant
            k <= trades@.len(),
            tv == trades_view(trades@),
            texts_sorted(texts(keys@)),
            texts(keys@).to_set() == months(tv).take(k as int).to_set(),
        decreases trades.len() - k,
    {
        let month = month_of(trades[k].exit_ts.as_str());
        insert_sorted(&mut keys, month.as_str());
        proof {
            let m = months(tv);
            assert(m[k as int] == month@);
            assert(m.take(k + 1) =~= m.take(k as int).push(month@));
            lemma_push_to_set(m.take(k as int), month@);
        }
        k = k + 1;
    }
    assert(months(tv).take(k as int) =~= months(tv));
    let mut out: Vec<(String, HeatmapCell)> = Vec::new();
    let mut j: usize = 0;
    while j < keys.len()
        invariant
            j <= keys@.len(),
            tv == trades_view(trades@),
            texts_sorted(texts(keys@)),
            texts(keys@).to_set() == months(tv).to_set(),
            out@.len() == j,
            forall|x: int| 0 <= x < j ==> (#[trigger] heat_view(out@)[x]).0 == keys@[x]@,
            forall|x: int| 0 <= x < j ==> heat_fold(tv, #[trigger] heat_view(out@)[x].0) == Some(heat_view(out@)[x].1),
        decreases keys.len() - j,
    {
        match heat_cell(trades, keys[j].as_str()) {
            Some(cell) => {
                let ghost before = out@;
                out.push((keys[j].clone(), cell));
                proof {
                    assert(heat_view(out@) =~= heat_view(before).push(heat_view(out@).last()));
                }
            },
            None => {
                proof {
                    assert(texts(keys@)[j as int] == keys@[j as int]@);
                    assert(texts(keys@).to_set().contains(keys@[j as int]@));
                    assert(months(tv).to_set().contains(keys@[j as int]@));
                    let w = choose|w: int| 0 <= w < months(tv).len() && months(tv)[w] == keys@[j as int]@;
                    assert(month_key(tv[w].exit_ts) == keys@[j as int]@);
                }
                return None;
            },
        }
        j = j + 1;
    }
    proof {
        assert(heat_keys(heat_view(out@)) =~= texts(keys@));
    }
    Some(out)
}

} // verus!
