//! The decisions of the executor's runs: run modes, the market-data stream address, broker
//! key scopes, quantities for the live smoke round trip, flattening and cancelling on a
//! kill-switch.
use crate::decimal::{
    decimal_difference, decimal_parse_exact, opt_view, decimal_product, decimal_quotient, decimal_text,
    decimal_trunc, num_lt, Dec,
};
use crate::clock::{utc_timestamp_valid, Timestamp};
use crate::json::{json_get, json_i64, json_items, json_text, member_items, member_text, JsonValue};
use crate::market::{Exchange, Side};
use crate::orders::{
    client_order_id_name, deterministic_client_order_id, open_symbols_of, uuid_v5_oid,
    OrderOutbox,
};
use crate::positions::LivePositionState;
use crate::market::ExecAlert;
use crate::orders::{MarketTick, OrderIntent};
use crate::reconcile::ReconciliationCheck;
use crate::risk::{risk_answer, risk_check_defined, RiskGuard, RiskLimits, RiskState};
use crate::validation::ValidationMetrics;
use crate::strategy_spec::{trim_text, trimmed};
use crate::text::{
    lemma_text_lt_total, lemma_text_lt_transitive, push_char, str_eq, str_lt, text_lt,
};
use crate::validation::texts;
use vstd::prelude::*;
use vstd::string::*;

verus! {

/// How the executor runs a spec.
#[derive(Debug, Clone, Copy, PartialEq, Eq, Structural)]
pub enum Mode {
    Backtest,
    Paper,
    Live,
}

impl Mode {
    pub fn as_str(self) -> (r: &'static str)
        ensures
            r@ == (match self {
                Mode::Backtest => "backtest"@,
                Mode::Paper => "paper"@,
                Mode::Live => "live"@,
            }),
    {
        match self {
            Mode::Backtest => "backtest",
            Mode::Paper => "paper",
            Mode::Live => "live",
        }
    }
}

/// `char::to_ascii_lowercase`.
pub open spec fn ascii_lower_char(c: char) -> char {
    if 'A' <= c <= 'Z' {
        ((c as int) + 32) as char
    } else {
        c
    }
}

/// `str::to_ascii_lowercase`.
pub open spec fn ascii_lower(s: Seq<char>) -> Seq<char> {
    s.map_values(|c: char| ascii_lower_char(c))
}

/// The text with ASCII capitals made lower-case.
pub fn to_ascii_lowercase(s: &str) -> (r: String)
    ensures
        r@ == ascii_lower(s@),
{
    let n = s.unicode_len();
    let mut out = String::new();
    let mut i: usize = 0;
    while i < n
        invariant
            n == s@.len(),
            i <= n,
            out@ =~= ascii_lower(s@.take(i as int)),
        decreases n - i,
    {
        let c = s.get_char(i);
        let k = c as u32;
        let lower = if 65 <= k && k <= 90 {
            ((k + 32) as u8) as char
        } else {
            c
        };
        push_char(&mut out, lower);
        assert(ascii_lower(s@.take(i + 1)) =~= ascii_lower(s@.take(i as int)).push(
            ascii_lower_char(c),
        ));
        i = i + 1;
    }
    assert(s@.take(n as int) =~= s@);
    out
}

/// The trade stream of `symbol` on the venue.
pub open spec fn spec_ws_url(exchange: Exchange, symbol: Seq<char>) -> Seq<char> {
    match exchange {
        Exchange::Binance => "wss://stream.binance.com:9443/ws/"@ + ascii_lower(symbol) + "@trade"@,
        Exchange::Bybit => "wss://stream.bybit.com/v5/public/spot"@,
    }
}

pub fn ws_url(exchange: Exchange, symbol: &str) -> (r: String)
    ensures
        r@ == spec_ws_url(exchange, symbol@),
{
    match exchange {
        Exchange::Binance => {
            let mut url = String::from_str("wss://stream.binance.com:9443/ws/");
            url.append(to_ascii_lowercase(symbol).as_str());
            url.append("@trade");
            url
        },
        Exchange::Bybit => String::from_str("wss://stream.bybit.com/v5/public/spot"),
    }
}

/// The scopes of a stored broker key: each trimmed and lower-cased, the empty ones dropped.
pub open spec fn clean_scopes(raw: Seq<Seq<char>>) -> Seq<Seq<char>>
    decreases raw.len(),
{
    if raw.len() == 0 {
        seq![]
    } else {
        let s = ascii_lower(trimmed(raw.last()));
        if s.len() == 0 {
            clean_scopes(raw.drop_last())
        } else {
            clean_scopes(raw.drop_last()).push(s)
        }
    }
}

/// The live mode needs the key's scopes from its stored metadata; none at all is refused.
pub fn parse_broker_key_scope(raw_scopes: &[String]) -> (r: Result<Vec<String>, String>)
    ensures
        match r {
            Ok(v) => texts(v@) == clean_scopes(texts(raw_scopes@)) && v@.len() > 0,
            Err(m) => clean_scopes(texts(raw_scopes@)).len() == 0 && m@
                == "--broker-key-scope (EXEC_BROKER_KEY_SCOPE) is required in live mode; pass trusted stored broker-key metadata"@,
        },
{
    let mut scopes: Vec<String> = Vec::new();
    let mut i: usize = 0;
    while i < raw_scopes.len()
        invariant
            i <= raw_scopes@.len(),
            texts(scopes@) == clean_scopes(texts(raw_scopes@).take(i as int)),
        decreases raw_scopes@.len() - i,
    {
        let ghost pre = texts(raw_scopes@).take(i as int);
        assert(texts(raw_scopes@).take(i + 1).drop_last() =~= pre);
        assert(texts(raw_scopes@).take(i + 1).last() == raw_scopes@[i as int]@);
        let cleaned = to_ascii_lowercase(trim_text(raw_scopes[i].as_str()));
        if cleaned.as_str().unicode_len() > 0 {
            let ghost before = texts(scopes@);
            let ghost c = cleaned@;
            scopes.push(cleaned);
            assert(texts(scopes@) =~= before.push(c));
        }
        i = i + 1;
    }
    assert(texts(raw_scopes@).take(raw_scopes@.len() as int) =~= texts(raw_scopes@));
    if scopes.len() == 0 {
        return Err(
            String::from_str(
                "--broker-key-scope (EXEC_BROKER_KEY_SCOPE) is required in live mode; pass trusted stored broker-key metadata",
            ),
        );
    }
    Ok(scopes)
}

/// A symbol's lot-size and notional filters.
#[derive(Debug, Clone, Copy)]
pub struct SymbolTradingFilters {
    pub step_size: Dec,
    pub min_qty: Dec,
    pub min_notional: Dec,
}

/// `value` truncated to a multiple of `step_size`; an error for a step that is not positive;
/// `None` where the decimal arithmetic overflows.
pub open spec fn spec_floor_to_step(value: (int, nat), step_size: (int, nat)) -> Option<
    Result<(int, nat), Seq<char>>,
> {
    if step_size.0 <= 0 {
        Some(Err("step size must be positive"@))
    } else {
        match decimal_quotient(value, step_size) {
            Some(q) => match decimal_product(decimal_trunc(q), step_size) {
                Some(r) => Some(Ok(r)),
                None => None,
            },
            None => None,
        }
    }
}

pub open spec fn dec_result(r: Result<Dec, String>) -> Result<(int, nat), Seq<char>> {
    match r {
        Ok(d) => Ok(d@),
        Err(m) => Err(m@),
    }
}

fn floor_to_step_core(value: Dec, step_size: Dec) -> (r: Option<Result<Dec, String>>)
    ensures
        match r {
            Some(x) => spec_floor_to_step(value@, step_size@) == Some(dec_result(x)),
            None => spec_floor_to_step(value@, step_size@) is None,
        },
{
    if !step_size.is_positive() {
        return Some(Err(String::from_str("step size must be positive")));
    }
    match value.checked_div(step_size) {
        Some(q) => match q.trunc().checked_mul(step_size) {
            Some(r) => Some(Ok(r)),
            None => None,
        },
        None => None,
    }
}

/// Truncates `value` to a whole number of steps.
pub fn floor_to_step(value: Dec, step_size: Dec) -> (r: Result<Dec, String>)
    requires
        spec_floor_to_step(value@, step_size@) is Some,
    ensures
        spec_floor_to_step(value@, step_size@) == Some(dec_result(r)),
{
    match floor_to_step_core(value, step_size) {
        Some(r) => r,
        None => Err(String::new()),
    }
}

/// Truncates `value` to a whole number of steps, or `None` where that overflows.
pub fn floor_to_step_checked(value: Dec, step_size: Dec) -> (r: Option<Result<Dec, String>>)
    ensures
        match r {
            Some(x) => spec_floor_to_step(value@, step_size@) == Some(dec_result(x)),
            None => spec_floor_to_step(value@, step_size@) is None,
        },
{
    if floor_to_step_core(value, step_size).is_some() {
        Some(floor_to_step(value, step_size))
    } else {
        None
    }
}

/// The live smoke quantity: 95% of the quote cap at the reference price, truncated to the lot
/// step, refused where it is zero or under the venue's minimum quantity or notional.
pub open spec fn spec_live_smoke_qty(
    quote_cap: (int, nat),
    reference_price: (int, nat),
    filters: SymbolTradingFilters,
) -> Option<Result<(int, nat), Seq<char>>> {
    if quote_cap.0 <= 0 {
        Some(Err("live smoke quote cap must be positive"@))
    } else if reference_price.0 <= 0 {
        Some(Err("live smoke reference price must be positive"@))
    } else {
        match decimal_product(quote_cap, (95int, 2nat)) {
            None => None,
            Some(a) => match decimal_quotient(a, reference_price) {
                None => None,
                Some(b) => match spec_floor_to_step(b, filters.step_size@) {
                    None => None,
                    Some(Err(m)) => Some(Err(m)),
                    Some(Ok(qty)) => if qty.0 <= 0 {
                        Some(
                            Err(
                                "live smoke quote cap "@ + decimal_text(quote_cap)
                                    + " is too small for reference price "@ + decimal_text(
                                    reference_price,
                                ),
                            ),
                        )
                    } else if num_lt(qty, filters.min_qty@) {
                        Some(
                            Err(
                                "live smoke quantity "@ + decimal_text(qty)
                                    + " is below exchange minQty "@ + decimal_text(
                                    filters.min_qty@,
                                ),
                            ),
                        )
                    } else {
                        match decimal_product(qty, reference_price) {
                            None => None,
                            Some(n) => if num_lt(n, filters.min_notional@) {
                                Some(
                                    Err(
                                        "live smoke notional "@ + decimal_text(n)
                                            + " is below exchange minNotional "@ + decimal_text(
                                            filters.min_notional@,
                                        ),
                                    ),
                                )
                            } else {
                                Some(Ok(qty))
                            },
                        }
                    },
                },
            },
        }
    }
}

fn two_part_message(a: &str, x: Dec, b: &str, y: Dec) -> (r: String)
    ensures
        r@ == a@ + decimal_text(x@) + b@ + decimal_text(y@),
{
    let mut m = String::from_str(a);
    m.append(x.to_text().as_str());
    m.append(b);
    m.append(y.to_text().as_str());
    m
}

fn live_smoke_qty_core(quote_cap: Dec, reference_price: Dec, filters: SymbolTradingFilters) -> (r:
    Option<Result<Dec, String>>)
    ensures
        match r {
            Some(x) => spec_live_smoke_qty(quote_cap@, reference_price@, filters) == Some(
                dec_result(x),
            ),
            None => spec_live_smoke_qty(quote_cap@, reference_price@, filters) is None,
        },
{
    if !quote_cap.is_positive() {
        return Some(Err(String::from_str("live smoke quote cap must be positive")));
    }
    if !reference_price.is_positive() {
        return Some(Err(String::from_str("live smoke reference price must be positive")));
    }
    let a = match quote_cap.checked_mul(Dec::new(95, 2)) {
        Some(a) => a,
        None => {
            return None;
        },
    };
    let b = match a.checked_div(reference_price) {
        Some(b) => b,
        None => {
            return None;
        },
    };
    let qty = match floor_to_step_core(b, filters.step_size) {
        None => {
            return None;
        },
        Some(Err(m)) => {
            return Some(Err(m));
        },
        Some(Ok(q)) => q,
    };
    if !qty.is_positive() {
        return Some(
            Err(
                two_part_message(
                    "live smoke quote cap ",
                    quote_cap,
                    " is too small for reference price ",
                    reference_price,
                ),
            ),
        );
    }
    if qty.lt(&filters.min_qty) {
        return Some(
            Err(
                two_part_message(
                    "live smoke quantity ",
                    qty,
                    " is below exchange minQty ",
                    filters.min_qty,
                ),
            ),
        );
    }
    let notional = match qty.checked_mul(reference_price) {
        Some(n) => n,
        None => {
            return None;
        },
    };
    if notional.lt(&filters.min_notional) {
        return Some(
            Err(
                two_part_message(
                    "live smoke notional ",
                    notional,
                    " is below exchange minNotional ",
                    filters.min_notional,
                ),
            ),
        );
    }
    Some(Ok(qty))
}

/// The quantity of the live smoke buy: quote-capped, with a 5% buffer, on the lot step, and
/// within the venue's minimum quantity and notional.
pub fn calculate_live_smoke_qty(
    quote_cap: Dec,
    reference_price: Dec,
    filters: SymbolTradingFilters,
) -> (r: Result<Dec, String>)
    requires
        spec_live_smoke_qty(quote_cap@, reference_price@, filters) is Some,
    ensures
        spec_live_smoke_qty(quote_cap@, reference_price@, filters) == Some(dec_result(r)),
{
    match live_smoke_qty_core(quote_cap, reference_price, filters) {
        Some(r) => r,
        None => Err(String::new()),
    }
}

/// The live smoke quantity, or `None` where the decimal arithmetic overflows.
pub fn calculate_live_smoke_qty_checked(
    quote_cap: Dec,
    reference_price: Dec,
    filters: SymbolTradingFilters,
) -> (r: Option<Result<Dec, String>>)
    ensures
        match r {
            Some(x) => spec_live_smoke_qty(quote_cap@, reference_price@, filters) == Some(
                dec_result(x),
            ),
            None => spec_live_smoke_qty(quote_cap@, reference_price@, filters) is None,
        },
{
    if live_smoke_qty_core(quote_cap, reference_price, filters).is_some() {
        Some(calculate_live_smoke_qty(quote_cap, reference_price, filters))
    } else {
        None
    }
}

/// The order that closes a position: sell a long, buy back a short; nothing for a flat one.
pub fn flatten_order_for_position(qty: Dec) -> (r: Option<(Side, Dec)>)
    ensures
        match r {
            Some((side, q)) => {
                &&& qty@.0 != 0
                &&& side == (if qty@.0 > 0 {
                    Side::Sell
                } else {
                    Side::Buy
                })
                &&& q@ == (if qty@.0 > 0 {
                    qty@
                } else {
                    (-qty@.0, qty@.1)
                })
            },
            None => qty@.0 == 0,
        },
{
    if qty.is_positive() {
        Some((Side::Sell, qty))
    } else if qty.is_negative() {
        Some((Side::Buy, qty.abs()))
    } else {
        None
    }
}

pub(crate) proof fn lemma_push_to_set(s: Seq<Seq<char>>, x: Seq<char>)
    ensures
        s.push(x).to_set() == s.to_set().insert(x),
{
    assert forall|y: Seq<char>| s.push(x).to_set().contains(y) <==> s.to_set().insert(x).contains(
        y,
    ) by {
        if s.push(x).to_set().contains(y) {
            let k = choose|k: int| 0 <= k < s.push(x).len() && s.push(x)[k] == y;
            if k < s.len() {
                assert(s[k] == y);
            }
        }
        if s.to_set().contains(y) {
            let k = choose|k: int| 0 <= k < s.len() && s[k] == y;
            assert(s.push(x)[k] == y);
        }
        if y == x {
            assert(s.push(x)[s.len() as int] == y);
        }
    }
    assert(s.push(x).to_set() =~= s.to_set().insert(x));
}

/// Strictly increasing texts.
pub open spec fn texts_sorted(s: Seq<Seq<char>>) -> bool {
    forall|i: int, j: int| 0 <= i < j < s.len() ==> text_lt(s[i], s[j])
}

/// Inserts `x` into a sorted, duplicate-free list, unless it is there already.
pub(crate) fn insert_sorted(v: &mut Vec<String>, x: &str)
    requires
        texts_sorted(texts(old(v)@)),
    ensures
        texts_sorted(texts(final(v)@)),
        texts(final(v)@).to_set() == texts(old(v)@).to_set().insert(x@),
{
    let ghost t0 = texts(v@);
    let mut i: usize = 0;
    while i < v.len() && str_lt(v[i].as_str(), x)
        invariant
            i <= v@.len(),
            t0 == texts(v@),
            texts_sorted(t0),
            forall|j: int| 0 <= j < i ==> text_lt(#[trigger] t0[j], x@),
        decreases v@.len() - i,
    {
        i = i + 1;
    }
    if i < v.len() && !str_lt(x, v[i].as_str()) {
        proof {
            lemma_text_lt_total(x@, t0[i as int]);
            assert(t0[i as int] == x@);
            assert(t0.to_set() =~= t0.to_set().insert(x@));
        }
        return;
    }
    v.insert(i, String::from_str(x));
    proof {
        let t1 = texts(v@);
        assert(t1 =~= t0.insert(i as int, x@));
        assert forall|a: int, b: int| 0 <= a < b < t1.len() implies text_lt(t1[a], t1[b]) by {
            if b < i {
            } else if a < i && b == i {
            } else if a < i && b > i {
                assert(t1[b] == t0[b - 1]);
                assert(text_lt(t0[a], x@));
                if i < t0.len() {
                    assert(text_lt(x@, t0[i as int]));
                    if b - 1 > i {
                        lemma_text_lt_transitive(x@, t0[i as int], t0[b - 1]);
                    }
                    lemma_text_lt_transitive(t0[a], x@, t0[b - 1]);
                }
            } else if a == i {
                assert(t1[b] == t0[b - 1]);
                if i < t0.len() {
                    lemma_text_lt_total(x@, t0[i as int]);
                    if b - 1 > i {
                        lemma_text_lt_transitive(x@, t0[i as int], t0[b - 1]);
                    }
                }
            } else {
                assert(t1[a] == t0[a - 1]);
                assert(t1[b] == t0[b - 1]);
            }
        }
        assert(t1.to_set() =~= t0.to_set().insert(x@)) by {
            assert forall|y: Seq<char>| t1.to_set().contains(y) <==> t0.to_set().insert(
                x@,
            ).contains(y) by {
                if t1.to_set().contains(y) {
                    let k = choose|k: int| 0 <= k < t1.len() && t1[k] == y;
                    if k < i {
                        assert(t0[k] == y);
                    } else if k > i {
                        assert(t0[k - 1] == y);
                    }
                }
                if t0.to_set().contains(y) {
                    let k = choose|k: int| 0 <= k < t0.len() && t0[k] == y;
                    if k < i {
                        assert(t1[k] == y);
                    } else {
                        assert(t1[k + 1] == y);
                    }
                }
                if y == x@ {
                    assert(t1[i as int] == y);
                }
            }
        }
    }
}

/// The symbols whose open orders a kill-switch cancels: those with a position and those with
/// an open order in the outbox, each once, in order.
pub fn kill_switch_cancel_symbols(positions: &LivePositionState, outbox: &OrderOutbox) -> (r: Vec<
    String,
>)
    ensures
        texts_sorted(texts(r@)),
        texts(r@).to_set() == positions.positions@.map_values(
            |e: (Seq<char>, (int, nat))| e.0,
        ).to_set() + open_symbols_of(outbox@).to_set(),
{
    let held = positions.open_symbols();
    let open = outbox.open_order_symbols();
    let mut out: Vec<String> = Vec::new();
    let ghost a = texts(held@);
    let ghost b = texts(open@);
    assert(texts(out@).to_set() =~= a.take(0).to_set());
    let mut i: usize = 0;
    while i < held.len()
        invariant
            i <= held@.len(),
            a == texts(held@),
            texts_sorted(texts(out@)),
            texts(out@).to_set() == a.take(i as int).to_set(),
        decreases held@.len() - i,
    {
        insert_sorted(&mut out, held[i].as_str());
        assert(a.take(i + 1) =~= a.take(i as int).push(a[i as int]));
        proof {
            lemma_push_to_set(a.take(i as int), a[i as int]);
        }
        i = i + 1;
    }
    assert(a.take(held@.len() as int) =~= a);
    let mut k: usize = 0;
    assert(b.take(0).to_set() =~= Set::<Seq<char>>::empty());
    while k < open.len()
        invariant
            k <= open@.len(),
            b == texts(open@),
            texts_sorted(texts(out@)),
            texts(out@).to_set() == a.to_set() + b.take(k as int).to_set(),
        decreases open@.len() - k,
    {
        insert_sorted(&mut out, open[k].as_str());
        assert(b.take(k + 1) =~= b.take(k as int).push(b[k as int]));
        proof {
            lemma_push_to_set(b.take(k as int), b[k as int]);
        }
        assert(a.to_set() + b.take(k + 1).to_set() =~= (a.to_set() + b.take(k as int).to_set()).insert(
            b[k as int],
        ));
        k = k + 1;
    }
    assert(b.take(open@.len() as int) =~= b);
    out
}

// ---- a kill-switch's flattening orders ----

/// An order that flattens one position.
#[derive(Debug, Clone)]
pub struct FlattenOrder {
    pub symbol: String,
    pub side: Side,
    pub qty: Dec,
    pub client_order_id: u128,
}

/// The flattening orders of a book, in symbol order: against each nonzero position, the
/// opposite side for its size, under the client order id of the intent
/// `"ks-flatten-{symbol}"`.
pub open spec fn spec_flatten_orders(book: Seq<(Seq<char>, (int, nat))>, spec_hash: Seq<char>) -> Seq<
    (Seq<char>, Side, (int, nat), u128),
>
    decreases book.len(),
{
    if book.len() == 0 {
        seq![]
    } else {
        let rest = spec_flatten_orders(book.drop_last(), spec_hash);
        let (sym, q) = book.last();
        if q.0 == 0 {
            rest
        } else {
            rest.push(
                (
                    sym,
                    if q.0 > 0 {
                        Side::Sell
                    } else {
                        Side::Buy
                    },
                    if q.0 > 0 {
                        q
                    } else {
                        (-q.0, q.1)
                    },
                    uuid_v5_oid(client_order_id_name(spec_hash, "ks-flatten-"@ + sym)),
                ),
            )
        }
    }
}

pub open spec fn flatten_view(o: FlattenOrder) -> (Seq<char>, Side, (int, nat), u128) {
    (o.symbol@, o.side, o.qty@, o.client_order_id)
}

/// The orders a kill-switch that flattens places, one per open position.
pub fn kill_switch_flatten_orders(positions: &LivePositionState, spec_hash: &str) -> (r: Vec<
    FlattenOrder,
>)
    ensures
        r@.map_values(|o: FlattenOrder| flatten_view(o)) == spec_flatten_orders(
            positions.positions@,
            spec_hash@,
        ),
{
    let ghost book = positions.positions@;
    let mut out: Vec<FlattenOrder> = Vec::new();
    let mut i: usize = 0;
    while i < positions.positions.len()
        invariant
            i <= book.len(),
            book == positions.positions@,
            out@.map_values(|o: FlattenOrder| flatten_view(o)) == spec_flatten_orders(
                book.take(i as int),
                spec_hash@,
            ),
        decreases book.len() - i,
    {
        let (symbol, qty) = positions.positions.entry(i);
        assert(book.take(i + 1).drop_last() =~= book.take(i as int));
        assert(book.take(i + 1).last() == book[i as int]);
        match flatten_order_for_position(qty) {
            Some((side, q)) => {
                let mut intent_id = String::from_str("ks-flatten-");
                intent_id.append(symbol.as_str());
                let client_order_id = deterministic_client_order_id(spec_hash, intent_id.as_str());
                let ghost before = out@.map_values(|o: FlattenOrder| flatten_view(o));
                let order = FlattenOrder { symbol, side, qty: q, client_order_id };
                let ghost v = flatten_view(order);
                out.push(order);
                assert(out@.map_values(|o: FlattenOrder| flatten_view(o)) =~= before.push(v));
            },
            None => {},
        }
        i = i + 1;
    }
    assert(book.take(book.len() as int) =~= book);
    out
}

/// The audit result of a kill-switch: `ok`, or how many flattening orders failed.
pub fn kill_switch_result(flatten_errors: usize) -> (r: String)
    ensures
        r@ == (if flatten_errors == 0 {
            "ok"@
        } else {
            crate::text::nat_text(flatten_errors as nat) + " flatten error(s)"@
        }),
{
    if flatten_errors == 0 {
        String::from_str("ok")
    } else {
        let mut s = crate::text::u64_text(flatten_errors as u64);
        s.append(" flatten error(s)");
        s
    }
}

// ---- the live loop ----

/// Why the live loop stops and triggers the kill-switch.
#[derive(Debug, Clone)]
pub enum LiveStop {
    Signal,
    StaleCache,
    RiskGuard(ExecAlert),
}

fn copy_limits(l: &RiskLimits) -> (r: RiskLimits)
    ensures
        r == *l,
{
    RiskLimits {
        kill_switch_active: l.kill_switch_active,
        max_daily_loss_pct: l.max_daily_loss_pct,
        max_position_pct: l.max_position_pct,
        max_concurrent_orders: l.max_concurrent_orders,
    }
}

/// The check at the top of each live-loop turn, in order: a kill signal, then limits that
/// fail closed (the kill switch is on), then the risk guard on the current state.
pub fn live_loop_decision(kill_signal: bool, effective: &RiskLimits, state: &RiskState) -> (r:
    Option<LiveStop>)
    requires
        kill_signal || effective.kill_switch_active || risk_check_defined(*effective, *state),
    ensures
        kill_signal ==> r matches Some(LiveStop::Signal),
        !kill_signal && effective.kill_switch_active ==> r matches Some(LiveStop::StaleCache),
        !kill_signal && !effective.kill_switch_active ==> match r {
            None => risk_answer(Ok(()), *effective, *state),
            Some(LiveStop::RiskGuard(alert)) => risk_answer(Err(alert), *effective, *state),
            Some(_) => false,
        },
{
    if kill_signal {
        return Some(LiveStop::Signal);
    }
    if effective.kill_switch_active {
        return Some(LiveStop::StaleCache);
    }
    let guard = RiskGuard::new(copy_limits(effective));
    match guard.check(state) {
        Ok(()) => None,
        Err(alert) => Some(LiveStop::RiskGuard(alert)),
    }
}

/// The live-loop check, or `None` where the risk guard's arithmetic would overflow.
pub fn live_loop_decision_checked(kill_signal: bool, effective: &RiskLimits, state: &RiskState) -> (r:
    Option<Option<LiveStop>>)
    ensures
        r is None <==> (!kill_signal && !effective.kill_switch_active && !risk_check_defined(
            *effective,
            *state,
        )),
        r matches Some(d) ==> (kill_signal ==> (d matches Some(LiveStop::Signal))),
        r matches Some(d) ==> (!kill_signal && effective.kill_switch_active ==> (d matches Some(
            LiveStop::StaleCache,
        ))),
        r matches Some(d) ==> (!kill_signal && !effective.kill_switch_active ==> match d {
            None => risk_answer(Ok(()), *effective, *state),
            Some(LiveStop::RiskGuard(alert)) => risk_answer(Err(alert), *effective, *state),
            Some(_) => false,
        }),
{
    if kill_signal || effective.kill_switch_active {
        return Some(live_loop_decision(kill_signal, effective, state));
    }
    let guard = RiskGuard::new(copy_limits(effective));
    if guard.check_checked(state).is_some() {
        Some(live_loop_decision(kill_signal, effective, state))
    } else {
        None
    }
}

// ---- paper validation ----

/// The limits paper and live sessions run under: no kill switch, a 2% daily loss, 5% gross
/// exposure and five open orders.
pub fn paper_limits() -> (r: RiskLimits)
    ensures
        !r.kill_switch_active,
        r.max_daily_loss_pct@ == (2int, 0nat),
        r.max_position_pct@ == (5int, 0nat),
        r.max_concurrent_orders == 5,
{
    RiskLimits {
        kill_switch_active: false,
        max_daily_loss_pct: Dec::new(2, 0),
        max_position_pct: Dec::new(5, 0),
        max_concurrent_orders: 5,
    }
}

/// What a paper validation must show: ten trades, at most 8% drawdown and 25 basis points of
/// slippage against the backtest, no risk guard events or execution errors, and both
/// walk-forward and out-of-sample checks.
pub fn paper_scorecard_thresholds() -> (r: crate::validation::ScorecardThresholds)
    ensures
        r.min_trades == 10,
        r.max_drawdown_pct@ == (8int, 0nat),
        r.max_slippage_bps_vs_backtest@ == (25int, 0nat),
        r.max_risk_guard_events == 0,
        r.max_exec_errors == 0,
        r.require_walk_forward,
        r.require_oos,
{
    crate::validation::ScorecardThresholds {
        min_trades: 10,
        max_drawdown_pct: Dec::new(8, 0),
        max_slippage_bps_vs_backtest: Dec::new(25, 0),
        max_risk_guard_events: 0,
        max_exec_errors: 0,
        require_walk_forward: true,
        require_oos: true,
    }
}

/// The metrics a validation smoke run reports without watching the market: twelve trades over
/// seven days, 3.2% drawdown, 8 basis points of slippage, no events or errors, both checks
/// passed.
pub fn validation_smoke_metrics() -> (r: ValidationMetrics)
    ensures
        r.trades == 12,
        r.max_drawdown_pct@ == (32int, 1nat),
        r.slippage_bps_vs_backtest@ == (8int, 0nat),
        r.risk_guard_events == 0,
        r.exec_errors == 0,
        r.walk_forward_passed,
        r.oos_passed,
        r.run_days == 7,
{
    ValidationMetrics {
        trades: 12,
        max_drawdown_pct: Dec::new(32, 1),
        slippage_bps_vs_backtest: Dec::new(8, 0),
        risk_guard_events: 0,
        exec_errors: 0,
        walk_forward_passed: true,
        oos_passed: true,
        run_days: 7,
    }
}

/// The virtual order a paper validator places after `fills_so_far` fills: buys and sells
/// alternate, starting with a buy, for 0.001 of the symbol.
pub fn paper_fill_intent(fills_so_far: usize, symbol: &str) -> (r: OrderIntent)
    requires
        fills_so_far < usize::MAX,
    ensures
        r.intent_id@ == "paper-"@ + crate::text::nat_text((fills_so_far + 1) as nat),
        r.symbol@ == symbol@,
        r.side == (if fills_so_far % 2 == 0 {
            Side::Buy
        } else {
            Side::Sell
        }),
        r.qty@ == (1int, 3nat),
{
    let mut intent_id = String::from_str("paper-");
    intent_id.append(crate::text::u64_text((fills_so_far + 1) as u64).as_str());
    OrderIntent {
        intent_id,
        symbol: String::from_str(symbol),
        side: if fills_so_far % 2 == 0 {
            Side::Buy
        } else {
            Side::Sell
        },
        qty: Dec::new(1, 3),
    }
}

/// The days a paper run counts: the full validation period when it ran to the end, else the
/// whole days elapsed (none when the clock went backwards).
pub fn validation_elapsed_days(completed_full_duration: bool, validation_days: u32, whole_days: i64) -> (r:
    u32)
    ensures
        r == (if completed_full_duration {
            validation_days
        } else if whole_days < 0 {
            0u32
        } else {
            whole_days as u32
        }),
{
    if completed_full_duration {
        validation_days
    } else if whole_days < 0 {
        0
    } else {
        whole_days as u32
    }
}

/// The metrics a paper run reports: its fills as trades (counted modulo 2^32), its errors,
/// no drawdown, ten basis points of slippage, and both out-of-sample checks passed.
pub fn paper_validation_metrics(
    fills: usize,
    risk_guard_events: u32,
    exec_errors: u32,
    run_days: u32,
) -> (r: ValidationMetrics)
    ensures
        r.trades == fills as u32,
        r.max_drawdown_pct@ == (0int, 0nat),
        r.slippage_bps_vs_backtest@ == (10int, 0nat),
        r.risk_guard_events == risk_guard_events,
        r.exec_errors == exec_errors,
        r.walk_forward_passed,
        r.oos_passed,
        r.run_days == run_days,
{
    ValidationMetrics {
        trades: fills as u32,
        max_drawdown_pct: Dec::zero(),
        slippage_bps_vs_backtest: Dec::from_u64(10),
        risk_guard_events,
        exec_errors,
        walk_forward_passed: true,
        oos_passed: true,
        run_days,
    }
}

// ---- the venue's trading filters ----

/// One filter of a symbol as the venue lists it.
#[derive(Debug, Clone)]
pub struct SymbolFilterInfo {
    pub filter_type: String,
    pub step_size: Option<String>,
    pub min_qty: Option<String>,
    pub min_notional: Option<String>,
}

/// A symbol and its filters as the venue lists them.
#[derive(Debug, Clone)]
pub struct ExchangeSymbolInfo {
    pub symbol: String,
    pub filters: Vec<SymbolFilterInfo>,
}

/// The first listed symbol named `symbol` at or after `i` (the length when there is none).
pub open spec fn first_symbol(s: Seq<ExchangeSymbolInfo>, symbol: Seq<char>, i: int) -> int
    decreases s.len() - i,
{
    if 0 <= i < s.len() && s[i].symbol@ != symbol {
        first_symbol(s, symbol, i + 1)
    } else {
        i
    }
}

pub open spec fn is_lot_size(f: SymbolFilterInfo) -> bool {
    f.filter_type@ == "LOT_SIZE"@
}

pub open spec fn is_notional(f: SymbolFilterInfo) -> bool {
    f.filter_type@ == "MIN_NOTIONAL"@ || f.filter_type@ == "NOTIONAL"@
}

/// The first lot-size filter at or after `i`.
pub open spec fn first_lot_size(f: Seq<SymbolFilterInfo>, i: int) -> int
    decreases f.len() - i,
{
    if 0 <= i < f.len() && !is_lot_size(f[i]) {
        first_lot_size(f, i + 1)
    } else {
        i
    }
}

/// The first notional filter at or after `i`.
pub open spec fn first_notional(f: Seq<SymbolFilterInfo>, i: int) -> int
    decreases f.len() - i,
{
    if 0 <= i < f.len() && !is_notional(f[i]) {
        first_notional(f, i + 1)
    } else {
        i
    }
}

pub open spec fn opt_text(o: Option<String>) -> Option<Seq<char>> {
    match o {
        Some(s) => Some(s@),
        None => None,
    }
}

/// The minimum notional: that of the first notional filter when it states one (exactly
/// parsed), else zero.
pub open spec fn spec_min_notional(f: Seq<SymbolFilterInfo>) -> Result<(int, nat), Seq<char>> {
    let ni = first_notional(f, 0);
    if 0 <= ni < f.len() && f[ni].min_notional is Some {
        match decimal_parse_exact(f[ni].min_notional.unwrap()@) {
            Some(v) => Ok(v),
            None => Err("parse minNotional"@),
        }
    } else {
        Ok((0int, 0nat))
    }
}

/// The trading filters of `symbol` from the venue's listing: its lot step and minimum
/// quantity (both required and exactly parsed) and minimum notional; the step must be
/// positive and the minimums not negative.
pub open spec fn spec_trading_filters(symbol: Seq<char>, symbols: Seq<ExchangeSymbolInfo>) -> Result<
    ((int, nat), (int, nat), (int, nat)),
    Seq<char>,
> {
    let si = first_symbol(symbols, symbol, 0);
    if !(0 <= si < symbols.len()) {
        Err("exchangeInfo missing symbol "@ + symbol)
    } else {
        let fs = symbols[si].filters@;
        let li = first_lot_size(fs, 0);
        if !(0 <= li < fs.len()) {
            Err("exchangeInfo missing LOT_SIZE for "@ + symbol)
        } else {
            match opt_text(fs[li].step_size) {
                None => Err("LOT_SIZE missing stepSize"@),
                Some(st) => match decimal_parse_exact(st) {
                    None => Err("parse stepSize"@),
                    Some(step) => match opt_text(fs[li].min_qty) {
                        None => Err("LOT_SIZE missing minQty"@),
                        Some(mt) => match decimal_parse_exact(mt) {
                            None => Err("parse minQty"@),
                            Some(min_qty) => match spec_min_notional(fs) {
                                Err(m) => Err(m),
                                Ok(min_notional) => if step.0 <= 0 {
                                    Err("exchangeInfo stepSize must be positive"@)
                                } else if min_qty.0 < 0 {
                                    Err("exchangeInfo minQty must be non-negative"@)
                                } else if min_notional.0 < 0 {
                                    Err("exchangeInfo minNotional must be non-negative"@)
                                } else {
                                    Ok((step, min_qty, min_notional))
                                },
                            },
                        },
                    },
                },
            }
        }
    }
}

fn is_lot_size_filter(f: &SymbolFilterInfo) -> (r: bool)
    ensures
        r == is_lot_size(*f),
{
    crate::text::str_eq(f.filter_type.as_str(), "LOT_SIZE")
}

fn is_notional_filter(f: &SymbolFilterInfo) -> (r: bool)
    ensures
        r == is_notional(*f),
{
    crate::text::str_eq(f.filter_type.as_str(), "MIN_NOTIONAL") || crate::text::str_eq(
        f.filter_type.as_str(),
        "NOTIONAL",
    )
}

fn min_notional_of(fs: &Vec<SymbolFilterInfo>) -> (r: Result<Dec, String>)
    ensures
        dec_result(r) == spec_min_notional(fs@),
{
    let mut i: usize = 0;
    while i < fs.len() && !is_notional_filter(&fs[i])
        invariant
            i <= fs@.len(),
            first_notional(fs@, 0) == first_notional(fs@, i as int),
        decreases fs@.len() - i,
    {
        i = i + 1;
    }
    if i < fs.len() {
        match &fs[i].min_notional {
            Some(t) => match Dec::parse_exact(t.as_str()) {
                Some(v) => Ok(v),
                None => Err(String::from_str("parse minNotional")),
            },
            None => Ok(Dec::zero()),
        }
    } else {
        Ok(Dec::zero())
    }
}

pub open spec fn filters_view(f: SymbolTradingFilters) -> ((int, nat), (int, nat), (int, nat)) {
    (f.step_size@, f.min_qty@, f.min_notional@)
}

/// Picks `symbol`'s trading filters out of the venue's listing.
pub fn select_trading_filters(symbol: &str, symbols: &Vec<ExchangeSymbolInfo>) -> (r: Result<
    SymbolTradingFilters,
    String,
>)
    ensures
        match r {
            Ok(f) => spec_trading_filters(symbol@, symbols@) == Ok::<
                ((int, nat), (int, nat), (int, nat)),
                Seq<char>,
            >(filters_view(f)),
            Err(m) => spec_trading_filters(symbol@, symbols@) == Err::<
                ((int, nat), (int, nat), (int, nat)),
                Seq<char>,
            >(m@),
        },
{
    let mut si: usize = 0;
    while si < symbols.len() && !crate::text::str_eq(symbols[si].symbol.as_str(), symbol)
        invariant
            si <= symbols@.len(),
            first_symbol(symbols@, symbol@, 0) == first_symbol(symbols@, symbol@, si as int),
        decreases symbols@.len() - si,
    {
        si = si + 1;
    }
    if si == symbols.len() {
        let mut m = String::from_str("exchangeInfo missing symbol ");
        m.append(symbol);
        return Err(m);
    }
    let fs = &symbols[si].filters;
    let mut li: usize = 0;
    while li < fs.len() && !is_lot_size_filter(&fs[li])
        invariant
            li <= fs@.len(),
            first_lot_size(fs@, 0) == first_lot_size(fs@, li as int),
        decreases fs@.len() - li,
    {
        li = li + 1;
    }
    if li == fs.len() {
        let mut m = String::from_str("exchangeInfo missing LOT_SIZE for ");
        m.append(symbol);
        return Err(m);
    }
    let lot = &fs[li];
    let step_size = match &lot.step_size {
        None => {
            return Err(String::from_str("LOT_SIZE missing stepSize"));
        },
        Some(t) => match Dec::parse_exact(t.as_str()) {
            None => {
                return Err(String::from_str("parse stepSize"));
            },
            Some(v) => v,
        },
    };
    let min_qty = match &lot.min_qty {
        None => {
            return Err(String::from_str("LOT_SIZE missing minQty"));
        },
        Some(t) => match Dec::parse_exact(t.as_str()) {
            None => {
                return Err(String::from_str("parse minQty"));
            },
            Some(v) => v,
        },
    };
    let min_notional = match min_notional_of(fs) {
        Ok(v) => v,
        Err(m) => {
            return Err(m);
        },
    };
    if !step_size.is_positive() {
        return Err(String::from_str("exchangeInfo stepSize must be positive"));
    }
    if min_qty.is_negative() {
        return Err(String::from_str("exchangeInfo minQty must be non-negative"));
    }
    if min_notional.is_negative() {
        return Err(String::from_str("exchangeInfo minNotional must be non-negative"));
    }
    Ok(SymbolTradingFilters { step_size, min_qty, min_notional })
}

// ---- the live smoke round trip ----

/// The free base balance the buy added (zero if the balance did not grow).
pub open spec fn spec_sellable_delta(pre_free: (int, nat), post_free: (int, nat)) -> Option<(int, nat)> {
    if num_lt(pre_free, post_free) {
        decimal_difference(post_free, pre_free)
    } else {
        Some((0int, 0nat))
    }
}

pub open spec fn balances_text(pre_free: (int, nat), post_free: (int, nat), executed: (int, nat)) -> Seq<
    char,
> {
    "; pre_buy_free_base="@ + decimal_text(pre_free) + ", post_buy_free_base="@ + decimal_text(
        post_free,
    ) + ", executed_qty="@ + decimal_text(executed)
}

/// The quantity the smoke test sells back: the smaller of what the buy executed and what it
/// added to the free balance, on the lot step, refused under the venue's minimum quantity or
/// notional; `None` where the decimal arithmetic overflows.
pub open spec fn spec_smoke_sell_qty(
    executed: (int, nat),
    pre_free: (int, nat),
    post_free: (int, nat),
    filters: SymbolTradingFilters,
    reference_price: (int, nat),
) -> Option<Result<(int, nat), Seq<char>>> {
    match spec_sellable_delta(pre_free, post_free) {
        None => None,
        Some(delta) => match spec_floor_to_step(
            crate::decimal::parts_min(executed, delta),
            filters.step_size@,
        ) {
            None => None,
            Some(Err(m)) => Some(Err(m)),
            Some(Ok(sell)) => if num_lt(sell, filters.min_qty@) {
                Some(
                    Err(
                        "live smoke sellable quantity "@ + decimal_text(sell)
                            + " is below exchange minQty "@ + decimal_text(filters.min_qty@)
                            + balances_text(pre_free, post_free, executed),
                    ),
                )
            } else {
                match decimal_product(sell, reference_price) {
                    None => None,
                    Some(n) => if num_lt(n, filters.min_notional@) {
                        Some(
                            Err(
                                "live smoke sell notional "@ + decimal_text(n)
                                    + " is below exchange minNotional "@ + decimal_text(
                                    filters.min_notional@,
                                ) + balances_text(pre_free, post_free, executed),
                            ),
                        )
                    } else {
                        Some(Ok(sell))
                    },
                }
            },
        },
    }
}

fn balances_suffix(pre_free: Dec, post_free: Dec, executed: Dec) -> (r: String)
    ensures
        r@ == balances_text(pre_free@, post_free@, executed@),
{
    let mut m = String::from_str("; pre_buy_free_base=");
    m.append(pre_free.to_text().as_str());
    m.append(", post_buy_free_base=");
    m.append(post_free.to_text().as_str());
    m.append(", executed_qty=");
    m.append(executed.to_text().as_str());
    m
}

/// The sell-back quantity of the live smoke round trip, or `None` where the decimal
/// arithmetic overflows.
pub fn smoke_sell_qty(
    executed: Dec,
    pre_free: Dec,
    post_free: Dec,
    filters: SymbolTradingFilters,
    reference_price: Dec,
) -> (r: Option<Result<Dec, String>>)
    ensures
        match r {
            Some(x) => spec_smoke_sell_qty(
                executed@,
                pre_free@,
                post_free@,
                filters,
                reference_price@,
            ) == Some(dec_result(x)),
            None => spec_smoke_sell_qty(
                executed@,
                pre_free@,
                post_free@,
                filters,
                reference_price@,
            ) is None,
        },
{
    let delta = if pre_free.lt(&post_free) {
        match post_free.checked_sub(pre_free) {
            Some(d) => d,
            None => {
                return None;
            },
        }
    } else {
        Dec::zero()
    };
    let sell = match floor_to_step_core(executed.min(delta), filters.step_size) {
        None => {
            return None;
        },
        Some(Err(m)) => {
            return Some(Err(m));
        },
        Some(Ok(s)) => s,
    };
    if sell.lt(&filters.min_qty) {
        let mut m = two_part_message(
            "live smoke sellable quantity ",
            sell,
            " is below exchange minQty ",
            filters.min_qty,
        );
        m.append(balances_suffix(pre_free, post_free, executed).as_str());
        return Some(Err(m));
    }
    let notional = match sell.checked_mul(reference_price) {
        Some(n) => n,
        None => {
            return None;
        },
    };
    if notional.lt(&filters.min_notional) {
        let mut m = two_part_message(
            "live smoke sell notional ",
            notional,
            " is below exchange minNotional ",
            filters.min_notional,
        );
        m.append(balances_suffix(pre_free, post_free, executed).as_str());
        return Some(Err(m));
    }
    Some(Ok(sell))
}

/// The average price of a reported fill: quote spent over quantity (zero without a quantity);
/// either text that does not parse exactly counts as zero.
pub open spec fn spec_fill_price(executed_qty: Seq<char>, cumulative_quote_qty: Seq<char>) -> Option<
    (int, nat),
> {
    let q = match decimal_parse_exact(executed_qty) {
        Some(v) => v,
        None => (0int, 0nat),
    };
    let c = match decimal_parse_exact(cumulative_quote_qty) {
        Some(v) => v,
        None => (0int, 0nat),
    };
    if q.0 > 0 {
        decimal_quotient(c, q)
    } else {
        Some((0int, 0nat))
    }
}

/// The reconciliation of the smoke buy: the local record (symbol, buy, the executed quantity,
/// the reported average price) against the venue's order status (its symbol, `BUY` or else a
/// sell, its executed quantity, the same price).
pub open spec fn spec_smoke_check(
    client_order_id: u128,
    symbol: Seq<char>,
    executed: (int, nat),
    status_symbol: Seq<char>,
    status_side: Seq<char>,
    status_executed_qty: Seq<char>,
    price: (int, nat),
    c: ReconciliationCheck,
) -> bool {
    &&& c.client_order_id == client_order_id
    &&& c.local_symbol@ == symbol
    &&& c.local_side == Side::Buy
    &&& c.local_qty@ == executed
    &&& c.local_price@ == price
    &&& c.exchange_symbol@ == status_symbol
    &&& c.exchange_side == (if status_side == "BUY"@ {
        Side::Buy
    } else {
        Side::Sell
    })
    &&& c.exchange_qty@ == (match decimal_parse_exact(status_executed_qty) {
        Some(v) => v,
        None => (0int, 0nat),
    })
    &&& c.exchange_price@ == price
}

/// Builds the smoke buy's reconciliation check, or `None` where the average price overflows.
pub fn smoke_reconciliation_check(
    client_order_id: u128,
    symbol: &str,
    executed: Dec,
    status_symbol: &str,
    status_side: &str,
    status_executed_qty: &str,
    status_cumulative_quote_qty: &str,
) -> (r: Option<ReconciliationCheck>)
    ensures
        r is Some <==> spec_fill_price(status_executed_qty@, status_cumulative_quote_qty@) is Some,
        r matches Some(c) ==> spec_smoke_check(
            client_order_id,
            symbol@,
            executed@,
            status_symbol@,
            status_side@,
            status_executed_qty@,
            spec_fill_price(status_executed_qty@, status_cumulative_quote_qty@).unwrap(),
            c,
        ),
{
    let ex_qty = match Dec::parse_exact(status_executed_qty) {
        Some(v) => v,
        None => Dec::zero(),
    };
    let ex_price = if ex_qty.is_positive() {
        let quote = match Dec::parse_exact(status_cumulative_quote_qty) {
            Some(v) => v,
            None => Dec::zero(),
        };
        match quote.checked_div(ex_qty) {
            Some(p) => p,
            None => {
                return None;
            },
        }
    } else {
        Dec::zero()
    };
    Some(
        ReconciliationCheck {
            client_order_id,
            local_symbol: String::from_str(symbol),
            local_side: Side::Buy,
            local_qty: executed,
            local_price: ex_price,
            exchange_symbol: String::from_str(status_symbol),
            exchange_side: if crate::text::str_eq(status_side, "BUY") {
                Side::Buy
            } else {
                Side::Sell
            },
            exchange_qty: ex_qty,
            exchange_price: ex_price,
        },
    )
}

/// Whether a failed cancel-all is still a success: only the exchange's "no such order"
/// answer (HTTP 400 with code -2011) means there was nothing to cancel.
pub fn cancel_all_failure_is_benign(status: u16, error_code: Option<i64>) -> (r: bool)
    ensures
        r == (status == 400 && error_code == Some(-2011i64)),
{
    status == 400 && match error_code {
        Some(c) => c == -2011,
        None => false,
    }
}

/// The index of the first balance of `asset` (the length when there is none).
pub open spec fn first_asset(balances: Seq<(String, String)>, asset: Seq<char>, i: int) -> int
    decreases balances.len() - i,
{
    if 0 <= i < balances.len() && balances[i].0@ != asset {
        first_asset(balances, asset, i + 1)
    } else {
        i
    }
}

/// The free balance of `asset` in an account's `(asset, free)` list: the first entry's text
/// ("0" where the asset is missing) read exactly as a decimal; `None` where it does not read.
pub open spec fn spec_free_balance(balances: Seq<(String, String)>, asset: Seq<char>) -> Option<
    (int, nat),
> {
    let p = first_asset(balances, asset, 0);
    decimal_parse_exact(
        if p < balances.len() {
            balances[p].1@
        } else {
            "0"@
        },
    )
}

pub fn free_balance_of(balances: &Vec<(String, String)>, asset: &str) -> (r: Option<Dec>)
    ensures
        opt_view(r) == spec_free_balance(balances@, asset@),
{
    let mut i: usize = 0;
    while i < balances.len()
        invariant
            i <= balances@.len(),
            first_asset(balances@, asset@, 0) == first_asset(balances@, asset@, i as int),
        decreases balances.len() - i,
    {
        if str_eq(balances[i].0.as_str(), asset) {
            assert(first_asset(balances@, asset@, i as int) == i);
            return Dec::parse_exact(balances[i].1.as_str());
        }
        i = i + 1;
    }
    Dec::parse_exact("0")
}

/// The time of a trade given in milliseconds, or `now` where there is none or chrono cannot
/// represent it.
pub open spec fn millis_time(millis: Option<i64>, now: (int, int)) -> (int, int) {
    match millis {
        Some(m) => if utc_timestamp_valid(m / 1000, (m % 1000) * 1000000) {
            (m / 1000, (m % 1000) * 1000000)
        } else {
            now
        },
        None => now,
    }
}

/// The tick a trade message of the venue's stream carries: Binance's symbol `s`, price `p`
/// (read exactly) and trade time `T`, all required; Bybit's first row of `data`, whose symbol
/// defaults to the subscribed one and whose time is optional.
pub open spec fn spec_trade_tick(
    exchange: Exchange,
    fallback_symbol: Seq<char>,
    payload: JsonValue,
    now: (int, int),
) -> Option<(Seq<char>, (int, nat), (int, int))> {
    match exchange {
        Exchange::Binance => match (
            json_text(json_get(payload, "s"@)),
            json_text(json_get(payload, "p"@)),
            json_i64(json_get(payload, "T"@)),
        ) {
            (Some(sym), Some(p), Some(t)) => match decimal_parse_exact(p) {
                Some(price) => Some((sym, price, millis_time(Some(t), now))),
                None => None,
            },
            _ => None,
        },
        Exchange::Bybit => {
            let rows = json_items(json_get(payload, "data"@));
            if rows.len() == 0 {
                None
            } else {
                let trade = rows[0];
                let sym = match json_text(json_get(trade, "s"@)) {
                    Some(s) => s,
                    None => fallback_symbol,
                };
                match json_text(json_get(trade, "p"@)) {
                    Some(p) => match decimal_parse_exact(p) {
                        Some(price) => Some(
                            (sym, price, millis_time(json_i64(json_get(trade, "T"@)), now)),
                        ),
                        None => None,
                    },
                    None => None,
                }
            }
        },
    }
}

fn time_from_millis(millis: Option<i64>, now: Timestamp) -> (r: Timestamp)
    ensures
        r@ == millis_time(millis, now@),
{
    match millis {
        Some(m) => match Timestamp::from_millis(m) {
            Some(t) => t,
            None => now,
        },
        None => now,
    }
}

fn i64_member(v: &JsonValue, key: &str) -> (r: Option<i64>)
    ensures
        r == json_i64(json_get(*v, key@)),
{
    match v.get(key) {
        Some(x) => x.as_i64(),
        None => None,
    }
}

/// Reads a trade message of the venue's stream as a tick; `now` stands for a trade time that
/// is missing or out of range.
pub fn trade_tick(exchange: Exchange, fallback_symbol: &str, payload: &JsonValue, now: Timestamp) -> (r:
    Option<MarketTick>)
    ensures
        match r {
            Some(t) => spec_trade_tick(exchange, fallback_symbol@, *payload, now@) == Some(
                (t.symbol@, t.price@, t.ts@),
            ),
            None => spec_trade_tick(exchange, fallback_symbol@, *payload, now@) is None,
        },
{
    match exchange {
        Exchange::Binance => {
            let sym = member_text(payload, "s");
            let p = member_text(payload, "p");
            let t = i64_member(payload, "T");
            match (sym, p, t) {
                (Some(sym), Some(p), Some(t)) => match Dec::parse_exact(p) {
                    Some(price) => Some(
                        MarketTick {
                            symbol: sym.to_string(),
                            price,
                            ts: time_from_millis(Some(t), now),
                        },
                    ),
                    None => None,
                },
                _ => None,
            }
        },
        Exchange::Bybit => {
            let rows = member_items(payload, "data");
            if rows.len() == 0 {
                return None;
            }
            let trade = &rows[0];
            let sym = match member_text(trade, "s") {
                Some(s) => s,
                None => fallback_symbol,
            };
            match member_text(trade, "p") {
                Some(p) => match Dec::parse_exact(p) {
                    Some(price) => Some(
                        MarketTick {
                            symbol: sym.to_string(),
                            price,
                            ts: time_from_millis(i64_member(trade, "T"), now),
                        },
                    ),
                    None => None,
                },
                None => None,
            }
        },
    }
}

} // verus!
