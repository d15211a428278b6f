//! Fill reconciliation: what the local outbox recorded against what the venue reported.
use crate::decimal::{
    decimal_difference, decimal_product, decimal_quotient, num_gt, num_lt, parts_abs,
    Dec,
};
use crate::market::Side;
use vstd::prelude::*;

verus! {

/// A fill as the outbox recorded it beside the fill the venue reported for the same order.
#[derive(Debug, Clone)]
pub struct ReconciliationCheck {
    pub client_order_id: u128,
    pub local_symbol: String,
    pub local_side: Side,
    pub local_qty: Dec,
    pub local_price: Dec,
    pub exchange_symbol: String,
    pub exchange_side: Side,
    pub exchange_qty: Dec,
    pub exchange_price: Dec,
}

/// The first disagreement found, or `Matched`.
#[derive(Debug, Clone)]
pub enum ReconciliationResult {
    Matched,
    SymbolMismatch { local: String, exchange: String },
    SideMismatch { local: Side, exchange: Side },
    QtyMismatch { local: Dec, exchange: Dec, diff: Dec },
    PriceDriftExcessive { diff_bps: Dec },
}

/// A reconciliation result with its texts and decimals taken by their views.
pub enum Reconciled {
    Matched,
    SymbolMismatch(Seq<char>, Seq<char>),
    SideMismatch(Side, Side),
    QtyMismatch((int, nat), (int, nat), (int, nat)),
    PriceDriftExcessive((int, nat)),
}

impl View for ReconciliationResult {
    type V = Reconciled;

    open spec fn view(&self) -> Reconciled {
        match self {
            ReconciliationResult::Matched => Reconciled::Matched,
            ReconciliationResult::SymbolMismatch { local, exchange } => Reconciled::SymbolMismatch(
                local@,
                exchange@,
            ),
            ReconciliationResult::SideMismatch { local, exchange } => Reconciled::SideMismatch(
                *local,
                *exchange,
            ),
            ReconciliationResult::QtyMismatch { local, exchange, diff } => Reconciled::QtyMismatch(
                local@,
                exchange@,
                diff@,
            ),
            ReconciliationResult::PriceDriftExcessive { diff_bps } =>
                Reconciled::PriceDriftExcessive(diff_bps@),
        }
    }
}

/// The price drift in basis points, `|local - exchange| / exchange * 10000` (`None` where the
/// decimal arithmetic overflows).
pub open spec fn spec_drift_bps(local_price: (int, nat), exchange_price: (int, nat)) -> Option<
    (int, nat),
> {
    match decimal_difference(local_price, exchange_price) {
        Some(d) => match decimal_quotient(parts_abs(d), exchange_price) {
            Some(q) => decimal_product(q, (10000int, 0nat)),
            None => None,
        },
        None => None,
    }
}

/// The outcome of reconciling `c`: the symbol is compared first, then the side, then the
/// quantity, then (against a positive venue price) the price drift. `None` where the decimal
/// arithmetic overflows.
pub open spec fn spec_reconcile(c: ReconciliationCheck, max_price_diff_bps: (int, nat)) -> Option<
    Reconciled,
> {
    if c.local_symbol@ != c.exchange_symbol@ {
        Some(Reconciled::SymbolMismatch(c.local_symbol@, c.exchange_symbol@))
    } else if c.local_side != c.exchange_side {
        Some(Reconciled::SideMismatch(c.local_side, c.exchange_side))
    } else {
        match decimal_difference(c.local_qty@, c.exchange_qty@) {
            None => None,
            Some(d) => if parts_abs(d).0 > 0 {
                Some(Reconciled::QtyMismatch(c.local_qty@, c.exchange_qty@, parts_abs(d)))
            } else if c.exchange_price@.0 > 0 {
                match spec_drift_bps(c.local_price@, c.exchange_price@) {
                    None => None,
                    Some(bps) => if num_gt(bps, max_price_diff_bps) {
                        Some(Reconciled::PriceDriftExcessive(bps))
                    } else {
                        Some(Reconciled::Matched)
                    },
                }
            } else {
                Some(Reconciled::Matched)
            },
        }
    }
}

/// The venue reports exactly what the outbox recorded.
pub open spec fn fill_agrees(c: ReconciliationCheck) -> bool {
    &&& c.local_symbol@ == c.exchange_symbol@
    &&& c.local_side == c.exchange_side
    &&& c.local_qty@ == c.exchange_qty@
    &&& c.local_price@ == c.exchange_price@
}

impl ReconciliationResult {
    pub fn is_matched(&self) -> (r: bool)
        ensures
            r <==> self@ is Matched,
    {
        match self {
            ReconciliationResult::Matched => true,
            _ => false,
        }
    }
}

fn reconcile_core(check: &ReconciliationCheck, max_price_diff_bps: Dec) -> (r: Option<
    ReconciliationResult,
>)
    ensures
        match r {
            Some(x) => spec_reconcile(*check, max_price_diff_bps@) == Some(x@),
            None => spec_reconcile(*check, max_price_diff_bps@) is None,
        },
        fill_agrees(*check) && !num_lt(max_price_diff_bps@, (0int, 0nat)) ==> (r matches Some(x)
            && x@ is Matched),
{
    if check.local_symbol != check.exchange_symbol {
        return Some(
            ReconciliationResult::SymbolMismatch {
                local: check.local_symbol.clone(),
                exchange: check.exchange_symbol.clone(),
            },
        );
    }
    if check.local_side != check.exchange_side {
        return Some(
            ReconciliationResult::SideMismatch {
                local: check.local_side,
                exchange: check.exchange_side,
            },
        );
    }
    let qty_diff = match check.local_qty.checked_sub(check.exchange_qty) {
        Some(d) => d.abs(),
        None => {
            return None;
        },
    };
    if qty_diff.is_positive() {
        return Some(
            ReconciliationResult::QtyMismatch {
                local: check.local_qty,
                exchange: check.exchange_qty,
                diff: qty_diff,
            },
        );
    }
    if check.exchange_price.is_positive() {
        let price_diff = match check.local_price.checked_sub(check.exchange_price) {
            Some(d) => d.abs(),
            None => {
                return None;
            },
        };
        let ratio = match price_diff.checked_div(check.exchange_price) {
            Some(q) => q,
            None => {
                return None;
            },
        };
        let diff_bps = match ratio.checked_mul(Dec::from_u64(10000)) {
            Some(b) => b,
            None => {
                return None;
            },
        };
        if diff_bps.gt(&max_price_diff_bps) {
            return Some(ReconciliationResult::PriceDriftExcessive { diff_bps });
        }
    }
    Some(ReconciliationResult::Matched)
}

/// Compares the recorded fill with the venue's: symbol, then side, then quantity, then
/// (against a positive venue price) a price drift above `max_price_diff_bps`.
pub fn reconcile_fill(check: &ReconciliationCheck, max_price_diff_bps: Dec) -> (r:
    ReconciliationResult)
    requires
        spec_reconcile(*check, max_price_diff_bps@) is Some,
    ensures
        r@ == spec_reconcile(*check, max_price_diff_bps@).unwrap(),
{
    match reconcile_core(check, max_price_diff_bps) {
        Some(r) => r,
        None => ReconciliationResult::Matched,
    }
}

/// Reconciles the fill, or gives `None` where the decimal arithmetic overflows.
pub fn reconcile_fill_checked(check: &ReconciliationCheck, max_price_diff_bps: Dec) -> (r: Option<
    ReconciliationResult,
>)
    ensures
        match r {
            Some(x) => spec_reconcile(*check, max_price_diff_bps@) == Some(x@),
            None => spec_reconcile(*check, max_price_diff_bps@) is None,
        },
        fill_agrees(*check) && !num_lt(max_price_diff_bps@, (0int, 0nat)) ==> (r matches Some(x)
            && x@ is Matched),
{
    if reconcile_core(check, max_price_diff_bps).is_some() {
        Some(reconcile_fill(check, max_price_diff_bps))
    } else {
        None
    }
}

} // verus!
