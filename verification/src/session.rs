//! The decisions of a live session, each a step from what is known to what to do next: the
//! pre-flight gates before any order, the kill-switch's cancels and flattening orders, the
//! paper validator's fills and the live smoke round trip.
use crate::decimal::{decimal_difference, decimal_parse_exact, num_lt, Dec};
use crate::live::{
    check_compliance_gate, spec_compliance_gate, spec_confirmation_token, spec_scope_check,
    BrokerCredentials, ComplianceError, ComplianceRecord, ConfirmationGate, KmsError, KmsFailure,
};
use crate::market::{Exchange, Side};
use crate::orders::{
    client_order_id_name, deterministic_client_order_id, holds_id, ids_increasing,
    open_symbols_of, spec_paper_price, uuid_v5_oid, Fill, MarketTick, OrderIntent, OrderOutbox,
    OutboxOrder, OutboxStatus, PaperBroker,
};
use crate::positions::{book_get, spec_after_fill, LivePositionState};
use crate::reconcile::{
    reconcile_fill_checked, spec_reconcile, ReconciliationCheck, ReconciliationResult,
};
use crate::risk::KillSwitchAction;
use crate::runner::{
    calculate_live_smoke_qty_checked, flatten_view, kill_switch_cancel_symbols,
    kill_switch_flatten_orders, paper_fill_intent, paper_validation_metrics,
    smoke_reconciliation_check, smoke_sell_qty, spec_fill_price, spec_flatten_orders,
    spec_live_smoke_qty, spec_smoke_check, spec_smoke_sell_qty, texts_sorted,
    validation_elapsed_days, FlattenOrder, SymbolTradingFilters,
};
use crate::text::nat_text;
use crate::validation::{texts, ValidationMetrics};
use vstd::prelude::*;
use vstd::string::*;

verus! {

// ---- pre-flight ----

/// Why a live session is refused before its first audit entry.
#[derive(Debug, Clone)]
pub enum LiveRefusal {
    /// The broker key's scope grants no trading, or grants withdrawals.
    Scope(KmsError),
    /// The user's compliance record is incomplete.
    Compliance(ComplianceError),
    /// The hold-to-confirm token is not the one bound to this spec, account and venue.
    ConfirmationMismatch,
    /// Live and dry-run execution run on Binance only.
    UnsupportedExchange,
}

/// What a session does once its gates have passed.
#[derive(Debug, Clone, Copy, PartialEq, Eq, Structural)]
pub enum LiveNext {
    /// A dry run stops after the checks; no order is placed.
    DryRunComplete,
    /// The single buy-then-sell round trip.
    Smoke,
    /// Strategy execution beyond the smoke round trip is refused after the audit entry.
    StrategyRejected,
}

/// The audit actions a session writes and what it goes on to do.
#[derive(Debug, Clone)]
pub struct LivePlan {
    pub audit_actions: Vec<String>,
    pub next: LiveNext,
    pub place_orders: bool,
}

/// The session that passed its gates: `go_live` first, then a dry run's completion or the
/// rejection of strategy execution; a smoke round trip writes its own entries.
pub open spec fn spec_live_next(dry_run: bool, live_smoke: bool) -> LiveNext {
    if dry_run {
        LiveNext::DryRunComplete
    } else if live_smoke {
        LiveNext::Smoke
    } else {
        LiveNext::StrategyRejected
    }
}

pub open spec fn spec_live_audit_actions(dry_run: bool, live_smoke: bool) -> Seq<Seq<char>> {
    match spec_live_next(dry_run, live_smoke) {
        LiveNext::DryRunComplete => seq!["go_live"@, "dry_run_complete"@],
        LiveNext::Smoke => seq!["go_live"@],
        LiveNext::StrategyRejected => seq!["go_live"@, "live_strategy_rejected"@],
    }
}

/// Every gate passes: the key scope, the compliance record, the confirmation token and the
/// venue, in that order.
pub open spec fn live_gates_pass(
    scope: Seq<Seq<char>>,
    compliance: ComplianceRecord,
    token: Seq<char>,
    spec_hash: Seq<char>,
    account_id: Seq<char>,
    exchange: Exchange,
) -> bool {
    &&& spec_scope_check(scope) is Ok
    &&& spec_compliance_gate(compliance) is Ok
    &&& token == spec_confirmation_token(spec_hash, account_id, exchange)
    &&& exchange == Exchange::Binance
}

/// The pre-flight of a live session. The gates are checked in order and the first that fails
/// refuses the session, before anything is written; once all pass, the session writes
/// `go_live` and goes on as `dry_run` and `live_smoke` say. Orders are placed only by the
/// smoke round trip of a session that is not a dry run.
pub fn live_preflight(
    creds: &BrokerCredentials,
    compliance: &ComplianceRecord,
    token: &str,
    spec_hash: &str,
    account_id: &str,
    exchange: Exchange,
    dry_run: bool,
    live_smoke: bool,
) -> (r: Result<LivePlan, LiveRefusal>)
    ensures
        r is Ok <== live_gates_pass(
            texts(creds.scope@),
            *compliance,
            token@,
            spec_hash@,
            account_id@,
            exchange,
        ),
        match r {
            Err(LiveRefusal::Scope(e)) => spec_scope_check(texts(creds.scope@)) == Err::<
                (),
                KmsFailure,
            >(e@),
            Err(LiveRefusal::Compliance(e)) => {
                &&& spec_scope_check(texts(creds.scope@)) is Ok
                &&& spec_compliance_gate(*compliance) == Err::<(), ComplianceError>(e)
            },
            Err(LiveRefusal::ConfirmationMismatch) => {
                &&& spec_scope_check(texts(creds.scope@)) is Ok
                &&& spec_compliance_gate(*compliance) is Ok
                &&& token@ != spec_confirmation_token(spec_hash@, account_id@, exchange)
            },
            Err(LiveRefusal::UnsupportedExchange) => {
                &&& spec_scope_check(texts(creds.scope@)) is Ok
                &&& spec_compliance_gate(*compliance) is Ok
                &&& token@ == spec_confirmation_token(spec_hash@, account_id@, exchange)
                &&& exchange == Exchange::Bybit
            },
            Ok(p) => {
                &&& live_gates_pass(
                    texts(creds.scope@),
                    *compliance,
                    token@,
                    spec_hash@,
                    account_id@,
                    exchange,
                )
                &&& texts(p.audit_actions@) == spec_live_audit_actions(dry_run, live_smoke)
                &&& p.next == spec_live_next(dry_run, live_smoke)
                &&& p.place_orders == (!dry_run && live_smoke)
            },
        },
{
    match creds.verify_scope() {
        Err(e) => {
            return Err(LiveRefusal::Scope(e));
        },
        Ok(()) => {},
    }
    match check_compliance_gate(compliance) {
        Err(e) => {
            return Err(LiveRefusal::Compliance(e));
        },
        Ok(()) => {},
    }
    if !ConfirmationGate::verify(token, spec_hash, account_id, exchange) {
        return Err(LiveRefusal::ConfirmationMismatch);
    }
    match exchange {
        Exchange::Bybit => {
            return Err(LiveRefusal::UnsupportedExchange);
        },
        Exchange::Binance => {},
    }
    let mut audit_actions: Vec<String> = Vec::new();
    audit_actions.push(String::from_str("go_live"));
    let next = if dry_run {
        audit_actions.push(String::from_str("dry_run_complete"));
        LiveNext::DryRunComplete
    } else if live_smoke {
        LiveNext::Smoke
    } else {
        audit_actions.push(String::from_str("live_strategy_rejected"));
        LiveNext::StrategyRejected
    };
    proof {
        reveal_strlit("go_live");
        reveal_strlit("dry_run_complete");
        reveal_strlit("live_strategy_rejected");
        assert(texts(audit_actions@) =~= spec_live_audit_actions(dry_run, live_smoke));
    }
    Ok(LivePlan { audit_actions, next, place_orders: !dry_run && live_smoke })
}

// ---- the kill-switch ----

/// What a kill-switch does: cancel the open orders of every symbol that has a position or an
/// open order, each attempted whatever the others answered, then, where the action flattens,
/// place the orders that close the positions.
#[derive(Debug, Clone)]
pub struct KillSwitchPlan {
    pub cancels: Vec<String>,
    pub flattens: Vec<FlattenOrder>,
}

pub fn kill_switch_plan(
    positions: &LivePositionState,
    outbox: &OrderOutbox,
    action: &KillSwitchAction,
    spec_hash: &str,
) -> (r: KillSwitchPlan)
    ensures
        texts_sorted(texts(r.cancels@)),
        texts(r.cancels@).to_set() == positions.positions@.map_values(
            |e: (Seq<char>, (int, nat))| e.0,
        ).to_set() + open_symbols_of(outbox@).to_set(),
        r.flattens@.map_values(|o: FlattenOrder| flatten_view(o)) == (if action.flatten_positions {
            spec_flatten_orders(positions.positions@, spec_hash@)
        } else {
            Seq::empty()
        }),
{
    let cancels = kill_switch_cancel_symbols(positions, outbox);
    let flattens = if action.flatten_positions {
        kill_switch_flatten_orders(positions, spec_hash)
    } else {
        let v: Vec<FlattenOrder> = Vec::new();
        assert(v@.map_values(|o: FlattenOrder| flatten_view(o)) =~= Seq::empty());
        v
    };
    KillSwitchPlan { cancels, flattens }
}

// ---- the paper validator ----

/// A paper validation run: its outbox, the virtual fills so far, the execution errors counted
/// and the simulated broker that fills at the tick price moved by its slippage.
#[derive(Debug)]
pub struct PaperRun {
    pub spec_hash: String,
    pub broker: PaperBroker,
    pub outbox: OrderOutbox,
    pub fills: Vec<Fill>,
    pub exec_errors: u32,
}

/// What the paper validator learns from its surroundings.
#[derive(Debug, Clone)]
pub enum PaperEvent {
    /// A trade tick of the symbol; `fill_due` when the next virtual fill is due.
    Tick { tick: MarketTick, fill_due: bool },
    /// The market stream closed or failed.
    StreamLost,
    /// Flushing telemetry failed.
    FlushFailed,
    /// The run ends: at its deadline (`completed_full_duration`) or when its supervisor stops
    /// it, after `whole_days` whole days on the clock.
    End { completed_full_duration: bool, validation_days: u32, whole_days: i64 },
}

/// What the paper validator does next.
#[derive(Debug, Clone)]
pub enum PaperAction {
    /// Publish the tick; no fill was due.
    Publish,
    /// A virtual order was recorded, filled and marked filled: publish it and its fill, the
    /// last of the run's fills, and save the state.
    Filled { client_order_id: u128, intent: OrderIntent },
    /// Reconnect the market stream.
    Reconnect,
    /// Carry on.
    Continue,
    /// Stop with these metrics.
    Stop(ValidationMetrics),
    /// A counter or the fill price overflowed; the run cannot go on.
    Overflow,
}

/// The intent id of the virtual order placed after `k` fills.
pub open spec fn paper_intent_id(k: nat) -> Seq<char> {
    "paper-"@ + nat_text(k + 1)
}

pub open spec fn paper_side(k: nat) -> Side {
    if k % 2 == 0 {
        Side::Buy
    } else {
        Side::Sell
    }
}

/// An intent's fields by their views.
pub open spec fn intent_view(i: OrderIntent) -> (Seq<char>, Seq<char>, Side, (int, nat)) {
    (i.intent_id@, i.symbol@, i.side, i.qty@)
}

/// The outbox after an intent under `id` was recorded and marked filled: a held id has its
/// order marked filled in place; a new one is inserted already filled, the others unchanged.
pub open spec fn recorded_filled(
    before: Seq<OutboxOrder>,
    after: Seq<OutboxOrder>,
    id: u128,
    intent: OrderIntent,
) -> bool {
    if holds_id(before, id) {
        exists|i: int|
            0 <= i < before.len() && before[i].client_order_id == id && after == before.update(
                i,
                OutboxOrder { status: OutboxStatus::Filled, ..before[i] },
            )
    } else {
        exists|p: int|
            0 <= p <= before.len() && after == before.insert(p, after[p])
                && after[p].client_order_id == id && after[p].status == OutboxStatus::Filled
                && intent_view(after[p].intent) == intent_view(intent)
    }
}

proof fn lemma_ids_unique(s: Seq<OutboxOrder>, i: int, j: int)
    requires
        ids_increasing(s),
        0 <= i < s.len(),
        0 <= j < s.len(),
        s[i].client_order_id == s[j].client_order_id,
    ensures
        i == j,
{
    if i < j {
        assert(s[i].client_order_id < s[j].client_order_id);
    } else if j < i {
        assert(s[j].client_order_id < s[i].client_order_id);
    }
}

impl PaperRun {
    /// A run with no fills, no errors and an empty outbox.
    pub fn new(spec_hash: &str, slippage_bps: Dec) -> (r: PaperRun)
        ensures
            r.spec_hash@ == spec_hash@,
            r.broker.slippage_bps == slippage_bps,
            r.outbox@ == Seq::<OutboxOrder>::empty(),
            r.fills@ == Seq::<Fill>::empty(),
            r.exec_errors == 0,
    {
        PaperRun {
            spec_hash: String::from_str(spec_hash),
            broker: PaperBroker::new(slippage_bps),
            outbox: OrderOutbox::new(),
            fills: Vec::new(),
            exec_errors: 0,
        }
    }
}

/// One step of the paper validator. A tick with a fill due records the intent of the
/// `k`-th fill (buys and sells alternating, 0.001 of the tick's symbol) under its
/// deterministic id, fills it at the tick and marks it filled; a lost stream or a failed flush
/// counts an error; the end stops with the run's metrics.
pub fn paper_validator_step(run: &mut PaperRun, event: PaperEvent) -> (r: PaperAction)
    ensures
        final(run).spec_hash == old(run).spec_hash,
        final(run).broker == old(run).broker,
        match event {
            PaperEvent::Tick { tick, fill_due } => {
                let k = old(run).fills@.len();
                let side = paper_side(k);
                let id = uuid_v5_oid(client_order_id_name(old(run).spec_hash@, paper_intent_id(k)));
                if !fill_due {
                    r is Publish && final(run).outbox@ == old(run).outbox@ && final(run).fills@
                        == old(run).fills@ && final(run).exec_errors == old(run).exec_errors
                } else if k + 1 > usize::MAX || spec_paper_price(
                    old(run).broker.slippage_bps@,
                    side,
                    tick.price@,
                ) is None {
                    r is Overflow && final(run).outbox@ == old(run).outbox@ && final(run).fills@
                        == old(run).fills@ && final(run).exec_errors == old(run).exec_errors
                } else {
                    r matches PaperAction::Filled { client_order_id, intent } && {
                        &&& client_order_id == id
                        &&& intent.intent_id@ == paper_intent_id(k)
                        &&& intent.symbol@ == tick.symbol@
                        &&& intent.side == side
                        &&& intent.qty@ == (1int, 3nat)
                        &&& final(run).fills@.len() == k + 1
                        &&& final(run).fills@.take(k as int) == old(run).fills@
                        &&& final(run).fills@[k as int].client_order_id == id
                        &&& final(run).fills@[k as int].symbol@ == tick.symbol@
                        &&& final(run).fills@[k as int].side == side
                        &&& final(run).fills@[k as int].qty@ == (1int, 3nat)
                        &&& final(run).fills@[k as int].price@ == spec_paper_price(
                            old(run).broker.slippage_bps@,
                            side,
                            tick.price@,
                        ).unwrap()
                        &&& final(run).fills@[k as int].ts == tick.ts
                        &&& recorded_filled(old(run).outbox@, final(run).outbox@, id, intent)
                        &&& final(run).exec_errors == old(run).exec_errors
                    }
                }
            },
            PaperEvent::StreamLost | PaperEvent::FlushFailed => {
                &&& final(run).outbox@ == old(run).outbox@
                &&& final(run).fills@ == old(run).fills@
                &&& if old(run).exec_errors == u32::MAX {
                    r is Overflow && final(run).exec_errors == old(run).exec_errors
                } else {
                    &&& final(run).exec_errors == old(run).exec_errors + 1
                    &&& (event is StreamLost ==> r is Reconnect)
                    &&& (event is FlushFailed ==> r is Continue)
                }
            },
            PaperEvent::End { completed_full_duration, validation_days, whole_days } => {
                &&& final(run).outbox@ == old(run).outbox@
                &&& final(run).fills@ == old(run).fills@
                &&& final(run).exec_errors == old(run).exec_errors
                &&& r matches PaperAction::Stop(m) && {
                    &&& m.trades == old(run).fills@.len() as u32
                    &&& m.max_drawdown_pct@ == (0int, 0nat)
                    &&& m.slippage_bps_vs_backtest@ == (10int, 0nat)
                    &&& m.risk_guard_events == 0
                    &&& m.exec_errors == old(run).exec_errors
                    &&& m.walk_forward_passed
                    &&& m.oos_passed
                    &&& m.run_days == (if completed_full_duration {
                        validation_days
                    } else if whole_days < 0 {
                        0u32
                    } else {
                        whole_days as u32
                    })
                }
            },
        },
{
    match event {
        PaperEvent::Tick { tick, fill_due } => {
            if !fill_due {
                return PaperAction::Publish;
            }
            let k = run.fills.len();
            if k == usize::MAX {
                return PaperAction::Overflow;
            }
            let intent = paper_fill_intent(k, tick.symbol.as_str());
            let id = deterministic_client_order_id(run.spec_hash.as_str(), intent.intent_id.as_str());
            let fill = match run.broker.execute_market_checked(id, &intent, &tick) {
                Some(f) => f,
                None => {
                    return PaperAction::Overflow;
                },
            };
            let ghost before = run.outbox@;
            let ghost recorded_intent = intent;
            let recorded = run.outbox.enqueue(run.spec_hash.as_str(), intent);
            assert(recorded == id);
            let ghost mid = run.outbox@;
            let marked = run.outbox.mark(id, OutboxStatus::Filled);
            let published = paper_fill_intent(k, tick.symbol.as_str());
            proof {
                lemma_outbox_filled(before, mid, run.outbox@, id, recorded_intent, published);
            }
            let ghost fills_before = run.fills@;
            run.fills.push(fill);
            assert(run.fills@.take(k as int) =~= fills_before);
            PaperAction::Filled { client_order_id: id, intent: published }
        },
        PaperEvent::StreamLost => {
            if run.exec_errors == u32::MAX {
                return PaperAction::Overflow;
            }
            run.exec_errors = run.exec_errors + 1;
            PaperAction::Reconnect
        },
        PaperEvent::FlushFailed => {
            if run.exec_errors == u32::MAX {
                return PaperAction::Overflow;
            }
            run.exec_errors = run.exec_errors + 1;
            PaperAction::Continue
        },
        PaperEvent::End { completed_full_duration, validation_days, whole_days } => {
            let days = validation_elapsed_days(completed_full_duration, validation_days, whole_days);
            PaperAction::Stop(paper_validation_metrics(run.fills.len(), 0, run.exec_errors, days))
        },
    }
}

proof fn lemma_outbox_filled(
    before: Seq<OutboxOrder>,
    mid: Seq<OutboxOrder>,
    after: Seq<OutboxOrder>,
    id: u128,
    intent: OrderIntent,
    published: OrderIntent,
)
    requires
        intent_view(intent) == intent_view(published),
        ids_increasing(mid),
        holds_id(mid, id),
        holds_id(before, id) ==> mid == before,
        !holds_id(before, id) ==> exists|p: int|
            0 <= p <= before.len() && mid == before.insert(
                p,
                OutboxOrder { client_order_id: id, intent, status: OutboxStatus::Pending },
            ),
        exists|i: int|
            0 <= i < mid.len() && mid[i].client_order_id == id && after == mid.update(
                i,
                OutboxOrder { status: OutboxStatus::Filled, ..mid[i] },
            ),
    ensures
        recorded_filled(before, after, id, published),
{
    let i = choose|i: int|
        0 <= i < mid.len() && mid[i].client_order_id == id && after == mid.update(
            i,
            OutboxOrder { status: OutboxStatus::Filled, ..mid[i] },
        );
    if holds_id(before, id) {
        assert(0 <= i < before.len() && before[i].client_order_id == id);
    } else {
        let p = choose|p: int|
            0 <= p <= before.len() && mid == before.insert(
                p,
                OutboxOrder { client_order_id: id, intent, status: OutboxStatus::Pending },
            );
        assert(mid[p].client_order_id == id);
        lemma_ids_unique(mid, i, p);
        assert(after =~= before.insert(p, after[p]));
    }
}

// ---- the live smoke round trip ----

/// Where the live smoke round trip stands.
#[derive(Debug, Clone, Copy)]
pub enum SmokeStage {
    /// Waiting for the reference price, the symbol's filters and the free base balance.
    Start,
    /// The buy was placed; waiting for its executed quantity.
    Buying { reference_price: Dec, filters: SymbolTradingFilters, pre_free: Dec, buy_id: u128 },
    /// The buy executed and was recorded; waiting for the venue's status of it.
    Reconciling {
        reference_price: Dec,
        filters: SymbolTradingFilters,
        pre_free: Dec,
        executed: Dec,
        buy_id: u128,
    },
    /// The buy reconciled; waiting for the free base balance after it.
    Closing { reference_price: Dec, filters: SymbolTradingFilters, pre_free: Dec, executed: Dec },
    /// The sell was placed; waiting for its final status.
    Selling { sell_qty: Dec },
    Done,
    Failed,
}

/// A live smoke round trip: buy a quote-capped quantity, reconcile it, sell it back.
#[derive(Debug)]
pub struct SmokeRun {
    pub spec_hash: String,
    pub run_id: String,
    pub symbol: String,
    pub quote_cap: Dec,
    pub stage: SmokeStage,
    pub positions: LivePositionState,
}

/// What the round trip learns from the venue.
#[derive(Debug, Clone)]
pub enum SmokeEvent {
    Market { reference_price: Dec, filters: SymbolTradingFilters, pre_free: Dec },
    BuyExecuted { executed_qty: String },
    BuyStatus { symbol: String, side: String, executed_qty: String, cumulative_quote_qty: String },
    PostBuyBalance { post_free: Dec },
    SellStatus { status: String, executed_qty: String },
}

/// Why the round trip stops short.
#[derive(Debug, Clone)]
pub enum SmokeFailure {
    /// Decimal or position arithmetic overflowed.
    Overflow,
    /// The quote-capped buy quantity is refused, with the reason.
    BuyQtyRefused(String),
    /// The venue reported an executed quantity that is not an exact decimal.
    BadExecutedQty,
    /// The buy did not reconcile with the venue's record of it; nothing is sold.
    ReconciliationMismatch,
    /// The sell-back quantity is refused, with the reason.
    SellQtyRefused(String),
    /// The sell ended in another status than `FILLED`.
    SellNotFilled,
    /// The sell executed less than was asked.
    SellShort,
    /// The round trip ended with a position still open.
    NotFlat,
    /// The event does not fit the stage.
    OutOfOrder,
}

/// What the round trip does next.
#[derive(Debug, Clone)]
pub enum SmokeAction {
    /// Place the market buy under this client order id.
    PlaceBuy { qty: Dec, client_order_id: u128 },
    /// Write the buy's audit entry, then ask the venue for the buy's status.
    RecordBuy { executed: Dec },
    /// Write the reconciliation's audit entry (`ok` when matched, else `mismatch`); a matched
    /// buy goes on to the free base balance.
    Reconciled { check: ReconciliationCheck, result: ReconciliationResult, matched: bool },
    /// Place the market sell under this client order id.
    PlaceSell { qty: Dec, client_order_id: u128 },
    /// Write the sell's audit entry and end: completed, or with the failure given.
    Finish { sell_qty: Dec, executed_sell: Dec, failure: Option<SmokeFailure> },
    /// Stop with this failure.
    Fail(SmokeFailure),
}

/// `after` is `before` with a fill of `qty` on `side` applied to `symbol`.
pub open spec fn fill_applied(
    before: LivePositionState,
    after: LivePositionState,
    symbol: Seq<char>,
    side: Side,
    qty: (int, nat),
) -> bool {
    let next = spec_after_fill(before.positions.current(symbol), side, qty);
    &&& next is Some
    &&& book_get(after.positions@, symbol) == (if next.unwrap().0 == 0 {
        None
    } else {
        next
    })
    &&& forall|k: Seq<char>|
        k != symbol ==> #[trigger] book_get(after.positions@, k) == book_get(before.positions@, k)
    &&& after.equity == before.equity
    &&& after.start_of_day_equity == before.start_of_day_equity
}

pub open spec fn smoke_buy_id(spec_hash: Seq<char>, run_id: Seq<char>) -> u128 {
    uuid_v5_oid(client_order_id_name(spec_hash, "smoke-buy-"@ + run_id))
}

pub open spec fn smoke_sell_id(spec_hash: Seq<char>, run_id: Seq<char>) -> u128 {
    uuid_v5_oid(client_order_id_name(spec_hash, "smoke-sell-"@ + run_id))
}

/// The same positions and equity.
pub open spec fn same_positions(a: LivePositionState, b: LivePositionState) -> bool {
    &&& a.positions@ == b.positions@
    &&& a.equity == b.equity
    &&& a.start_of_day_equity == b.start_of_day_equity
}

/// The round trip failed: the stage is `Failed` and the positions are as they were.
pub open spec fn smoke_failed(before: SmokeRun, after: SmokeRun, r: SmokeAction) -> bool {
    &&& r is Fail
    &&& after.stage is Failed
    &&& same_positions(after.positions, before.positions)
}

/// The reconciliation of the smoke buy stays within the decimal range, whichever check
/// value carries the fields that `spec_smoke_check` pins.
pub open spec fn smoke_reconcilable(
    buy_id: u128,
    symbol: Seq<char>,
    executed: (int, nat),
    status_symbol: Seq<char>,
    status_side: Seq<char>,
    status_executed_qty: Seq<char>,
    price: (int, nat),
) -> bool {
    forall|c: ReconciliationCheck|
        #[trigger] spec_smoke_check(
            buy_id,
            symbol,
            executed,
            status_symbol,
            status_side,
            status_executed_qty,
            price,
            c,
        ) ==> spec_reconcile(c, (50int, 0nat)) is Some
}

/// The reconciliation reads a check only through its fields' views.
proof fn lemma_reconcile_by_views(c1: ReconciliationCheck, c2: ReconciliationCheck, m: (int, nat))
    requires
        c1.local_symbol@ == c2.local_symbol@,
        c1.exchange_symbol@ == c2.exchange_symbol@,
        c1.local_side == c2.local_side,
        c1.exchange_side == c2.exchange_side,
        c1.local_qty@ == c2.local_qty@,
        c1.exchange_qty@ == c2.exchange_qty@,
        c1.local_price@ == c2.local_price@,
        c1.exchange_price@ == c2.exchange_price@,
    ensures
        spec_reconcile(c1, m) == spec_reconcile(c2, m),
{
}

/// One step of the live smoke round trip, as the venue's answers come in.
pub open spec fn smoke_transition(
    before: SmokeRun,
    after: SmokeRun,
    event: SmokeEvent,
    r: SmokeAction,
) -> bool {
    let sym = before.symbol@;
    match (before.stage, event) {
        (SmokeStage::Start, SmokeEvent::Market { reference_price, filters, pre_free }) => match spec_live_smoke_qty(
            before.quote_cap@,
            reference_price@,
            filters,
        ) {
            None => smoke_failed(before, after, r) && r == SmokeAction::Fail(SmokeFailure::Overflow),
            Some(Err(m)) => smoke_failed(before, after, r) && (r matches SmokeAction::Fail(
                SmokeFailure::BuyQtyRefused(t),
            ) && t@ == m),
            Some(Ok(q)) => {
                &&& r matches SmokeAction::PlaceBuy { qty, client_order_id } && qty@ == q
                    && client_order_id == smoke_buy_id(before.spec_hash@, before.run_id@)
                &&& after.stage == SmokeStage::Buying {
                    reference_price,
                    filters,
                    pre_free,
                    buy_id: smoke_buy_id(before.spec_hash@, before.run_id@),
                }
                &&& same_positions(after.positions, before.positions)
            },
        },
        (
            SmokeStage::Buying { reference_price, filters, pre_free, buy_id },
            SmokeEvent::BuyExecuted { executed_qty },
        ) => match decimal_parse_exact(executed_qty@) {
            None => smoke_failed(before, after, r) && r == SmokeAction::Fail(
                SmokeFailure::BadExecutedQty,
            ),
            Some(e) => if spec_after_fill(before.positions.positions.current(sym), Side::Buy, e) is None {
                smoke_failed(before, after, r) && r == SmokeAction::Fail(SmokeFailure::Overflow)
            } else {
                &&& r matches SmokeAction::RecordBuy { executed } && executed@ == e
                    && after.stage == SmokeStage::Reconciling {
                    reference_price,
                    filters,
                    pre_free,
                    executed,
                    buy_id,
                }
                &&& fill_applied(before.positions, after.positions, sym, Side::Buy, e)
            },
        },
        (
            SmokeStage::Reconciling { reference_price, filters, pre_free, executed, buy_id },
            SmokeEvent::BuyStatus { symbol, side, executed_qty, cumulative_quote_qty },
        ) => match spec_fill_price(executed_qty@, cumulative_quote_qty@) {
            None => smoke_failed(before, after, r) && r == SmokeAction::Fail(SmokeFailure::Overflow),
            Some(price) => if !smoke_reconcilable(
                buy_id,
                sym,
                executed@,
                symbol@,
                side@,
                executed_qty@,
                price,
            ) {
                smoke_failed(before, after, r) && r == SmokeAction::Fail(SmokeFailure::Overflow)
            } else {
                &&& r matches SmokeAction::Reconciled { check, result, matched } && {
                    &&& spec_smoke_check(
                        buy_id,
                        sym,
                        executed@,
                        symbol@,
                        side@,
                        executed_qty@,
                        price,
                        check,
                    )
                    &&& spec_reconcile(check, (50int, 0nat)) == Some(result@)
                    &&& matched == (result@ is Matched)
                    &&& after.stage == (if matched {
                        SmokeStage::Closing { reference_price, filters, pre_free, executed }
                    } else {
                        SmokeStage::Failed
                    })
                }
                &&& same_positions(after.positions, before.positions)
            },
        },
        (
            SmokeStage::Closing { reference_price, filters, pre_free, executed },
            SmokeEvent::PostBuyBalance { post_free },
        ) => match spec_smoke_sell_qty(
            executed@,
            pre_free@,
            post_free@,
            filters,
            reference_price@,
        ) {
            None => smoke_failed(before, after, r) && r == SmokeAction::Fail(SmokeFailure::Overflow),
            Some(Err(m)) => smoke_failed(before, after, r) && (r matches SmokeAction::Fail(
                SmokeFailure::SellQtyRefused(t),
            ) && t@ == m),
            Some(Ok(sq)) => if !num_lt(sq, executed@) {
                &&& r matches SmokeAction::PlaceSell { qty, client_order_id } && qty@ == sq
                    && client_order_id == smoke_sell_id(before.spec_hash@, before.run_id@)
                    && after.stage == SmokeStage::Selling { sell_qty: qty }
                &&& same_positions(after.positions, before.positions)
            } else {
                match decimal_difference(executed@, sq) {
                    Some(rest) if spec_after_fill(
                        before.positions.positions.current(sym),
                        Side::Sell,
                        rest,
                    ) is Some => {
                        &&& r matches SmokeAction::PlaceSell { qty, client_order_id } && qty@ == sq
                            && client_order_id == smoke_sell_id(before.spec_hash@, before.run_id@)
                            && after.stage == SmokeStage::Selling { sell_qty: qty }
                        &&& fill_applied(before.positions, after.positions, sym, Side::Sell, rest)
                    },
                    _ => smoke_failed(before, after, r) && r == SmokeAction::Fail(
                        SmokeFailure::Overflow,
                    ),
                }
            },
        },
        (SmokeStage::Selling { sell_qty }, SmokeEvent::SellStatus { status, executed_qty }) => match decimal_parse_exact(
            executed_qty@,
        ) {
            None => smoke_failed(before, after, r) && r == SmokeAction::Fail(
                SmokeFailure::BadExecutedQty,
            ),
            Some(x) => if x.0 > 0 && spec_after_fill(before.positions.positions.current(sym), Side::Sell, x) is None {
                smoke_failed(before, after, r) && r == SmokeAction::Fail(SmokeFailure::Overflow)
            } else {
                &&& (if x.0 > 0 {
                    fill_applied(before.positions, after.positions, sym, Side::Sell, x)
                } else {
                    same_positions(after.positions, before.positions)
                })
                &&& r matches SmokeAction::Finish { sell_qty: q, executed_sell, failure } && {
                    &&& q == sell_qty
                    &&& executed_sell@ == x
                    &&& if status@ != "FILLED"@ {
                        failure matches Some(SmokeFailure::SellNotFilled)
                    } else if num_lt(x, sell_qty@) {
                        failure matches Some(SmokeFailure::SellShort)
                    } else if after.positions.positions@.len() != 0 {
                        failure matches Some(SmokeFailure::NotFlat)
                    } else {
                        failure is None
                    }
                    &&& after.stage == (if failure is None {
                        SmokeStage::Done
                    } else {
                        SmokeStage::Failed
                    })
                }
            },
        },
        _ => smoke_failed(before, after, r) && r == SmokeAction::Fail(SmokeFailure::OutOfOrder),
    }
}

impl SmokeRun {
    /// A round trip that has not started, with no position.
    pub fn new(spec_hash: &str, run_id: &str, symbol: &str, quote_cap: Dec) -> (r: SmokeRun)
        ensures
            r.spec_hash@ == spec_hash@,
            r.run_id@ == run_id@,
            r.symbol@ == symbol@,
            r.quote_cap == quote_cap,
            r.stage is Start,
            r.positions.positions@.len() == 0,
    {
        SmokeRun {
            spec_hash: String::from_str(spec_hash),
            run_id: String::from_str(run_id),
            symbol: String::from_str(symbol),
            quote_cap,
            stage: SmokeStage::Start,
            positions: LivePositionState::default(),
        }
    }
}

fn fail_smoke(run: &mut SmokeRun, why: SmokeFailure) -> (r: SmokeAction)
    ensures
        final(run).stage is Failed,
        final(run).positions == old(run).positions,
        final(run).spec_hash == old(run).spec_hash,
        final(run).run_id == old(run).run_id,
        final(run).symbol == old(run).symbol,
        final(run).quote_cap == old(run).quote_cap,
        r == SmokeAction::Fail(why),
{
    run.stage = SmokeStage::Failed;
    SmokeAction::Fail(why)
}

fn intent_with_run(prefix: &str, run_id: &str) -> (r: String)
    ensures
        r@ == prefix@ + run_id@,
{
    let mut s = String::from_str(prefix);
    s.append(run_id);
    s
}

/// One step of the live smoke round trip: a quote-capped buy, its reconciliation with the
/// venue, then the sell-back of what the balance allows. A mismatch stops the round trip
/// before anything is sold.
pub fn live_smoke_step(run: &mut SmokeRun, event: SmokeEvent) -> (r: SmokeAction)
    ensures
        final(run).spec_hash == old(run).spec_hash,
        final(run).run_id == old(run).run_id,
        final(run).symbol == old(run).symbol,
        final(run).quote_cap == old(run).quote_cap,
        smoke_transition(*old(run), *final(run), event, r),
{
    let stage = run.stage;
    match stage {
        SmokeStage::Start => match event {
            SmokeEvent::Market { reference_price, filters, pre_free } => {
                match calculate_live_smoke_qty_checked(run.quote_cap, reference_price, filters) {
                    None => fail_smoke(run, SmokeFailure::Overflow),
                    Some(Err(m)) => fail_smoke(run, SmokeFailure::BuyQtyRefused(m)),
                    Some(Ok(qty)) => {
                        let intent_id = intent_with_run("smoke-buy-", run.run_id.as_str());
                        proof {
                            reveal_strlit("smoke-buy-");
                        }
                        let buy_id = deterministic_client_order_id(
                            run.spec_hash.as_str(),
                            intent_id.as_str(),
                        );
                        run.stage = SmokeStage::Buying { reference_price, filters, pre_free, buy_id };
                        SmokeAction::PlaceBuy { qty, client_order_id: buy_id }
                    },
                }
            },
            _ => fail_smoke(run, SmokeFailure::OutOfOrder),
        },
        SmokeStage::Buying { reference_price, filters, pre_free, buy_id } => match event {
            SmokeEvent::BuyExecuted { executed_qty } => match Dec::parse_exact(executed_qty.as_str()) {
                None => fail_smoke(run, SmokeFailure::BadExecutedQty),
                Some(executed) => {
                    if run.positions.try_update_fill(run.symbol.as_str(), Side::Buy, executed) {
                        run.stage = SmokeStage::Reconciling {
                            reference_price,
                            filters,
                            pre_free,
                            executed,
                            buy_id,
                        };
                        SmokeAction::RecordBuy { executed }
                    } else {
                        fail_smoke(run, SmokeFailure::Overflow)
                    }
                },
            },
            _ => fail_smoke(run, SmokeFailure::OutOfOrder),
        },
        SmokeStage::Reconciling { reference_price, filters, pre_free, executed, buy_id } => match event {
            SmokeEvent::BuyStatus { symbol, side, executed_qty, cumulative_quote_qty } => {
                match smoke_reconciliation_check(
                    buy_id,
                    run.symbol.as_str(),
                    executed,
                    symbol.as_str(),
                    side.as_str(),
                    executed_qty.as_str(),
                    cumulative_quote_qty.as_str(),
                ) {
                    None => fail_smoke(run, SmokeFailure::Overflow),
                    Some(check) => match reconcile_fill_checked(&check, Dec::from_u64(50)) {
                        None => fail_smoke(run, SmokeFailure::Overflow),
                        Some(result) => {
                            proof {
                                let price = spec_fill_price(
                                    executed_qty@,
                                    cumulative_quote_qty@,
                                ).unwrap();
                                assert forall|c: ReconciliationCheck|
                                    #[trigger] spec_smoke_check(
                                        buy_id,
                                        run.symbol@,
                                        executed@,
                                        symbol@,
                                        side@,
                                        executed_qty@,
                                        price,
                                        c,
                                    ) implies spec_reconcile(c, (50int, 0nat)) is Some by {
                                    lemma_reconcile_by_views(c, check, (50int, 0nat));
                                }
                            }
                            let matched = result.is_matched();
                            run.stage = if matched {
                                SmokeStage::Closing { reference_price, filters, pre_free, executed }
                            } else {
                                SmokeStage::Failed
                            };
                            SmokeAction::Reconciled { check, result, matched }
                        },
                    },
                }
            },
            _ => fail_smoke(run, SmokeFailure::OutOfOrder),
        },
        SmokeStage::Closing { reference_price, filters, pre_free, executed } => match event {
            SmokeEvent::PostBuyBalance { post_free } => {
                match smoke_sell_qty(executed, pre_free, post_free, filters, reference_price) {
                    None => fail_smoke(run, SmokeFailure::Overflow),
                    Some(Err(m)) => fail_smoke(run, SmokeFailure::SellQtyRefused(m)),
                    Some(Ok(sell_qty)) => {
                        if sell_qty.lt(&executed) {
                            match executed.checked_sub(sell_qty) {
                                None => {
                                    return fail_smoke(run, SmokeFailure::Overflow);
                                },
                                Some(rest) => {
                                    if !run.positions.try_update_fill(
                                        run.symbol.as_str(),
                                        Side::Sell,
                                        rest,
                                    ) {
                                        return fail_smoke(run, SmokeFailure::Overflow);
                                    }
                                },
                            }
                        }
                        let intent_id = intent_with_run("smoke-sell-", run.run_id.as_str());
                        proof {
                            reveal_strlit("smoke-sell-");
                        }
                        let sell_id = deterministic_client_order_id(
                            run.spec_hash.as_str(),
                            intent_id.as_str(),
                        );
                        run.stage = SmokeStage::Selling { sell_qty };
                        SmokeAction::PlaceSell { qty: sell_qty, client_order_id: sell_id }
                    },
                }
            },
            _ => fail_smoke(run, SmokeFailure::OutOfOrder),
        },
        SmokeStage::Selling { sell_qty } => match event {
            SmokeEvent::SellStatus { status, executed_qty } => match Dec::parse_exact(executed_qty.as_str()) {
                None => fail_smoke(run, SmokeFailure::BadExecutedQty),
                Some(executed_sell) => {
                    if executed_sell.is_positive() {
                        if !run.positions.try_update_fill(
                            run.symbol.as_str(),
                            Side::Sell,
                            executed_sell,
                        ) {
                            return fail_smoke(run, SmokeFailure::Overflow);
                        }
                    }
                    let filled = crate::text::str_eq(status.as_str(), "FILLED");
                    proof {
                        reveal_strlit("FILLED");
                    }
                    let failure = if !filled {
                        Some(SmokeFailure::SellNotFilled)
                    } else if executed_sell.lt(&sell_qty) {
                        Some(SmokeFailure::SellShort)
                    } else if !run.positions.is_flat() {
                        Some(SmokeFailure::NotFlat)
                    } else {
                        None
                    };
                    run.stage = match failure {
                        None => SmokeStage::Done,
                        Some(_) => SmokeStage::Failed,
                    };
                    SmokeAction::Finish { sell_qty, executed_sell, failure }
                },
            },
            _ => fail_smoke(run, SmokeFailure::OutOfOrder),
        },
        _ => fail_smoke(run, SmokeFailure::OutOfOrder),
    }
}

} // verus!
