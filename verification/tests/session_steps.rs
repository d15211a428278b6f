use exec_rs::clock::Timestamp;
use exec_rs::decimal::Dec;
use exec_rs::live::{AuditLog, BrokerCredentials, ComplianceError, ComplianceRecord, ConfirmationGate, KmsError};
use exec_rs::market::{Exchange, Side};
use exec_rs::orders::{deterministic_client_order_id, MarketTick, OrderIntent, OrderOutbox};
use exec_rs::positions::LivePositionState;
use exec_rs::risk::KillSwitchAction;
use exec_rs::runner::SymbolTradingFilters;
use exec_rs::session::{
    kill_switch_plan, live_preflight, live_smoke_step, paper_validator_step, LiveNext, LiveRefusal,
    PaperAction, PaperEvent, PaperRun, SmokeAction, SmokeEvent, SmokeFailure, SmokeRun, SmokeStage,
};
use exec_rs::throttle::WsReconnectThrottle;

fn d(s: &str) -> Dec {
    Dec::parse(s).unwrap()
}

fn creds(scope: &[&str]) -> BrokerCredentials {
    BrokerCredentials {
        api_key: "k".to_string(),
        api_secret: "s".to_string(),
        scope: scope.iter().map(|s| s.to_string()).collect(),
    }
}

fn record() -> ComplianceRecord {
    let t = Timestamp::from_parts(1_700_000_000, 0).unwrap();
    ComplianceRecord {
        user_id: "u1".to_string(),
        jurisdiction: Some("US".to_string()),
        tos_accepted_at: Some(t),
        risk_ack_at: Some(t),
    }
}

#[test]
fn preflight_refuses_at_the_first_failing_gate() {
    let token = ConfirmationGate::expected_token("h", "acct", Exchange::Binance);
    let no_trade = live_preflight(&creds(&["read"]), &record(), &token, "h", "acct", Exchange::Binance, true, false);
    assert!(matches!(no_trade, Err(LiveRefusal::Scope(KmsError::ScopeViolation(m))) if m == "trade scope missing"));
    let no_jurisdiction = ComplianceRecord { jurisdiction: None, ..record() };
    let refused = live_preflight(&creds(&["trade"]), &no_jurisdiction, "bad", "h", "acct", Exchange::Bybit, true, false);
    assert!(matches!(refused, Err(LiveRefusal::Compliance(ComplianceError::NoJurisdiction))));
    let mismatch = live_preflight(&creds(&["trade"]), &record(), "bad", "h", "acct", Exchange::Bybit, true, false);
    assert!(matches!(mismatch, Err(LiveRefusal::ConfirmationMismatch)));
    let bybit_token = ConfirmationGate::expected_token("h", "acct", Exchange::Bybit);
    let bybit = live_preflight(&creds(&["trade"]), &record(), &bybit_token, "h", "acct", Exchange::Bybit, true, false);
    assert!(matches!(bybit, Err(LiveRefusal::UnsupportedExchange)));
}

#[test]
fn preflight_plans_the_audit_entries() {
    let token = ConfirmationGate::expected_token("h", "acct", Exchange::Binance);
    let dry = live_preflight(&creds(&["trade"]), &record(), &token, "h", "acct", Exchange::Binance, true, true).unwrap();
    assert_eq!(dry.audit_actions, vec!["go_live".to_string(), "dry_run_complete".to_string()]);
    assert_eq!(dry.next, LiveNext::DryRunComplete);
    assert!(!dry.place_orders);
    let smoke = live_preflight(&creds(&["trade"]), &record(), &token, "h", "acct", Exchange::Binance, false, true).unwrap();
    assert_eq!(smoke.audit_actions, vec!["go_live".to_string()]);
    assert_eq!(smoke.next, LiveNext::Smoke);
    assert!(smoke.place_orders);
    let other = live_preflight(&creds(&["trade"]), &record(), &token, "h", "acct", Exchange::Binance, false, false).unwrap();
    assert_eq!(other.audit_actions, vec!["go_live".to_string(), "live_strategy_rejected".to_string()]);
    assert_eq!(other.next, LiveNext::StrategyRejected);
    assert!(!other.place_orders);
}

#[test]
fn kill_switch_plan_cancels_everywhere_and_flattens_on_request() {
    let mut positions = LivePositionState::default();
    positions.update_fill("ETHUSDT", Side::Buy, d("0.5"));
    let mut outbox = OrderOutbox::default();
    outbox.enqueue(
        "h",
        OrderIntent { intent_id: "entry-btc".to_string(), symbol: "BTCUSDT".to_string(), side: Side::Buy, qty: d("0.01") },
    );
    let flatten = kill_switch_plan(&positions, &outbox, &KillSwitchAction::new(true, "signal"), "h");
    assert_eq!(flatten.cancels, vec!["BTCUSDT".to_string(), "ETHUSDT".to_string()]);
    assert_eq!(flatten.flattens.len(), 1);
    assert_eq!(flatten.flattens[0].symbol, "ETHUSDT");
    assert_eq!(flatten.flattens[0].side, Side::Sell);
    assert_eq!(flatten.flattens[0].qty.to_text(), "0.5");
    assert_eq!(flatten.flattens[0].client_order_id, deterministic_client_order_id("h", "ks-flatten-ETHUSDT"));
    let keep = kill_switch_plan(&positions, &outbox, &KillSwitchAction::new(false, "signal"), "h");
    assert_eq!(keep.cancels.len(), 2);
    assert!(keep.flattens.is_empty());
}

fn tick(price: &str) -> MarketTick {
    MarketTick { symbol: "BTCUSDT".to_string(), price: d(price), ts: Timestamp::from_parts(1_700_000_000, 0).unwrap() }
}

#[test]
fn paper_validator_fills_alternate_and_count() {
    let mut run = PaperRun::new("h", Dec::from_u64(10));
    assert!(matches!(paper_validator_step(&mut run, PaperEvent::Tick { tick: tick("100"), fill_due: false }), PaperAction::Publish));
    assert!(run.fills.is_empty());
    match paper_validator_step(&mut run, PaperEvent::Tick { tick: tick("100"), fill_due: true }) {
        PaperAction::Filled { client_order_id, intent } => {
            assert_eq!(client_order_id, deterministic_client_order_id("h", "paper-1"));
            assert_eq!(intent.intent_id, "paper-1");
            assert_eq!(intent.side, Side::Buy);
        }
        other => panic!("unexpected {other:?}"),
    }
    assert_eq!(run.fills.len(), 1);
    assert!(run.fills[0].price.num_eq(&d("100.1")));
    assert!(run.outbox.pending_for_reconciliation().is_empty());
    match paper_validator_step(&mut run, PaperEvent::Tick { tick: tick("100"), fill_due: true }) {
        PaperAction::Filled { client_order_id, intent } => {
            assert_eq!(client_order_id, deterministic_client_order_id("h", "paper-2"));
            assert_eq!(intent.side, Side::Sell);
        }
        other => panic!("unexpected {other:?}"),
    }
    assert!(run.fills[1].price.num_eq(&d("99.9")));
    assert!(matches!(paper_validator_step(&mut run, PaperEvent::StreamLost), PaperAction::Reconnect));
    assert!(matches!(paper_validator_step(&mut run, PaperEvent::FlushFailed), PaperAction::Continue));
    assert_eq!(run.exec_errors, 2);
    match paper_validator_step(
        &mut run,
        PaperEvent::End { completed_full_duration: false, validation_days: 14, whole_days: 3 },
    ) {
        PaperAction::Stop(m) => {
            assert_eq!(m.trades, 2);
            assert_eq!(m.exec_errors, 2);
            assert_eq!(m.risk_guard_events, 0);
            assert_eq!(m.run_days, 3);
        }
        other => panic!("unexpected {other:?}"),
    }
}

fn filters() -> SymbolTradingFilters {
    SymbolTradingFilters { step_size: d("0.00001000"), min_qty: d("0.00001000"), min_notional: d("5") }
}

fn bought(status_qty: &str) -> (SmokeRun, SmokeAction) {
    let mut run = SmokeRun::new("h", "run-1", "BTCUSDT", d("45"));
    let buy = live_smoke_step(&mut run, SmokeEvent::Market { reference_price: d("55000"), filters: filters(), pre_free: d("0.1") });
    match buy {
        SmokeAction::PlaceBuy { qty, client_order_id } => {
            assert!(qty.num_eq(&d("0.00077")));
            assert_eq!(client_order_id, deterministic_client_order_id("h", "smoke-buy-run-1"));
        }
        other => panic!("unexpected {other:?}"),
    }
    let recorded = live_smoke_step(&mut run, SmokeEvent::BuyExecuted { executed_qty: "0.00077000".to_string() });
    assert!(matches!(recorded, SmokeAction::RecordBuy { .. }));
    assert!(!run.positions.is_flat());
    let reconciled = live_smoke_step(
        &mut run,
        SmokeEvent::BuyStatus {
            symbol: "BTCUSDT".to_string(),
            side: "BUY".to_string(),
            executed_qty: status_qty.to_string(),
            cumulative_quote_qty: "42.35".to_string(),
        },
    );
    (run, reconciled)
}

#[test]
fn live_smoke_round_trip_ends_flat() {
    let (mut run, reconciled) = bought("0.00077000");
    assert!(matches!(reconciled, SmokeAction::Reconciled { matched: true, .. }));
    match live_smoke_step(&mut run, SmokeEvent::PostBuyBalance { post_free: d("0.10077") }) {
        SmokeAction::PlaceSell { qty, client_order_id } => {
            assert!(qty.num_eq(&d("0.00077")));
            assert_eq!(client_order_id, deterministic_client_order_id("h", "smoke-sell-run-1"));
        }
        other => panic!("unexpected {other:?}"),
    }
    let done = live_smoke_step(
        &mut run,
        SmokeEvent::SellStatus { status: "FILLED".to_string(), executed_qty: "0.00077000".to_string() },
    );
    assert!(matches!(done, SmokeAction::Finish { failure: None, .. }));
    assert!(run.positions.is_flat());
    assert!(matches!(run.stage, SmokeStage::Done));
}

#[test]
fn live_smoke_mismatch_never_sells() {
    let (mut run, reconciled) = bought("0.00070000");
    assert!(matches!(reconciled, SmokeAction::Reconciled { matched: false, .. }));
    assert!(matches!(run.stage, SmokeStage::Failed));
    let after = live_smoke_step(&mut run, SmokeEvent::PostBuyBalance { post_free: d("0.10077") });
    assert!(matches!(after, SmokeAction::Fail(SmokeFailure::OutOfOrder)));
}

#[test]
fn live_smoke_short_sell_is_reported() {
    let (mut run, _) = bought("0.00077000");
    live_smoke_step(&mut run, SmokeEvent::PostBuyBalance { post_free: d("0.10077") });
    let short = live_smoke_step(
        &mut run,
        SmokeEvent::SellStatus { status: "FILLED".to_string(), executed_qty: "0.00070000".to_string() },
    );
    assert!(matches!(short, SmokeAction::Finish { failure: Some(SmokeFailure::SellShort), .. }));
    let pending = live_smoke_step(&mut run, SmokeEvent::BuyExecuted { executed_qty: "1".to_string() });
    assert!(matches!(pending, SmokeAction::Fail(SmokeFailure::OutOfOrder)));
}

#[test]
fn decimal_addition_checks_the_left_operand_first() {
    let sum = Dec::new(0, 2).checked_add(Dec::new(0, 5)).unwrap();
    assert_eq!(sum.to_text(), "0.00000");
    let diff = Dec::new(0, 2).checked_sub(d("1.5")).unwrap();
    assert_eq!(diff.to_text(), "-1.5");
    assert_eq!(d("1.25").checked_add(d("2.50")).unwrap().to_text(), "3.75");
    assert_eq!(d("1.5").checked_mul(d("0.2")).unwrap().to_text(), "0.30");
    assert_eq!(Dec::new(0, 2).checked_mul(d("7")).unwrap().to_text(), "0");
}

#[test]
fn decimal_rounding_to_integers() {
    assert_eq!(d("-1.5").floor().to_text(), "-2");
    assert_eq!(d("-1.5").ceil().to_text(), "-1");
    assert_eq!(d("-1.5").trunc().to_text(), "-1");
    assert_eq!(d("3.641").floor().to_text(), "3");
    assert_eq!(d("3.141").ceil().to_text(), "4");
    assert_eq!(d("7").ceil().to_text(), "7");
}

#[test]
fn audit_log_path_joins_directory_and_file_name() {
    let log = AuditLog::new("/tmp/audit", "run-0001");
    assert_eq!(log.path(), "/tmp/audit/run-0001-audit.jsonl");
    assert_eq!(AuditLog::new("/tmp/audit/", "r").path(), "/tmp/audit/r-audit.jsonl");
}

#[test]
fn reconnect_throttle_uses_the_window_given() {
    let mut none = WsReconnectThrottle::new(Exchange::Binance, 1, 0);
    assert!(none.record_attempt().is_ok());
    let mut throttle = WsReconnectThrottle::new(Exchange::Binance, 1, 300_000_000_000);
    assert!(throttle.record_attempt().is_ok());
    assert!(throttle.record_attempt().is_err());
}

#[test]
fn paper_run_constants() {
    let limits = exec_rs::runner::paper_limits();
    assert!(!limits.kill_switch_active);
    assert_eq!(limits.max_daily_loss_pct.to_text(), "2");
    assert_eq!(limits.max_concurrent_orders, 5);
    let t = exec_rs::runner::paper_scorecard_thresholds();
    assert_eq!(t.min_trades, 10);
    assert_eq!(t.max_slippage_bps_vs_backtest.to_text(), "25");
    let m = exec_rs::runner::validation_smoke_metrics();
    assert_eq!(m.max_drawdown_pct.to_text(), "3.2");
    assert!(exec_rs::validation::evaluate_scorecard(&t, &m).passed);
}
