use exec_rs::clock::Timestamp;
use exec_rs::decimal::Dec;
use exec_rs::market::{ExecAlert, Exchange, Side};
use exec_rs::orders::{
    deterministic_client_order_id, MarketTick, OrderIntent, OrderOutbox, OutboxStatus, PaperBroker,
};
use exec_rs::positions::LivePositionState;
use exec_rs::reconcile::{reconcile_fill, reconcile_fill_checked, ReconciliationCheck, ReconciliationResult};
use exec_rs::risk::{KillSwitchAction, LocalRiskCache, RiskGuard, RiskLimits, RiskState};
use exec_rs::throttle::{ClockSkewMonitor, TokenBucket, WsReconnectThrottle};

fn d(s: &str) -> Dec {
    Dec::parse(s).unwrap()
}

fn now() -> Timestamp {
    let t = chrono::Utc::now();
    Timestamp::from_parts(t.timestamp(), t.timestamp_subsec_nanos()).unwrap()
}

fn limits(kill: bool) -> RiskLimits {
    RiskLimits {
        kill_switch_active: kill,
        max_daily_loss_pct: d("2"),
        max_position_pct: d("5"),
        max_concurrent_orders: 5,
    }
}

#[test]
fn client_order_id_is_deterministic_uuid_v5() {
    let a = deterministic_client_order_id(&"a".repeat(64), "entry-1");
    let b = deterministic_client_order_id(&"a".repeat(64), "entry-1");
    let c = deterministic_client_order_id(&"a".repeat(64), "entry-2");
    assert_eq!(a, b);
    assert_ne!(a, c);
}

#[test]
fn client_order_id_matches_uuid_v5_of_hash_and_intent() {
    let expected = uuid::Uuid::new_v5(&uuid::Uuid::NAMESPACE_OID, b"abc:entry-1").as_u128();
    assert_eq!(deterministic_client_order_id("abc", "entry-1"), expected);
    assert_eq!(uuid::Uuid::from_u128(expected).get_version_num(), 5);
}

#[test]
fn risk_guard_fails_closed_on_kill_switch() {
    let guard = RiskGuard::new(limits(true));
    let state = RiskState {
        equity: d("1000"),
        start_of_day_equity: d("1000"),
        gross_position_pct: d("0"),
        open_orders: 0,
    };
    assert!(matches!(guard.check(&state), Err(ExecAlert::KillSwitchActive)));
}

#[test]
fn risk_guard_reports_each_limit_in_order() {
    let guard = RiskGuard::new(limits(false));
    let calm = RiskState {
        equity: d("1000"),
        start_of_day_equity: d("1000"),
        gross_position_pct: d("1"),
        open_orders: 0,
    };
    assert!(guard.check(&calm).is_ok());
    let loss = RiskState { equity: d("970"), ..calm.clone() };
    match guard.check(&loss) {
        Err(ExecAlert::RiskLimitExceeded { reason }) => assert_eq!(reason, "daily loss 3.00% exceeds 2%"),
        other => panic!("unexpected {other:?}"),
    }
    let exposed = RiskState { gross_position_pct: d("6"), ..calm.clone() };
    match guard.check(&exposed) {
        Err(ExecAlert::RiskLimitExceeded { reason }) => assert_eq!(reason, "gross position 6% exceeds 5%"),
        other => panic!("unexpected {other:?}"),
    }
    let busy = RiskState { open_orders: 5, ..calm };
    match guard.check(&busy) {
        Err(ExecAlert::RiskLimitExceeded { reason }) => assert_eq!(reason, "concurrent order cap reached"),
        other => panic!("unexpected {other:?}"),
    }
}

#[test]
fn outbox_is_idempotent_and_reconciles_open_orders() {
    let mut outbox = OrderOutbox::default();
    let intent = OrderIntent {
        intent_id: "entry-1".to_string(),
        symbol: "BTCUSDT".to_string(),
        side: Side::Buy,
        qty: d("0.01"),
    };
    let first = outbox.enqueue(&"f".repeat(64), intent.clone());
    let second = outbox.enqueue(&"f".repeat(64), intent);
    assert_eq!(first, second);
    assert_eq!(outbox.pending_for_reconciliation(), vec![first]);
    assert!(outbox.mark(first, OutboxStatus::Filled));
    assert!(outbox.pending_for_reconciliation().is_empty());
}

#[test]
fn outbox_mark_of_unknown_id_changes_nothing() {
    let mut outbox = OrderOutbox::new();
    let id = outbox.enqueue(
        "h",
        OrderIntent { intent_id: "i".to_string(), symbol: "ETHUSDT".to_string(), side: Side::Sell, qty: d("1") },
    );
    assert!(!outbox.mark(id.wrapping_add(1), OutboxStatus::Rejected));
    assert_eq!(outbox.pending_for_reconciliation(), vec![id]);
    assert_eq!(outbox.open_order_symbols(), vec!["ETHUSDT".to_string()]);
}

#[test]
fn token_bucket_tracks_weight_and_alerts_on_exchange_limits() {
    let mut bucket = TokenBucket::new(Exchange::Binance, 10, 1);
    bucket.try_consume(7).unwrap();
    assert_eq!(bucket.used_weight(), 7);
    assert!(bucket.try_consume(4).is_err());
    assert!(matches!(
        bucket.record_response(418, None),
        Some(ExecAlert::ExchangeBan { status: 418, .. })
    ));
}

#[test]
fn token_bucket_maps_statuses_to_alerts() {
    let bucket = TokenBucket::new(Exchange::Bybit, 5, 1);
    assert!(matches!(
        bucket.record_response(429, Some(250)),
        Some(ExecAlert::RateLimitExceeded { exchange: Exchange::Bybit, retry_after_ms: Some(250) })
    ));
    assert!(matches!(bucket.record_response(403, None), Some(ExecAlert::ExchangeBan { status: 403, .. })));
    assert!(bucket.record_response(200, None).is_none());
    assert_eq!(exec_rs::throttle::refilled_available(3, 10, 4, 0), 3);
    assert_eq!(exec_rs::throttle::refilled_available(3, 10, 4, 1), 7);
    assert_eq!(exec_rs::throttle::refilled_available(3, 10, 4, 5), 10);
}

#[test]
fn reconnect_throttle_caps_attempts_in_window() {
    let mut throttle = WsReconnectThrottle::new(Exchange::Binance, 2, std::time::Duration::from_secs(300).as_nanos());
    assert!(throttle.record_attempt().is_ok());
    assert!(throttle.record_attempt().is_ok());
    assert!(matches!(
        throttle.record_attempt(),
        Err(ExecAlert::WsReconnectThrottled { exchange: Exchange::Binance })
    ));
}

#[test]
fn clock_skew_monitor_bounds_the_distance() {
    let monitor = ClockSkewMonitor::new(500);
    let a = Timestamp::from_parts(1_700_000_000, 0).unwrap();
    let b = Timestamp::from_parts(1_700_000_000, 400_000_000).unwrap();
    let c = Timestamp::from_parts(1_700_000_001, 0).unwrap();
    assert_eq!(monitor.observe(a, b).unwrap(), 400);
    assert_eq!(monitor.observe(b, a).unwrap(), 400);
    assert!(matches!(monitor.observe(a, c), Err(ExecAlert::ClockSkewExceeded { skew_ms: 1000 })));
}

#[test]
fn paper_broker_uses_virtual_fill_with_live_tick_price() {
    let broker = PaperBroker::new(d("10"));
    let intent = OrderIntent {
        intent_id: "entry".to_string(),
        symbol: "BTCUSDT".to_string(),
        side: Side::Buy,
        qty: d("1"),
    };
    let tick = MarketTick { symbol: "BTCUSDT".to_string(), price: d("100"), ts: now() };
    let fill = broker.execute_market(0, &intent, &tick);
    assert!(fill.price.num_eq(&d("100.100")));
    assert_eq!(fill.price.to_text(), "100.100");
}

#[test]
fn paper_broker_sells_below_the_tick() {
    let broker = PaperBroker::new(d("10"));
    let intent = OrderIntent { intent_id: "x".to_string(), symbol: "BTCUSDT".to_string(), side: Side::Sell, qty: d("2") };
    let tick = MarketTick { symbol: "BTCUSDT".to_string(), price: d("100"), ts: now() };
    let fill = broker.execute_market_checked(7, &intent, &tick).unwrap();
    assert_eq!(fill.price.to_text(), "99.900");
    assert_eq!(fill.client_order_id, 7);
}

#[test]
fn local_risk_cache_fails_closed_when_stale() {
    let fresh = LocalRiskCache::new(limits(false), 300);
    assert!(!fresh.is_stale());
    assert!(!fresh.effective_limits().kill_switch_active);

    let mut stale = LocalRiskCache::new(limits(false), 0);
    let t = chrono::Utc::now() - chrono::Duration::seconds(10);
    stale.last_updated = Timestamp::from_parts(t.timestamp(), t.timestamp_subsec_nanos()).unwrap();
    assert!(stale.is_stale());
    assert!(stale.effective_limits().kill_switch_active);
}

#[test]
fn local_risk_cache_at_a_given_time() {
    let mut cache = LocalRiskCache::new(limits(false), 60);
    cache.last_updated = Timestamp::from_parts(1_000, 0).unwrap();
    assert!(!cache.is_stale_at(Timestamp::from_parts(1_060, 0).unwrap()));
    assert!(cache.is_stale_at(Timestamp::from_parts(1_061, 0).unwrap()));
    assert!(!cache.is_stale_at(Timestamp::from_parts(900, 0).unwrap()));
    assert!(cache.effective_limits_at(Timestamp::from_parts(2_000, 0).unwrap()).kill_switch_active);
}

#[test]
fn live_position_tracks_fills_and_reports_flat() {
    let mut pos = LivePositionState::default();
    assert!(pos.is_flat());

    pos.update_fill("BTCUSDT", Side::Buy, d("0.01"));
    assert!(!pos.is_flat());
    assert!(pos.positions.get("BTCUSDT").unwrap().num_eq(&d("0.01")));

    pos.update_fill("BTCUSDT", Side::Sell, d("0.01"));
    assert!(pos.is_flat());
}

#[test]
fn live_position_reports_symbols_and_gross_exposure() {
    let mut pos = LivePositionState::default();
    assert!(pos.try_update_fill("ETHUSDT", Side::Sell, d("2")));
    assert!(pos.try_update_fill("BTCUSDT", Side::Buy, d("1")));
    assert_eq!(pos.open_symbols(), vec!["BTCUSDT".to_string(), "ETHUSDT".to_string()]);
    assert!(pos.gross_position_pct().is_zero());
    pos.equity = d("100");
    assert_eq!(pos.gross_position_pct().to_text(), "3.00");
}

#[test]
fn kill_switch_action_always_includes_cancel_all() {
    let with_flatten = KillSwitchAction::new(true, "signal");
    assert!(with_flatten.cancel_all);
    assert!(with_flatten.flatten_positions);

    let no_flatten = KillSwitchAction::new(false, "signal");
    assert!(no_flatten.cancel_all);
    assert!(!no_flatten.flatten_positions);
}

fn base_check() -> ReconciliationCheck {
    ReconciliationCheck {
        client_order_id: 0,
        local_symbol: "BTCUSDT".to_string(),
        local_side: Side::Buy,
        local_qty: d("0.001"),
        local_price: d("50000"),
        exchange_symbol: "BTCUSDT".to_string(),
        exchange_side: Side::Buy,
        exchange_qty: d("0.001"),
        exchange_price: d("50000"),
    }
}

#[test]
fn reconcile_fill_detects_all_mismatch_kinds() {
    let base = base_check();
    assert!(reconcile_fill(&base, d("50")).is_matched());

    let sym_mismatch = ReconciliationCheck { exchange_symbol: "ETHUSDT".to_string(), ..base.clone() };
    assert!(matches!(reconcile_fill(&sym_mismatch, d("50")), ReconciliationResult::SymbolMismatch { .. }));

    let side_mismatch = ReconciliationCheck { exchange_side: Side::Sell, ..base.clone() };
    assert!(matches!(reconcile_fill(&side_mismatch, d("50")), ReconciliationResult::SideMismatch { .. }));

    let qty_mismatch = ReconciliationCheck { exchange_qty: d("0.002"), ..base.clone() };
    assert!(matches!(reconcile_fill(&qty_mismatch, d("50")), ReconciliationResult::QtyMismatch { .. }));

    let price_drift = ReconciliationCheck { local_price: d("60000"), ..base.clone() };
    assert!(matches!(
        reconcile_fill(&price_drift, d("50")),
        ReconciliationResult::PriceDriftExcessive { .. }
    ));
}

#[test]
fn reconcile_fill_reports_differences() {
    let base = base_check();
    let qty_mismatch = ReconciliationCheck { exchange_qty: d("0.003"), ..base.clone() };
    match reconcile_fill_checked(&qty_mismatch, d("50")).unwrap() {
        ReconciliationResult::QtyMismatch { diff, .. } => assert_eq!(diff.to_text(), "0.002"),
        other => panic!("unexpected {other:?}"),
    }
    let drift = ReconciliationCheck { local_price: d("50100"), ..base.clone() };
    match reconcile_fill(&drift, d("10")) {
        ReconciliationResult::PriceDriftExcessive { diff_bps } => assert!(diff_bps.num_eq(&d("20"))),
        other => panic!("unexpected {other:?}"),
    }
    assert!(reconcile_fill(&drift, d("20")).is_matched());
    let free = ReconciliationCheck { exchange_price: d("0"), local_price: d("1"), ..base };
    assert!(reconcile_fill(&free, d("0")).is_matched());
}

#[test]
fn token_bucket_refills_by_the_seconds_given() {
    let mut bucket = TokenBucket::new(Exchange::Binance, 10, 2);
    assert!(bucket.try_consume_after(0, 10).is_ok());
    assert!(matches!(
        bucket.try_consume_after(0, 1),
        Err(ExecAlert::RateLimitExceeded { exchange: Exchange::Binance, retry_after_ms: None })
    ));
    assert!(bucket.try_consume_after(3, 6).is_ok());
    assert!(bucket.try_consume_after(0, 1).is_err());
    assert!(bucket.try_consume_after(100, 10).is_ok());
    assert_eq!(bucket.used_weight(), 26);
}

#[test]
fn reconnect_throttle_window_slides_with_the_reading() {
    let mut t = WsReconnectThrottle::new(Exchange::Bybit, 2, 1_000);
    assert!(t.record_attempt_at(0).is_ok());
    assert!(t.record_attempt_at(500).is_ok());
    assert!(matches!(t.record_attempt_at(900), Err(ExecAlert::WsReconnectThrottled { exchange: Exchange::Bybit })));
    assert!(t.record_attempt_at(1_001).is_ok());
    assert!(t.record_attempt_at(1_400).is_err());
    assert!(t.record_attempt_at(1_501).is_ok());
    let mut closed = WsReconnectThrottle::new(Exchange::Bybit, 0, 1_000);
    assert!(closed.record_attempt_at(0).is_err());
}
