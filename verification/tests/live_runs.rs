use exec_rs::clock::Timestamp;
use exec_rs::json::JsonValue;
use exec_rs::decimal::Dec;
use exec_rs::market::{Exchange, ExecAlert, Side};
use exec_rs::orders::{deterministic_client_order_id, OrderIntent, OrderOutbox};
use exec_rs::positions::LivePositionState;
use exec_rs::risk::{RiskLimits, RiskState};
use exec_rs::runner::{
    calculate_live_smoke_qty, cancel_all_failure_is_benign, free_balance_of, trade_tick, calculate_live_smoke_qty_checked, flatten_order_for_position,
    floor_to_step, kill_switch_cancel_symbols, kill_switch_flatten_orders, kill_switch_result,
    live_loop_decision, paper_fill_intent, paper_validation_metrics, parse_broker_key_scope,
    select_trading_filters, smoke_reconciliation_check, smoke_sell_qty, validation_elapsed_days,
    ws_url, ExchangeSymbolInfo, LiveStop, Mode, SymbolFilterInfo, SymbolTradingFilters,
};

fn d(s: &str) -> Dec {
    Dec::parse(s).unwrap()
}

#[test]
fn kill_switch_cancel_symbols_include_outbox_only_symbols() {
    let mut positions = LivePositionState::default();
    positions.update_fill("ETHUSDT", Side::Buy, d("0.5"));

    let mut outbox = OrderOutbox::default();
    outbox.enqueue(
        &"f".repeat(64),
        OrderIntent {
            intent_id: "entry-btc".to_string(),
            symbol: "BTCUSDT".to_string(),
            side: Side::Buy,
            qty: d("0.01"),
        },
    );

    let symbols = kill_switch_cancel_symbols(&positions, &outbox);
    assert!(symbols.contains(&"BTCUSDT".to_string()));
    assert!(symbols.contains(&"ETHUSDT".to_string()));
    assert_eq!(symbols, vec!["BTCUSDT".to_string(), "ETHUSDT".to_string()]);
}

#[test]
fn flatten_order_buys_abs_quantity_for_short_positions() {
    let (side, qty) = flatten_order_for_position(d("2")).unwrap();
    assert_eq!(side, Side::Sell);
    assert!(qty.num_eq(&d("2")));
    let (side, qty) = flatten_order_for_position(d("-3")).unwrap();
    assert_eq!(side, Side::Buy);
    assert!(qty.num_eq(&d("3")));
    assert!(flatten_order_for_position(Dec::zero()).is_none());
}

#[test]
fn kill_switch_flattens_every_position_once() {
    let mut positions = LivePositionState::default();
    positions.update_fill("ETHUSDT", Side::Sell, d("1.5"));
    positions.update_fill("BTCUSDT", Side::Buy, d("0.2"));
    let orders = kill_switch_flatten_orders(&positions, "h");
    assert_eq!(orders.len(), 2);
    assert_eq!(orders[0].symbol, "BTCUSDT");
    assert_eq!(orders[0].side, Side::Sell);
    assert_eq!(orders[0].client_order_id, deterministic_client_order_id("h", "ks-flatten-BTCUSDT"));
    assert_eq!(orders[1].side, Side::Buy);
    assert_eq!(orders[1].qty.to_text(), "1.5");
    assert_eq!(kill_switch_result(0), "ok");
    assert_eq!(kill_switch_result(2), "2 flatten error(s)");
}

#[test]
fn broker_key_scope_is_required_from_metadata() {
    assert!(parse_broker_key_scope(&[]).is_err());
    assert_eq!(
        parse_broker_key_scope(&[" Trade ".to_string(), "read".to_string()]).unwrap(),
        vec!["trade".to_string(), "read".to_string()]
    );
}

#[test]
fn broker_key_scope_drops_blank_entries() {
    assert!(parse_broker_key_scope(&["  ".to_string(), "\t".to_string()]).is_err());
    assert_eq!(
        parse_broker_key_scope(&["".to_string(), "WITHDRAW\n".to_string()]).unwrap(),
        vec!["withdraw".to_string()]
    );
}

fn filters(min_qty: &str) -> SymbolTradingFilters {
    SymbolTradingFilters { step_size: d("0.00001000"), min_qty: d(min_qty), min_notional: d("5") }
}

#[test]
fn live_smoke_quantity_uses_quote_cap_with_buffer() {
    let f = filters("0.00001000");
    let qty = calculate_live_smoke_qty(d("45"), d("55000"), f).unwrap();
    assert!(qty.num_eq(&d("0.00077000")));
    assert!(qty.checked_mul(d("55000")).unwrap().lt(&d("45")));
    assert!(calculate_live_smoke_qty(d("0"), d("55000"), f).is_err());
    assert!(calculate_live_smoke_qty(d("45"), d("0"), f).is_err());
}

#[test]
fn live_smoke_quantity_rejects_exchange_filter_violations() {
    let f = filters("0.001");
    assert!(calculate_live_smoke_qty(d("45"), d("55000"), f).is_err());
    assert!(floor_to_step(d("0.000777"), d("0.00001000")).unwrap().num_eq(&d("0.00077000")));
}

#[test]
fn live_smoke_quantity_explains_refusals() {
    let f = filters("0.001");
    assert_eq!(
        calculate_live_smoke_qty_checked(d("45"), d("55000"), f).unwrap().unwrap_err(),
        "live smoke quantity 0.00077000 is below exchange minQty 0.001"
    );
    assert_eq!(
        calculate_live_smoke_qty(d("-1"), d("55000"), f).unwrap_err(),
        "live smoke quote cap must be positive"
    );
    assert_eq!(floor_to_step(d("1"), d("0")).unwrap_err(), "step size must be positive");
    let tiny = calculate_live_smoke_qty(d("0.0001"), d("55000"), filters("0")).unwrap_err();
    assert_eq!(tiny, "live smoke quote cap 0.0001 is too small for reference price 55000");
}

#[test]
fn smoke_sell_back_respects_balances_and_filters() {
    let f = filters("0.00001000");
    let sell = smoke_sell_qty(d("0.00077"), d("0.1"), d("0.1007695"), f, d("55000")).unwrap().unwrap();
    assert!(sell.num_eq(&d("0.00076")));
    let refused = smoke_sell_qty(d("0.00077"), d("0.1"), d("0.1"), f, d("55000")).unwrap().unwrap_err();
    assert!(refused.starts_with("live smoke sellable quantity 0"));
    assert!(refused.ends_with("executed_qty=0.00077"));
}

#[test]
fn smoke_reconciliation_uses_the_average_fill_price() {
    let check = smoke_reconciliation_check(9, "BTCUSDT", d("0.002"), "BTCUSDT", "BUY", "0.002", "110").unwrap();
    assert!(check.local_price.num_eq(&d("55000")));
    assert!(check.exchange_price.num_eq(&d("55000")));
    assert_eq!(check.exchange_side, Side::Buy);
    assert!(exec_rs::reconcile::reconcile_fill(&check, d("50")).is_matched());
    let odd = smoke_reconciliation_check(9, "BTCUSDT", d("0.002"), "BTCUSDT", "SELL", "junk", "1").unwrap();
    assert_eq!(odd.exchange_side, Side::Sell);
    assert!(odd.exchange_qty.is_zero());
    assert!(odd.local_price.is_zero());
}

#[test]
fn trading_filters_come_from_the_listing() {
    let lot = SymbolFilterInfo {
        filter_type: "LOT_SIZE".to_string(),
        step_size: Some("0.00001000".to_string()),
        min_qty: Some("0.00001000".to_string()),
        min_notional: None,
    };
    let notional = SymbolFilterInfo {
        filter_type: "NOTIONAL".to_string(),
        step_size: None,
        min_qty: None,
        min_notional: Some("5.00000000".to_string()),
    };
    let listing = vec![
        ExchangeSymbolInfo { symbol: "ETHUSDT".to_string(), filters: vec![] },
        ExchangeSymbolInfo { symbol: "BTCUSDT".to_string(), filters: vec![notional, lot] },
    ];
    let f = select_trading_filters("BTCUSDT", &listing).unwrap();
    assert!(f.step_size.num_eq(&d("0.00001")));
    assert!(f.min_notional.num_eq(&d("5")));
    assert_eq!(select_trading_filters("ETHUSDT", &listing).unwrap_err(), "exchangeInfo missing LOT_SIZE for ETHUSDT");
    assert_eq!(select_trading_filters("XRPUSDT", &listing).unwrap_err(), "exchangeInfo missing symbol XRPUSDT");
}

#[test]
fn live_loop_stops_for_signal_stale_cache_or_guard() {
    let limits = RiskLimits {
        kill_switch_active: false,
        max_daily_loss_pct: d("2"),
        max_position_pct: d("5"),
        max_concurrent_orders: 5,
    };
    let state = RiskState { equity: d("100"), start_of_day_equity: d("100"), gross_position_pct: d("0"), open_orders: 0 };
    assert!(matches!(live_loop_decision(true, &limits, &state), Some(LiveStop::Signal)));
    assert!(live_loop_decision(false, &limits, &state).is_none());
    let closed = RiskLimits { kill_switch_active: true, ..limits.clone() };
    assert!(matches!(live_loop_decision(false, &closed, &state), Some(LiveStop::StaleCache)));
    let busy = RiskState { open_orders: 9, ..state };
    assert!(matches!(
        live_loop_decision(false, &limits, &busy),
        Some(LiveStop::RiskGuard(ExecAlert::RiskLimitExceeded { .. }))
    ));
}

#[test]
fn paper_validator_alternates_virtual_orders() {
    let first = paper_fill_intent(0, "BTCUSDT");
    assert_eq!(first.intent_id, "paper-1");
    assert_eq!(first.side, Side::Buy);
    assert_eq!(first.qty.to_text(), "0.001");
    let second = paper_fill_intent(1, "BTCUSDT");
    assert_eq!(second.intent_id, "paper-2");
    assert_eq!(second.side, Side::Sell);
    let m = paper_validation_metrics(3, 0, 1, validation_elapsed_days(false, 7, -2));
    assert_eq!(m.trades, 3);
    assert_eq!(m.run_days, 0);
    assert_eq!(validation_elapsed_days(true, 7, 1), 7);
    assert_eq!(validation_elapsed_days(false, 7, 3), 3);
}

#[test]
fn stream_urls_and_mode_names() {
    assert_eq!(ws_url(Exchange::Binance, "BTCUSDT"), "wss://stream.binance.com:9443/ws/btcusdt@trade");
    assert_eq!(ws_url(Exchange::Bybit, "BTCUSDT"), "wss://stream.bybit.com/v5/public/spot");
    assert_eq!(Mode::Live.as_str(), "live");
    assert_eq!(Mode::Backtest.as_str(), "backtest");
}

#[test]
fn cancel_all_tolerates_only_no_such_order() {
    assert!(cancel_all_failure_is_benign(400, Some(-2011)));
    assert!(!cancel_all_failure_is_benign(400, Some(-1022)));
    assert!(!cancel_all_failure_is_benign(500, Some(-2011)));
    assert!(!cancel_all_failure_is_benign(400, None));
}

#[test]
fn free_balance_reads_the_first_entry_of_the_asset() {
    let balances = vec![
        ("USDT".to_string(), "12.5".to_string()),
        ("BTC".to_string(), "0.00100000".to_string()),
        ("BTC".to_string(), "9".to_string()),
    ];
    assert_eq!(free_balance_of(&balances, "BTC").unwrap().to_text(), "0.00100000");
    assert_eq!(free_balance_of(&balances, "ETH").unwrap().to_text(), "0");
    let bad = vec![("BTC".to_string(), "1e3".to_string())];
    assert!(free_balance_of(&bad, "BTC").is_none());
}

fn text(s: &str) -> JsonValue {
    JsonValue::Text(s.to_string())
}

fn integer(n: i128) -> JsonValue {
    JsonValue::Number(n.to_string(), Some(n))
}

fn object(entries: Vec<(&str, JsonValue)>) -> JsonValue {
    JsonValue::Object(entries.into_iter().map(|(k, v)| (k.to_string(), v)).collect())
}

#[test]
fn trade_messages_become_ticks() {
    let now = Timestamp::from_parts(1_800_000_000, 0).unwrap();
    let binance = object(vec![
        ("e", text("trade")),
        ("s", text("BTCUSDT")),
        ("p", text("42000.10")),
        ("T", integer(1_700_000_000_123)),
    ]);
    let tick = trade_tick(Exchange::Binance, "ignored", &binance, now).unwrap();
    assert_eq!(tick.symbol, "BTCUSDT");
    assert_eq!(tick.price.to_text(), "42000.10");
    assert_eq!((tick.ts.secs(), tick.ts.subsec_nanos()), (1_700_000_000, 123_000_000));
    let no_time = object(vec![("s", text("BTCUSDT")), ("p", text("1"))]);
    assert!(trade_tick(Exchange::Binance, "BTCUSDT", &no_time, now).is_none());

    let bybit = object(vec![(
        "data",
        JsonValue::Array(vec![object(vec![("p", text("1.5")), ("T", integer(-1500))])]),
    )]);
    let tick = trade_tick(Exchange::Bybit, "ETHUSDT", &bybit, now).unwrap();
    assert_eq!(tick.symbol, "ETHUSDT");
    assert_eq!(tick.price.to_text(), "1.5");
    assert_eq!((tick.ts.secs(), tick.ts.subsec_nanos()), (-2, 500_000_000));
    let untimed = object(vec![("data", JsonValue::Array(vec![object(vec![("s", text("SOLUSDT")), ("p", text("2"))])]))]);
    let tick = trade_tick(Exchange::Bybit, "ETHUSDT", &untimed, now).unwrap();
    assert_eq!(tick.symbol, "SOLUSDT");
    assert_eq!((tick.ts.secs(), tick.ts.subsec_nanos()), (1_800_000_000, 0));
    let empty = object(vec![("data", JsonValue::Array(vec![]))]);
    assert!(trade_tick(Exchange::Bybit, "ETHUSDT", &empty, now).is_none());
}
