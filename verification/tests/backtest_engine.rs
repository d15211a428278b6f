use exec_rs::backtest::{BacktestReport, IntrabarAssumption, Side, Trade};
use exec_rs::decimal::Dec;
use exec_rs::engine::{fmt, swing_stop};
use exec_rs::indicators::{atr, build_indicator_series, ema, moving_average, rsi, volume_ma};
use exec_rs::json::{parse_usize, JsonValue};
use exec_rs::kpis::{complete_backtest, decimal_sqrt, return_variances, stddev, variance};
use rust_decimal::prelude::ToPrimitive;
use rust_decimal::Decimal;
use exec_rs::report::{build_heatmap, month_of};
use exec_rs::rules::{parse_entries, parse_exit_rules, position_risk_amount, SizeRule, StopRule, TakeProfitRule};
use exec_rs::signals::eval_context;
use exec_rs::simulate::run_backtest;
use exec_rs::snapshot::{
    BacktestConfig, Candle, ContractSpec, FeeModel, FundingModel, MarketSnapshot, SlippageModel,
};

fn d(s: &str) -> Dec {
    Dec::parse(s).unwrap()
}

fn txt(x: Dec) -> String {
    fmt(x)
}

fn series(xs: &[Option<Dec>]) -> Vec<Option<String>> {
    xs.iter().map(|x| x.map(txt)).collect()
}

fn json(v: &serde_json::Value) -> JsonValue {
    match v {
        serde_json::Value::Null => JsonValue::Null,
        serde_json::Value::Bool(b) => JsonValue::Bool(*b),
        serde_json::Value::Number(n) => JsonValue::Number(n.to_string(), n.as_u64().map(i128::from).or(n.as_i64().map(i128::from))),
        serde_json::Value::String(s) => JsonValue::Text(s.clone()),
        serde_json::Value::Array(xs) => JsonValue::Array(xs.iter().map(json).collect()),
        serde_json::Value::Object(m) => {
            JsonValue::Object(m.iter().map(|(k, x)| (k.clone(), json(x))).collect())
        }
    }
}

fn parse_json(text: &str) -> JsonValue {
    json(&serde_json::from_str::<serde_json::Value>(text).unwrap())
}

fn candle(ts: &str, open: &str, high: &str, low: &str, close: &str, volume: &str) -> Candle {
    Candle {
        ts: ts.to_string(),
        open: d(open),
        high: d(high),
        low: d(low),
        close: d(close),
        volume: d(volume),
        spread_bps: None,
        delisted: false,
    }
}

fn closes(xs: &[&str]) -> Vec<Candle> {
    xs.iter()
        .enumerate()
        .map(|(i, c)| candle(&format!("2024-01-01T{:02}:00:00Z", i), c, c, c, c, "1"))
        .collect()
}

fn oscillating(n: usize) -> Vec<Candle> {
    (0..n)
        .map(|i| {
            let close = 100 + (i % 4) as i64;
            let ts = format!("2024-{:02}-01T{:02}:00:00Z", 1 + i / 24, i % 24);
            candle(
                &ts,
                &close.to_string(),
                &(close + 2).to_string(),
                &(close - 2).to_string(),
                &close.to_string(),
                "1000",
            )
        })
        .collect()
}

fn snapshot(id: &str, candles: Vec<Candle>) -> MarketSnapshot {
    MarketSnapshot {
        data_snapshot_id: id.to_string(),
        venue: "binance".to_string(),
        symbol: "BTCUSDT".to_string(),
        timeframe: "1h".to_string(),
        fees: FeeModel::default(),
        slippage: SlippageModel::default(),
        funding: FundingModel::default(),
        contract: ContractSpec::default(),
        candles,
    }
}

const SPEC: &str = r#"{
    "symbols": ["BTCUSDT"],
    "risk": {"min_rr": "2"},
    "indicators": [{"id": "atr3", "kind": "atr", "params": {"length": 3}}],
    "entries": [{"side": "long", "when": "atr3", "size": {"kind": "fixed_pct", "value": "1"}}],
    "exits": [
        {"kind": "stop_pct", "params": {"pct": "1"}},
        {"kind": "tp_pct", "params": {"pct": "2"}}
    ]
}"#;

fn config(id: &str) -> BacktestConfig {
    BacktestConfig {
        initial_equity: d("10000"),
        data_snapshot_id: id.to_string(),
        seed: 0,
        image_digest: "sha256:local-dev".to_string(),
    }
}

fn seed(n: Dec) -> Dec {
    let x: f64 = Decimal::from_i128_with_scale(n.mantissa(), n.scale()).to_f64().unwrap_or(0.0).sqrt();
    let s = Decimal::from_f64_retain(x).unwrap_or(Decimal::ONE);
    Dec::from_parts(s.mantissa(), s.scale()).unwrap()
}

fn full_run(spec: &JsonValue, snap: &MarketSnapshot, cfg: BacktestConfig) -> BacktestReport {
    let run = run_backtest(spec, "{}", snap, &cfg).unwrap();
    let (a, b) = return_variances(&run.equity_curve).unwrap();
    complete_backtest(run, &cfg, snap, (seed(a), seed(b))).unwrap()
}

fn trade_texts(t: &Trade) -> Vec<String> {
    vec![
        t.entry_ts.clone(),
        t.exit_ts.clone(),
        t.side.clone(),
        t.qty.clone(),
        t.entry_price.clone(),
        t.exit_price.clone(),
        t.net_pnl.clone(),
        t.exit_reason.clone(),
    ]
}

#[test]
fn backtest_is_bit_identical_for_same_spec_and_snapshot() {
    let spec = parse_json(SPEC);
    let snap = snapshot("snap-1", oscillating(40));
    let a = full_run(&spec, &snap, config("snap-1"));
    let b = full_run(&spec, &snap, config("snap-1"));
    assert_eq!(format!("{:?}", a), format!("{:?}", b));
    assert_eq!(a.kpi_jsonb.meta.data_snapshot_id, snap.data_snapshot_id);
    assert!(!a.trades.is_empty());
}

#[test]
fn backtest_trades_stop_out_under_conservative_intrabar() {
    let spec = parse_json(SPEC);
    let snap = snapshot("snap-1", oscillating(40));
    let report = full_run(&spec, &snap, config("snap-1"));
    let first = &report.trades[0];
    // Entry at the close of candle 3 (103) plus one basis point of slippage.
    assert_eq!(first.entry_ts, "2024-01-01T03:00:00Z");
    assert_eq!(first.entry_price, "103.0103");
    assert_eq!(first.stop_price, "101.9");
    assert_eq!(first.take_profit_price, "105");
    // The next bar (close 100, low 98) stops the position out.
    assert_eq!(first.exit_reason, "stop_loss");
    assert_eq!(first.exit_price, "101.88981");
    assert_eq!(first.side, "long");
    assert_eq!(first.symbol, "BTCUSDT");
    assert_eq!(report.equity_curve.len(), 39);
    assert_eq!(report.heatmap.len(), 2);
    assert_eq!(report.heatmap[0].0, "2024-01");
    let names: Vec<&str> = report.kpi_jsonb.metrics.iter().map(|(k, _)| k.as_str()).collect();
    assert_eq!(
        names,
        vec![
            "avg_rr", "cagr", "calmar", "expectancy", "max_dd_pct", "net_pnl", "profit_factor",
            "sharpe", "sortino", "time_in_market", "trade_count", "win_rate"
        ]
    );
    let trade_count = &report.kpi_jsonb.metrics[10].1;
    assert_eq!(trade_count, &report.trades.len().to_string());
    assert_eq!(report.kpi_jsonb.meta.fee_model, "maker_bps=2,taker_bps=4");
    assert_eq!(report.kpi_jsonb.meta.slippage_model, "bps=1");
    assert_eq!(report.kpi_jsonb.meta.intrabar_assumption, IntrabarAssumption::Conservative);
    assert_eq!(
        report.kpi_jsonb.meta.contract_spec,
        "tick_size=0.1,lot_size=0.001,min_notional=5,max_leverage=1,maintenance_margin_bps=50"
    );
    assert_eq!(report.kpi_jsonb.meta.seeds, vec![0u64]);
    assert_eq!(report.kpi_jsonb.meta.lib_versions[2].0, "spec_hash");
    assert_eq!(report.kpi_jsonb.meta.lib_versions[2].1, report.spec_hash);
    for t in &report.trades {
        assert_eq!(trade_texts(t).len(), 8);
    }
}

#[test]
fn backtest_refuses_another_snapshot() {
    let spec = parse_json(SPEC);
    let snap = snapshot("snap-1", oscillating(40));
    let err = run_backtest(&spec, "{}", &snap, &config("snap-2")).unwrap_err();
    assert_eq!(err, "requested data_snapshot_id snap-2 does not match snapshot snap-1");
}

#[test]
fn backtest_hashes_the_canonical_spec() {
    let spec = parse_json(SPEC);
    let snap = snapshot("snap-1", oscillating(40));
    let run = run_backtest(&spec, "abc", &snap, &config("snap-1")).unwrap();
    assert_eq!(run.spec_hash, "ba7816bf8f01cfea414140de5dae2223b00361a396177a9cb410ff61f20015ad");
    assert_eq!(run.symbol, "BTCUSDT");
}

#[test]
fn backtest_closes_at_the_end_of_data_and_on_delisting() {
    let spec = parse_json(
        r#"{"indicators": [{"id": "atr3", "kind": "atr", "params": {"length": 3}}],
            "entries": [{"side": "long", "when": "atr3", "size": {"kind": "fixed_pct", "value": "1"}}],
            "exits": [{"kind": "stop_pct", "params": {"pct": "50"}}, {"kind": "tp_pct", "params": {"pct": "50"}}]}"#,
    );
    let mut candles = closes(&["100", "100", "100", "100", "100", "100"]);
    let snap = snapshot("s", candles.clone());
    let run = run_backtest(&spec, "{}", &snap, &config("s")).unwrap();
    assert_eq!(run.trades.len(), 1);
    assert_eq!(run.trades[0].exit_reason, "end_of_data");
    assert_eq!(run.trades[0].exit_ts, "2024-01-01T05:00:00Z");
    assert_eq!(run.equity_curve.len(), 5);
    candles[4].delisted = true;
    let snap = snapshot("s", candles);
    let run = run_backtest(&spec, "{}", &snap, &config("s")).unwrap();
    assert_eq!(run.trades[0].exit_reason, "delisting");
    assert_eq!(run.trades[0].exit_ts, "2024-01-01T04:00:00Z");
}

#[test]
fn backtest_reports_unreadable_entries() {
    let snap = snapshot("s", closes(&["1", "2"]));
    let no_entries = parse_json(r#"{"entries": []}"#);
    assert_eq!(
        run_backtest(&no_entries, "{}", &snap, &config("s")).unwrap_err(),
        "at least one entry rule is required"
    );
    let bad_side = parse_json(r#"{"entries": [{"side": "up", "when": "x", "size": {}}]}"#);
    assert_eq!(
        run_backtest(&bad_side, "{}", &snap, &config("s")).unwrap_err(),
        "entry side must be long or short"
    );
}

#[test]
fn entries_parse_with_defaults() {
    let spec = parse_json(r#"{"entries": [{"side": "short", "when": "a && !b", "size": {}}]}"#);
    let entries = parse_entries(&spec).unwrap();
    assert_eq!(entries.len(), 1);
    assert_eq!(entries[0].side, Side::Short);
    assert_eq!(entries[0].size.kind, "risk_pct");
    assert_eq!(txt(entries[0].size.value), "0.5");
    assert!(entries[0].size.kelly_cap.is_none());
    let missing_when = parse_json(r#"{"entries": [{"side": "long", "size": {}}]}"#);
    assert_eq!(parse_entries(&missing_when).unwrap_err(), "entry.when is required");
    let missing_size = parse_json(r#"{"entries": [{"side": "long", "when": "a"}]}"#);
    assert_eq!(parse_entries(&missing_size).unwrap_err(), "entry.size is required");
    let bad_when = parse_json(r#"{"entries": [{"side": "long", "when": "a &&", "size": {}}]}"#);
    assert_eq!(parse_entries(&bad_when).unwrap_err(), "expected identifier in entry.when");
}

#[test]
fn exit_rules_take_the_first_of_each_kind() {
    let none = parse_json("{}");
    let rules = parse_exit_rules(&none, d("3"));
    match rules.stop {
        StopRule::Atr { indicator_id, mult } => {
            assert!(indicator_id.is_none());
            assert_eq!(txt(mult), "1.5");
        }
        _ => panic!("default stop is 1.5 ATR"),
    }
    match rules.take_profit {
        TakeProfitRule::Rr(rr) => assert_eq!(txt(rr), "3"),
        _ => panic!("default take-profit is min_rr"),
    }
    assert!(rules.trailing.is_none());
    let spec = parse_json(
        r#"{"exits": [
            {"kind": "stop_swing", "params": {"lookback": "7"}},
            {"kind": "stop_pct"},
            {"kind": "tp_atr", "params": {"atr_id": "atr5"}},
            {"kind": "trailing", "params": {"ref_id": "ema9", "mode": "swing"}}
        ]}"#,
    );
    let rules = parse_exit_rules(&spec, d("3"));
    match rules.stop {
        StopRule::Swing { lookback } => assert_eq!(lookback, 7),
        _ => panic!("first stop is the swing stop"),
    }
    match rules.take_profit {
        TakeProfitRule::Atr { indicator_id, mult } => {
            assert_eq!(indicator_id.as_deref(), Some("atr5"));
            assert_eq!(txt(mult), "3");
        }
        _ => panic!("take-profit is the ATR one"),
    }
    let trailing = rules.trailing.unwrap();
    assert_eq!(trailing.mode, "swing");
    assert_eq!(trailing.indicator_id.as_deref(), Some("ema9"));
    assert_eq!(txt(trailing.mult), "1");
    assert_eq!(trailing.lookback, 10);
}

#[test]
fn sizing_rules_scale_the_risk() {
    let size = |kind: &str, value: &str, cap: Option<&str>| SizeRule {
        kind: kind.to_string(),
        value: d(value),
        kelly_cap: cap.map(d),
    };
    let eq = d("10000");
    let entry = d("100");
    let rpu = d("2");
    assert_eq!(txt(position_risk_amount(&size("fixed_pct", "1", None), eq, entry, rpu).unwrap()), "2");
    assert_eq!(txt(position_risk_amount(&size("fixed_notional", "500", None), eq, entry, rpu).unwrap()), "10");
    assert_eq!(txt(position_risk_amount(&size("kelly_fraction", "0.5", Some("0.25")), eq, entry, rpu).unwrap()), "50");
    assert_eq!(txt(position_risk_amount(&size("risk_pct", "0.5", None), eq, entry, rpu).unwrap()), "50");
}

#[test]
fn moving_averages_start_after_their_window() {
    let candles = closes(&["1", "2", "3", "4", "5"]);
    let sma = moving_average(&candles, 2, "close").unwrap();
    assert_eq!(series(&sma), vec![None, None, Some("2.5".to_string()), Some("3.5".to_string()), Some("4.5".to_string())]);
    let zero = moving_average(&candles, 0, "close").unwrap();
    assert!(zero.iter().all(|x| x.is_none()));
    let vma = volume_ma(&candles, 2).unwrap();
    assert_eq!(series(&vma)[4], Some("1".to_string()));
    assert!(volume_ma(&candles, 0).is_none());
    let e = ema(&candles, 2, "close").unwrap();
    assert!(e[0].is_none() && e[1].is_none() && e[2].is_some());
}

#[test]
fn average_true_range_takes_gaps() {
    let candles = vec![
        candle("t0", "10", "11", "9", "10", "1"),
        candle("t1", "10", "12", "10", "11", "1"),
        candle("t2", "11", "11", "6", "7", "1"),
    ];
    let a = atr(&candles, 2).unwrap();
    // True ranges: 0, max(2, 2, 0) = 2, max(5, 0, 5) = 5; the average of the last two.
    assert_eq!(series(&a), vec![None, None, Some("3.5".to_string())]);
}

#[test]
fn rsi_is_full_without_losses() {
    let candles = closes(&["1", "2", "3", "2"]);
    let r = rsi(&candles, 2).unwrap();
    assert_eq!(series(&r), vec![None, None, Some("100".to_string()), Some("0".to_string())]);
    assert!(rsi(&candles, 4).unwrap().iter().all(|x| x.is_none()));
}

#[test]
fn swing_stops_skip_the_first_candle() {
    let candles = vec![
        candle("t0", "5", "9", "1", "5", "1"),
        candle("t1", "5", "8", "4", "5", "1"),
        candle("t2", "5", "7", "3", "5", "1"),
        candle("t3", "5", "6", "5", "5", "1"),
    ];
    assert_eq!(txt(swing_stop(Side::Long, &candles, 3, 10).unwrap()), "3");
    assert_eq!(txt(swing_stop(Side::Short, &candles, 3, 10).unwrap()), "8");
    assert_eq!(txt(swing_stop(Side::Long, &candles, 3, 1).unwrap()), "3");
    assert!(swing_stop(Side::Long, &candles, 0, 5).is_none());
    assert!(swing_stop(Side::Long, &candles, 1, 5).is_none());
}

#[test]
fn heatmap_groups_by_month() {
    let trade = |exit_ts: &str, net: &str| Trade {
        entry_ts: String::new(),
        exit_ts: exit_ts.to_string(),
        symbol: String::new(),
        side: String::new(),
        qty: String::new(),
        entry_price: String::new(),
        exit_price: String::new(),
        stop_price: String::new(),
        take_profit_price: String::new(),
        gross_pnl: String::new(),
        fees: String::new(),
        net_pnl: net.to_string(),
        rr: String::new(),
        exit_reason: String::new(),
    };
    let trades = vec![
        trade("2024-02-03T00:00:00Z", "1.5"),
        trade("2024-01-09T00:00:00Z", "2"),
        trade("2024-02-10T00:00:00Z", "-0.25"),
        trade("x", "1"),
    ];
    let h = build_heatmap(&trades).unwrap();
    let cells: Vec<(String, usize, String)> =
        h.iter().map(|(k, c)| (k.clone(), c.trades, c.pnl.clone())).collect();
    assert_eq!(
        cells,
        vec![
            ("2024-01".to_string(), 1, "2".to_string()),
            ("2024-02".to_string(), 2, "1.25".to_string()),
            ("unknown".to_string(), 1, "1".to_string()),
        ]
    );
    assert_eq!(month_of("2024-05"), "2024-05");
    assert_eq!(month_of("2024"), "unknown");
}

#[test]
fn newton_square_roots_and_deviations() {
    assert_eq!(txt(decimal_sqrt(d("4"), d("1")).unwrap()), "2");
    assert_eq!(txt(decimal_sqrt(d("0"), d("1")).unwrap()), "0");
    assert!(decimal_sqrt(d("4"), d("0")).is_none());
    let xs = vec![d("1"), d("2"), d("3")];
    assert_eq!(txt(variance(&xs).unwrap()), "1");
    assert_eq!(txt(stddev(&xs, d("1")).unwrap()), "1");
    assert_eq!(txt(stddev(&vec![d("5")], d("1")).unwrap()), "0");
}

#[test]
fn context_names_filters_and_indicators() {
    let spec = parse_json(
        r#"{"indicators": [{"id": "late", "kind": "sma", "params": {"length": 3}}],
            "patterns": [{"id": "bos", "kind": "break_of_structure"}],
            "filters": [{"params": {}}, {"kind": "weekday"}, {"kind": "min_price", "params": {"value": "50"}}]}"#,
    );
    let candles = closes(&["1", "2", "3", "4", "5", "60"]);
    let ind = build_indicator_series(&spec, &candles).unwrap();
    let ctx = eval_context(&spec, &candles, &ind, 5).unwrap();
    let names: Vec<(String, bool)> = ctx;
    assert_eq!(
        names,
        vec![
            ("late".to_string(), true),
            ("bos".to_string(), true),
            ("filter_0".to_string(), false),
            ("weekday".to_string(), true),
            ("min_price".to_string(), true),
        ]
    );
    let early = eval_context(&spec, &candles, &ind, 2).unwrap();
    assert_eq!(early[0], ("late".to_string(), false));
    assert_eq!(early[1], ("bos".to_string(), false));
}

#[test]
fn counts_parse_like_std() {
    assert_eq!(parse_usize("+42"), Some(42));
    assert_eq!(parse_usize("007"), Some(7));
    assert_eq!(parse_usize(""), None);
    assert_eq!(parse_usize("-1"), None);
    assert_eq!(parse_usize("99999999999999999999999"), None);
}

#[test]
fn backtest_heatmap_counts_every_trade_and_reasons_are_known() {
    let spec = parse_json(SPEC);
    let snap = snapshot("snap-1", oscillating(40));
    let run = run_backtest(&spec, "{}", &snap, &config("snap-1")).unwrap();
    assert!(!run.trades.is_empty());
    let counted: u64 = run.heatmap.iter().map(|(_, cell)| cell.trades as u64).sum();
    assert_eq!(counted, run.trades.len() as u64);
    for t in &run.trades {
        assert!(["stop_loss", "take_profit", "delisting", "end_of_data"].contains(&t.exit_reason.as_str()));
    }
}

#[test]
fn snapshots_need_thirty_candles() {
    assert!(exec_rs::snapshot::check_candle_count(&snapshot("s", oscillating(30))).is_ok());
    assert_eq!(
        exec_rs::snapshot::check_candle_count(&snapshot("s", oscillating(29))).unwrap_err(),
        "market snapshot needs at least 30 candles for deterministic indicators"
    );
}
