use exec_rs::clock::Timestamp;
use exec_rs::decimal::Dec;
use exec_rs::market::Exchange;
use exec_rs::validation::{
    evaluate_scorecard, janitor_destroy_list, plan_fly_machine, MachineInventoryRow, MachineSpec,
    telemetry_flush_due, ScorecardThresholds, ValidationMetrics,
};

fn d(s: &str) -> Dec {
    Dec::parse(s).unwrap()
}

fn thresholds() -> ScorecardThresholds {
    ScorecardThresholds {
        min_trades: 5,
        max_drawdown_pct: d("8"),
        max_slippage_bps_vs_backtest: d("20"),
        max_risk_guard_events: 0,
        max_exec_errors: 0,
        require_walk_forward: true,
        require_oos: true,
    }
}

fn good_metrics() -> ValidationMetrics {
    ValidationMetrics {
        trades: 12,
        max_drawdown_pct: d("2"),
        slippage_bps_vs_backtest: d("5"),
        risk_guard_events: 0,
        exec_errors: 0,
        walk_forward_passed: true,
        oos_passed: true,
        run_days: 7,
    }
}

#[test]
fn scorecard_requires_more_than_positive_pnl() {
    let metrics = ValidationMetrics { trades: 3, ..good_metrics() };
    let result = evaluate_scorecard(&thresholds(), &metrics);
    assert!(!result.passed);
    assert!(result.reasons[0].contains("3 trades"));
}

#[test]
fn scorecard_passes_a_clean_run() {
    let result = evaluate_scorecard(&thresholds(), &good_metrics());
    assert!(result.passed);
    assert!(result.reasons.is_empty());
}

#[test]
fn scorecard_lists_every_failure_in_order() {
    let metrics = ValidationMetrics {
        trades: 1,
        max_drawdown_pct: d("9.5"),
        slippage_bps_vs_backtest: d("21"),
        risk_guard_events: 2,
        exec_errors: 3,
        walk_forward_passed: false,
        oos_passed: false,
        run_days: 4,
    };
    let result = evaluate_scorecard(&thresholds(), &metrics);
    assert!(!result.passed);
    assert_eq!(
        result.reasons,
        vec![
            "run lasted 4 days; required 7".to_string(),
            "1 trades observed; required at least 5".to_string(),
            "max drawdown 9.5% exceeded 8%".to_string(),
            "slippage 21 bps exceeded 20 bps".to_string(),
            "2 risk-guard events exceeded 0".to_string(),
            "3 execution errors exceeded 0".to_string(),
            "walk-forward check failed".to_string(),
            "out-of-sample check failed".to_string(),
        ]
    );
}

fn machine() -> MachineSpec {
    MachineSpec {
        user_id: "u1".to_string(),
        strategy_id: "s1".to_string(),
        validation_id: "v1".to_string(),
        exchange: Exchange::Binance,
        monthly_budget_cents: 1000,
        already_spent_cents: 200,
        estimated_cost_cents: 300,
    }
}

#[test]
fn fly_machine_plan_pins_region_and_enforces_budget() {
    let spec = machine();
    let plan = plan_fly_machine(&spec, 168).unwrap();
    assert_eq!(plan.region, "nrt");
    assert_eq!(plan.label("mode").unwrap(), "paper");

    let over_budget = MachineSpec { already_spent_cents: 900, ..spec };
    assert!(plan_fly_machine(&over_budget, 168).is_err());
}

#[test]
fn fly_machine_plan_lists_labels_and_fallbacks() {
    let plan = plan_fly_machine(&machine(), 168).unwrap();
    assert_eq!(plan.lease_key, "validation:v1");
    assert_eq!(plan.fallback_regions, vec!["sin".to_string(), "hkg".to_string()]);
    let keys: Vec<&str> = plan.labels.iter().map(|(k, _)| k.as_str()).collect();
    assert_eq!(keys, vec!["mode", "strategy_id", "ttl_hours", "user_id", "validation_id"]);
    assert_eq!(plan.label("ttl_hours").unwrap(), "168");
    assert_eq!(plan.label("user_id").unwrap(), "u1");
    assert!(plan.label("missing").is_none());

    let bybit = MachineSpec { exchange: Exchange::Bybit, ..machine() };
    let plan = plan_fly_machine(&bybit, 1).unwrap();
    assert_eq!(plan.region, "sin");
    assert_eq!(plan.fallback_regions, vec!["hkg".to_string(), "nrt".to_string()]);
}

#[test]
fn fly_machine_budget_is_inclusive_and_saturating() {
    let exact = MachineSpec { already_spent_cents: 700, ..machine() };
    assert!(plan_fly_machine(&exact, 1).is_ok());
    let huge = MachineSpec {
        already_spent_cents: u32::MAX,
        estimated_cost_cents: 10,
        monthly_budget_cents: u32::MAX,
        ..machine()
    };
    assert!(plan_fly_machine(&huge, 1).is_ok());
    let over = MachineSpec { already_spent_cents: 701, ..machine() };
    assert_eq!(
        plan_fly_machine(&over, 1).unwrap_err(),
        "hard per-user validator budget cap exceeded"
    );
}

#[test]
fn janitor_destroys_expired_or_orphaned_machines() {
    let now = chrono::Utc::now();
    let at = |t: chrono::DateTime<chrono::Utc>| Timestamp::from_parts(t.timestamp(), t.timestamp_subsec_nanos()).unwrap();
    let machines = vec![
        MachineInventoryRow {
            id: "expired".to_string(),
            validation_id: "active".to_string(),
            expires_at: at(now - chrono::Duration::seconds(1)),
            leased: false,
        },
        MachineInventoryRow {
            id: "orphan".to_string(),
            validation_id: "missing".to_string(),
            expires_at: at(now + chrono::Duration::hours(1)),
            leased: false,
        },
    ];
    let active = vec!["active".to_string()];
    assert_eq!(
        janitor_destroy_list(&machines, &active, at(now)),
        vec!["expired".to_string(), "orphan".to_string()]
    );
}

#[test]
fn janitor_keeps_live_machines() {
    let now = Timestamp::from_parts(1_000, 0).unwrap();
    let machines = vec![
        MachineInventoryRow {
            id: "keep".to_string(),
            validation_id: "v".to_string(),
            expires_at: Timestamp::from_parts(1_001, 0).unwrap(),
            leased: true,
        },
        MachineInventoryRow {
            id: "edge".to_string(),
            validation_id: "v".to_string(),
            expires_at: Timestamp::from_parts(1_000, 0).unwrap(),
            leased: true,
        },
    ];
    assert_eq!(janitor_destroy_list(&machines, &["v".to_string()], now), vec!["edge".to_string()]);
}

#[test]
fn telemetry_flushes_when_forced_or_at_fifty_events() {
    assert!(!telemetry_flush_due(0, true));
    assert!(!telemetry_flush_due(49, false));
    assert!(telemetry_flush_due(50, false));
    assert!(telemetry_flush_due(1, true));
}
