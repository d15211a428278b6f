use exec_rs::backtest::{
    bar_exit, default_intrabar, execution_price, in_session, parse_u32, ratio, round_down,
    round_up, Expr, ExprParser, ExitReason, IntrabarAssumption, Side,
};
use exec_rs::decimal::Dec;

fn d(s: &str) -> Dec {
    Dec::parse(s).unwrap()
}

fn ctx(pairs: &[(&str, bool)]) -> Vec<(String, bool)> {
    pairs.iter().map(|(k, v)| (k.to_string(), *v)).collect()
}

fn parse(s: &str) -> Result<Expr, String> {
    ExprParser::new(s).parse()
}

#[test]
fn entry_conditions_parse_and_evaluate() {
    let e = parse("wy_spring && (vsa_no_supply || !Regime_2)").unwrap();
    assert!(e.eval(&ctx(&[("wy_spring", true), ("vsa_no_supply", false), ("Regime_2", false)])));
    assert!(!e.eval(&ctx(&[("wy_spring", true), ("vsa_no_supply", false), ("Regime_2", true)])));
    assert!(!e.eval(&ctx(&[("vsa_no_supply", true)])));
    let later_wins = ctx(&[("a", false), ("a", true)]);
    assert!(parse("a").unwrap().eval(&later_wins));
    assert!(parse("  a||b  ").unwrap().eval(&ctx(&[("b", true)])));
}

#[test]
fn entry_condition_errors() {
    assert_eq!(parse("a &&").unwrap_err(), "expected identifier in entry.when");
    assert_eq!(parse("(a || b").unwrap_err(), "missing closing ')' in entry.when");
    assert_eq!(parse("a b").unwrap_err(), "unexpected token in entry.when");
    assert_eq!(parse("").unwrap_err(), "expected identifier in entry.when");
}

#[test]
fn sides_and_defaults() {
    assert_eq!(Side::from_str("long"), Some(Side::Long));
    assert_eq!(Side::from_str("short"), Some(Side::Short));
    assert_eq!(Side::from_str("Long"), None);
    assert_eq!(Side::Short.as_str(), "short");
    assert!(Side::Long.is_long());
    assert_eq!(default_intrabar(), IntrabarAssumption::Conservative);
}

#[test]
fn sessions_by_hour() {
    assert!(in_session("2024-01-01T09:15:00Z", "08-17"));
    assert!(!in_session("2024-01-01T18:00:00Z", "08-17"));
    assert!(in_session("2024-01-01T23:00:00Z", "22-02"));
    assert!(in_session("2024-01-01T01:00:00Z", "22-02"));
    assert!(!in_session("2024-01-01T12:00:00Z", "22-02"));
    assert!(in_session("bad", "00-05"));
    assert!(in_session("2024-01-01T23:00:00Z", "10"));
    assert!(!in_session("2024-01-01T09:00:00Z", "10"));
}

#[test]
fn decimal_hours_parse_like_std() {
    assert_eq!(parse_u32("09"), Some(9));
    assert_eq!(parse_u32("+7"), Some(7));
    assert_eq!(parse_u32("4294967295"), Some(u32::MAX));
    assert_eq!(parse_u32("4294967296"), None);
    assert_eq!(parse_u32(""), None);
    assert_eq!(parse_u32("+"), None);
    assert_eq!(parse_u32("1a"), None);
    assert_eq!(parse_u32("-1"), None);
}

#[test]
fn prices_round_to_steps_and_slip() {
    assert!(round_down(d("101.37"), d("0.1")).unwrap().num_eq(&d("101.3")));
    assert!(round_up(d("101.31"), d("0.1")).unwrap().num_eq(&d("101.4")));
    assert!(round_down(d("5"), d("0")).unwrap().num_eq(&d("5")));
    assert!(execution_price(d("100"), d("10"), true).unwrap().num_eq(&d("100.1")));
    assert!(execution_price(d("100"), d("10"), false).unwrap().num_eq(&d("99.9")));
    assert!(ratio(d("1"), d("0")).unwrap().is_zero());
    assert!(ratio(d("3"), d("4")).unwrap().num_eq(&d("0.75")));
}

#[test]
fn bars_trigger_exits() {
    let hit_both = bar_exit(Side::Long, d("110"), d("90"), d("95"), d("105"), IntrabarAssumption::Conservative);
    let (price, why) = hit_both.unwrap();
    assert!(price.num_eq(&d("95")));
    assert_eq!(why, ExitReason::StopLoss);
    let (price, why) =
        bar_exit(Side::Long, d("110"), d("90"), d("95"), d("105"), IntrabarAssumption::Optimistic).unwrap();
    assert!(price.num_eq(&d("105")));
    assert_eq!(why.as_str(), "take_profit");
    assert!(bar_exit(Side::Short, d("104"), d("96"), d("105"), d("95"), IntrabarAssumption::Conservative).is_none());
    let (_, why) = bar_exit(Side::Short, d("106"), d("100"), d("105"), d("95"), IntrabarAssumption::Conservative).unwrap();
    assert_eq!(why, ExitReason::StopLoss);
}
