use exec_rs::strategy_spec::{
    canonical_hash, fix_positive_exponents, semantic_check, SemanticProblem, SpecError, SpecOutline,
};

fn outline(when: &str) -> SpecOutline {
    SpecOutline {
        indicator_ids: vec![Some("atr_14".to_string()), Some("vol_ma_20".to_string())],
        pattern_ids: vec![Some("wy_spring".to_string()), Some("vsa_no_supply".to_string()), None],
        entry_whens: vec![Some(when.to_string())],
        min_rr_below_three: false,
    }
}

fn problems(o: &SpecOutline) -> Vec<SemanticProblem> {
    match semantic_check(o) {
        Err(SpecError::Semantic(ps)) => ps,
        Err(other) => panic!("unexpected {other:?}"),
        Ok(()) => vec![],
    }
}

#[test]
fn semantic_accepts_a_well_formed_spec() {
    assert!(semantic_check(&outline("wy_spring && (vsa_no_supply || !atr_14) || true")).is_ok());
}

#[test]
fn semantic_flags_unknown_id() {
    let ps = problems(&outline("wy_spring && does_not_exist"));
    assert_eq!(ps.len(), 1);
    assert!(ps[0].message.contains("does_not_exist"), "got: {}", ps[0].message);
    assert_eq!(ps[0].code, "unknown_id");
    assert_eq!(ps[0].message, "entries[0].when references unknown id \"does_not_exist\"");
    assert_eq!(ps[0].path.as_deref(), Some("entries[0].when"));
}

#[test]
fn semantic_rejects_dangling_and_operator() {
    let ps = problems(&outline("wy_spring &&"));
    assert!(!ps.is_empty());
    assert_eq!(ps[0].code, "invalid_when_syntax");
    assert_eq!(ps[0].message, "entries[0].when: unexpected end of expression");
}

#[test]
fn semantic_rejects_function_call_in_when() {
    let ps = problems(&outline("wy_spring()"));
    assert!(!ps.is_empty());
    assert_eq!(ps[0].message, "entries[0].when: unexpected token \"(\"");
}

#[test]
fn semantic_rejects_arithmetic_in_when() {
    let ps = problems(&outline("wy_spring + vsa_no_supply"));
    assert!(!ps.is_empty());
    assert_eq!(ps[0].message, "entries[0].when: unexpected token \"+ vs\"");
}

#[test]
fn semantic_rejects_min_rr_below_three() {
    let o = SpecOutline { min_rr_below_three: true, ..outline("wy_spring") };
    let ps = problems(&o);
    assert_eq!(ps.len(), 1);
    assert!(ps[0].message.contains("min_rr"));
    assert_eq!(ps[0].path.as_deref(), Some("risk.min_rr"));
}

#[test]
fn semantic_reports_duplicates_and_empty_expressions() {
    let o = SpecOutline {
        indicator_ids: vec![Some("a".to_string()), Some("a".to_string())],
        pattern_ids: vec![Some("p".to_string()), None, Some("p".to_string())],
        entry_whens: vec![None, Some("  ".to_string()), Some("(a".to_string()), Some("a p".to_string())],
        min_rr_below_three: false,
    };
    let ps = problems(&o);
    let codes: Vec<&str> = ps.iter().map(|p| p.code).collect();
    assert_eq!(
        codes,
        vec![
            "dup_indicator_id",
            "dup_pattern_id",
            "invalid_when_syntax",
            "invalid_when_syntax",
            "invalid_when_syntax",
            "invalid_when_syntax"
        ]
    );
    assert_eq!(ps[2].message, "entries[0].when: expression cannot be empty");
    assert_eq!(ps[3].message, "entries[1].when: expression cannot be empty");
    assert_eq!(ps[4].message, "entries[2].when: expected ')'");
    assert_eq!(ps[5].message, "entries[3].when: unexpected token \"p\"");
}

#[test]
fn positive_exponents_gain_a_plus_outside_strings() {
    assert_eq!(fix_positive_exponents("{\"n\":1e21}".to_string()), "{\"n\":1e+21}");
    assert_eq!(fix_positive_exponents("{\"e1\":\"1e5\",\"m\":2e-7}".to_string()), "{\"e1\":\"1e5\",\"m\":2e-7}");
    assert_eq!(fix_positive_exponents("[\"a\\\"e1\",3e8]".to_string()), "[\"a\\\"e1\",3e+8]");
    assert_eq!(fix_positive_exponents("{\"quote\":\"ação\"}".to_string()), "{\"quote\":\"ação\"}");
}

#[test]
fn canonical_hash_is_lower_hex_sha256() {
    let h = canonical_hash("{\"a\":2,\"b\":1}");
    assert_eq!(h.len(), 64);
    assert!(h.chars().all(|c| c.is_ascii_hexdigit() && !c.is_ascii_uppercase()));
    assert_eq!(h, canonical_hash("{\"a\":2,\"b\":1}"));
    assert_ne!(h, canonical_hash("{\"a\":2,\"b\":2}"));
}

const SCHEMA: &str = r#"{"type": "object", "required": ["spec_version"], "properties": {"symbols": {"type": "array"}}}"#;

#[test]
fn schema_validation_accepts_a_conforming_spec() {
    let r = exec_rs::strategy_spec::validate(SCHEMA, r#"{"spec_version": "1.0", "symbols": ["BTCUSDT"]}"#);
    assert!(matches!(r, Some(Ok(()))));
}

#[test]
fn schema_validation_reports_each_error() {
    match exec_rs::strategy_spec::validate(SCHEMA, "{}") {
        Some(Err(SpecError::Schema(m))) => assert_eq!(m, "\"spec_version\" is a required property"),
        other => panic!("unexpected {other:?}"),
    }
    match exec_rs::strategy_spec::validate(SCHEMA, r#"{"symbols": 1}"#) {
        Some(Err(SpecError::Schema(m))) => {
            let parts: Vec<&str> = m.split("; ").collect();
            assert_eq!(parts.len(), 2);
            assert!(parts.contains(&"\"spec_version\" is a required property"));
            assert!(parts.contains(&"1 is not of type \"array\""));
        }
        other => panic!("unexpected {other:?}"),
    }
}

#[test]
fn schema_validation_needs_a_usable_schema() {
    assert!(exec_rs::strategy_spec::validate("not json", "{}").is_none());
    assert!(exec_rs::strategy_spec::validate(r#"{"type": 12}"#, "{}").is_none());
}
