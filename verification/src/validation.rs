//! Paper-validation runs: the scorecard that decides promotion, the validator machine plan
//! and the janitor that reclaims machines.
use crate::clock::{ts_le, Timestamp};
use crate::decimal::{decimal_text, num_gt, Dec};
use crate::market::{spec_fallback_regions, spec_primary_region, Exchange};
use crate::text::{nat_text, str_eq, u64_text};
use vstd::prelude::*;
use vstd::string::*;

verus! {

/// What a validation run must show before a strategy may go live.
#[derive(Debug, Clone)]
pub struct ScorecardThresholds {
    pub min_trades: u32,
    pub max_drawdown_pct: Dec,
    pub max_slippage_bps_vs_backtest: Dec,
    pub max_risk_guard_events: u32,
    pub max_exec_errors: u32,
    pub require_walk_forward: bool,
    pub require_oos: bool,
}

/// What a validation run showed.
#[derive(Debug, Clone)]
pub struct ValidationMetrics {
    pub trades: u32,
    pub max_drawdown_pct: Dec,
    pub slippage_bps_vs_backtest: Dec,
    pub risk_guard_events: u32,
    pub exec_errors: u32,
    pub walk_forward_passed: bool,
    pub oos_passed: bool,
    pub run_days: u32,
}

/// The verdict, with one reason per failed requirement.
#[derive(Debug, Clone)]
pub struct ScorecardResult {
    pub passed: bool,
    pub reasons: Vec<String>,
}

/// The texts of a list of strings.
pub open spec fn texts(v: Seq<String>) -> Seq<Seq<char>> {
    v.map_values(|s: String| s@)
}

/// `reason` alone where `failed` holds, else nothing.
pub open spec fn reason_if(failed: bool, reason: Seq<char>) -> Seq<Seq<char>> {
    if failed {
        seq![reason]
    } else {
        seq![]
    }
}

pub open spec fn run_days_reason(m: ValidationMetrics) -> Seq<char> {
    "run lasted "@ + nat_text(m.run_days as nat) + " days; required 7"@
}

pub open spec fn trades_reason(t: ScorecardThresholds, m: ValidationMetrics) -> Seq<char> {
    nat_text(m.trades as nat) + " trades observed; required at least "@ + nat_text(
        t.min_trades as nat,
    )
}

pub open spec fn drawdown_reason(t: ScorecardThresholds, m: ValidationMetrics) -> Seq<char> {
    "max drawdown "@ + decimal_text(m.max_drawdown_pct@) + "% exceeded "@ + decimal_text(
        t.max_drawdown_pct@,
    ) + "%"@
}

pub open spec fn slippage_reason(t: ScorecardThresholds, m: ValidationMetrics) -> Seq<char> {
    "slippage "@ + decimal_text(m.slippage_bps_vs_backtest@) + " bps exceeded "@ + decimal_text(
        t.max_slippage_bps_vs_backtest@,
    ) + " bps"@
}

pub open spec fn risk_events_reason(t: ScorecardThresholds, m: ValidationMetrics) -> Seq<char> {
    nat_text(m.risk_guard_events as nat) + " risk-guard events exceeded "@ + nat_text(
        t.max_risk_guard_events as nat,
    )
}

pub open spec fn exec_errors_reason(t: ScorecardThresholds, m: ValidationMetrics) -> Seq<char> {
    nat_text(m.exec_errors as nat) + " execution errors exceeded "@ + nat_text(
        t.max_exec_errors as nat,
    )
}

/// The reasons a run fails the scorecard, in the order the requirements are checked: the
/// run length (seven days), the trade count, the drawdown, the slippage, the risk-guard
/// events, the execution errors, walk-forward and out-of-sample.
pub open spec fn scorecard_reasons(t: ScorecardThresholds, m: ValidationMetrics) -> Seq<Seq<char>> {
    reason_if(m.run_days < 7, run_days_reason(m))
        + reason_if(m.trades < t.min_trades, trades_reason(t, m))
        + reason_if(num_gt(m.max_drawdown_pct@, t.max_drawdown_pct@), drawdown_reason(t, m))
        + reason_if(
        num_gt(m.slippage_bps_vs_backtest@, t.max_slippage_bps_vs_backtest@),
        slippage_reason(t, m),
    ) + reason_if(m.risk_guard_events > t.max_risk_guard_events, risk_events_reason(t, m))
        + reason_if(m.exec_errors > t.max_exec_errors, exec_errors_reason(t, m))
        + reason_if(t.require_walk_forward && !m.walk_forward_passed, "walk-forward check failed"@)
        + reason_if(t.require_oos && !m.oos_passed, "out-of-sample check failed"@)
}

fn push_reason_if(reasons: &mut Vec<String>, failed: bool, reason: String)
    ensures
        texts(final(reasons)@) == texts(old(reasons)@) + reason_if(failed, reason@),
{
    let ghost before = reasons@;
    if failed {
        reasons.push(reason);
        assert(texts(reasons@) =~= texts(before) + reason_if(failed, reason@));
    } else {
        assert(texts(reasons@) =~= texts(before) + reason_if(failed, reason@));
    }
}

fn text_of_run_days(m: &ValidationMetrics) -> (s: String)
    ensures
        s@ == run_days_reason(*m),
{
    let mut s = String::from_str("run lasted ");
    s.append(u64_text(m.run_days as u64).as_str());
    s.append(" days; required 7");
    s
}

fn text_of_trades(t: &ScorecardThresholds, m: &ValidationMetrics) -> (s: String)
    ensures
        s@ == trades_reason(*t, *m),
{
    let mut s = u64_text(m.trades as u64);
    s.append(" trades observed; required at least ");
    s.append(u64_text(t.min_trades as u64).as_str());
    s
}

fn text_of_drawdown(t: &ScorecardThresholds, m: &ValidationMetrics) -> (s: String)
    ensures
        s@ == drawdown_reason(*t, *m),
{
    let mut s = String::from_str("max drawdown ");
    s.append(m.max_drawdown_pct.to_text().as_str());
    s.append("% exceeded ");
    s.append(t.max_drawdown_pct.to_text().as_str());
    s.append("%");
    s
}

fn text_of_slippage(t: &ScorecardThresholds, m: &ValidationMetrics) -> (s: String)
    ensures
        s@ == slippage_reason(*t, *m),
{
    let mut s = String::from_str("slippage ");
    s.append(m.slippage_bps_vs_backtest.to_text().as_str());
    s.append(" bps exceeded ");
    s.append(t.max_slippage_bps_vs_backtest.to_text().as_str());
    s.append(" bps");
    s
}

fn text_of_risk_events(t: &ScorecardThresholds, m: &ValidationMetrics) -> (s: String)
    ensures
        s@ == risk_events_reason(*t, *m),
{
    let mut s = u64_text(m.risk_guard_events as u64);
    s.append(" risk-guard events exceeded ");
    s.append(u64_text(t.max_risk_guard_events as u64).as_str());
    s
}

fn text_of_exec_errors(t: &ScorecardThresholds, m: &ValidationMetrics) -> (s: String)
    ensures
        s@ == exec_errors_reason(*t, *m),
{
    let mut s = u64_text(m.exec_errors as u64);
    s.append(" execution errors exceeded ");
    s.append(u64_text(t.max_exec_errors as u64).as_str());
    s
}

/// Grades a validation run: it passes exactly when no requirement failed.
pub fn evaluate_scorecard(thresholds: &ScorecardThresholds, metrics: &ValidationMetrics) -> (r:
    ScorecardResult)
    ensures
        texts(r.reasons@) == scorecard_reasons(*thresholds, *metrics),
        r.passed <==> r.reasons@.len() == 0,
{
    let t = thresholds;
    let m = metrics;
    let mut reasons: Vec<String> = Vec::new();
    assert(texts(reasons@) =~= seq![]);
    if m.run_days < 7 {
        push_reason_if(&mut reasons, true, text_of_run_days(m));
    }
    let ghost r1 = texts(reasons@);
    assert(r1 =~= reason_if(m.run_days < 7, run_days_reason(*m)));
    if m.trades < t.min_trades {
        push_reason_if(&mut reasons, true, text_of_trades(t, m));
    }
    let ghost r2 = texts(reasons@);
    assert(r2 =~= r1 + reason_if(m.trades < t.min_trades, trades_reason(*t, *m)));
    if m.max_drawdown_pct.gt(&t.max_drawdown_pct) {
        push_reason_if(&mut reasons, true, text_of_drawdown(t, m));
    }
    let ghost r3 = texts(reasons@);
    assert(r3 =~= r2 + reason_if(
        num_gt(m.max_drawdown_pct@, t.max_drawdown_pct@),
        drawdown_reason(*t, *m),
    ));
    if m.slippage_bps_vs_backtest.gt(&t.max_slippage_bps_vs_backtest) {
        push_reason_if(&mut reasons, true, text_of_slippage(t, m));
    }
    let ghost r4 = texts(reasons@);
    assert(r4 =~= r3 + reason_if(
        num_gt(m.slippage_bps_vs_backtest@, t.max_slippage_bps_vs_backtest@),
        slippage_reason(*t, *m),
    ));
    if m.risk_guard_events > t.max_risk_guard_events {
        push_reason_if(&mut reasons, true, text_of_risk_events(t, m));
    }
    let ghost r5 = texts(reasons@);
    assert(r5 =~= r4 + reason_if(
        m.risk_guard_events > t.max_risk_guard_events,
        risk_events_reason(*t, *m),
    ));
    if m.exec_errors > t.max_exec_errors {
        push_reason_if(&mut reasons, true, text_of_exec_errors(t, m));
    }
    let ghost r6 = texts(reasons@);
    assert(r6 =~= r5 + reason_if(m.exec_errors > t.max_exec_errors, exec_errors_reason(*t, *m)));
    push_reason_if(
        &mut reasons,
        t.require_walk_forward && !m.walk_forward_passed,
        String::from_str("walk-forward check failed"),
    );
    push_reason_if(
        &mut reasons,
        t.require_oos && !m.oos_passed,
        String::from_str("out-of-sample check failed"),
    );
    assert(texts(reasons@) =~= scorecard_reasons(*thresholds, *metrics));
    let passed = reasons.len() == 0;
    ScorecardResult { passed, reasons }
}

/// A request for a paper-validation machine, with the user's monthly budget.
#[derive(Debug, Clone)]
pub struct MachineSpec {
    pub user_id: String,
    pub strategy_id: String,
    pub validation_id: String,
    pub exchange: Exchange,
    pub monthly_budget_cents: u32,
    pub already_spent_cents: u32,
    pub estimated_cost_cents: u32,
}

/// Where and how a validation machine is started. The labels are sorted by key.
#[derive(Debug, Clone)]
pub struct MachinePlan {
    pub lease_key: String,
    pub region: String,
    pub fallback_regions: Vec<String>,
    pub labels: Vec<(String, String)>,
}

/// The texts of a list of labels.
pub open spec fn label_texts(v: Seq<(String, String)>) -> Seq<(Seq<char>, Seq<char>)> {
    v.map_values(|l: (String, String)| (l.0@, l.1@))
}

/// The spend after this machine, saturating at `u32::MAX`.
pub open spec fn spend_after(spec: MachineSpec) -> int {
    let total = spec.already_spent_cents + spec.estimated_cost_cents;
    if total > u32::MAX {
        u32::MAX as int
    } else {
        total
    }
}

/// The machine's labels, sorted by key.
pub open spec fn plan_labels(spec: MachineSpec, ttl_hours: u32) -> Seq<(Seq<char>, Seq<char>)> {
    seq![
        ("mode"@, "paper"@),
        ("strategy_id"@, spec.strategy_id@),
        ("ttl_hours"@, nat_text(ttl_hours as nat)),
        ("user_id"@, spec.user_id@),
        ("validation_id"@, spec.validation_id@),
    ]
}

/// The value of the first label with key `key`.
pub open spec fn label_value(labels: Seq<(Seq<char>, Seq<char>)>, key: Seq<char>) -> Option<
    Seq<char>,
>
    decreases labels.len(),
{
    if labels.len() == 0 {
        None
    } else if labels[0].0 == key {
        Some(labels[0].1)
    } else {
        label_value(labels.drop_first(), key)
    }
}

impl MachinePlan {
    /// The value of the label `key`.
    pub fn label(&self, key: &str) -> (r: Option<String>)
        ensures
            match r {
                Some(v) => label_value(label_texts(self.labels@), key@) == Some(v@),
                None => label_value(label_texts(self.labels@), key@) is None,
            },
    {
        let mut i: usize = 0;
        let ghost all = label_texts(self.labels@);
        assert(all.skip(0) =~= all);
        while i < self.labels.len()
            invariant
                0 <= i <= self.labels@.len(),
                all == label_texts(self.labels@),
                label_value(all, key@) == label_value(all.skip(i as int), key@),
            decreases self.labels@.len() - i,
        {
            assert(all.skip(i as int)[0] == all[i as int]);
            if str_eq(self.labels[i].0.as_str(), key) {
                return Some(self.labels[i].1.clone());
            }
            assert(all.skip(i as int).drop_first() =~= all.skip(i + 1));
            i = i + 1;
        }
        None
    }
}

/// Plans a validator machine pinned to the venue's region, or refuses it when the spend
/// after it would exceed the monthly budget.
pub fn plan_fly_machine(spec: &MachineSpec, ttl_hours: u32) -> (r: Result<MachinePlan, String>)
    ensures
        r is Err <==> spend_after(*spec) > spec.monthly_budget_cents,
        r matches Err(e) ==> e@ == "hard per-user validator budget cap exceeded"@,
        r matches Ok(p) ==> {
            &&& p.lease_key@ == "validation:"@ + spec.validation_id@
            &&& p.region@ == spec_primary_region(spec.exchange)
            &&& texts(p.fallback_regions@) == spec_fallback_regions(spec.exchange)
            &&& label_texts(p.labels@) == plan_labels(*spec, ttl_hours)
        },
{
    if spec.already_spent_cents.saturating_add(spec.estimated_cost_cents)
        > spec.monthly_budget_cents {
        return Err(String::from_str("hard per-user validator budget cap exceeded"));
    }
    let mut labels: Vec<(String, String)> = Vec::new();
    labels.push((String::from_str("mode"), String::from_str("paper")));
    labels.push((String::from_str("strategy_id"), spec.strategy_id.clone()));
    labels.push((String::from_str("ttl_hours"), u64_text(ttl_hours as u64)));
    labels.push((String::from_str("user_id"), spec.user_id.clone()));
    labels.push((String::from_str("validation_id"), spec.validation_id.clone()));
    assert(label_texts(labels@) =~= plan_labels(*spec, ttl_hours));
    let mut lease_key = String::from_str("validation:");
    lease_key.append(spec.validation_id.as_str());
    let regions = spec.exchange.fallback_regions();
    let mut fallback_regions: Vec<String> = Vec::new();
    let mut i: usize = 0;
    while i < regions.len()
        invariant
            0 <= i <= regions@.len(),
            regions@.len() == spec_fallback_regions(spec.exchange).len(),
            forall|j: int|
                0 <= j < regions@.len() ==> (#[trigger] regions@[j])@ == spec_fallback_regions(
                    spec.exchange,
                )[j],
            texts(fallback_regions@) =~= spec_fallback_regions(spec.exchange).take(i as int),
        decreases regions@.len() - i,
    {
        let ghost before = fallback_regions@;
        fallback_regions.push(String::from_str(regions[i]));
        assert(texts(fallback_regions@) =~= texts(before).push(regions@[i as int]@));
        i = i + 1;
    }
    assert(spec_fallback_regions(spec.exchange).take(i as int) =~= spec_fallback_regions(
        spec.exchange,
    ));
    Ok(
        MachinePlan {
            lease_key,
            region: String::from_str(spec.exchange.primary_region()),
            fallback_regions,
            labels,
        },
    )
}

/// A running validator machine.
#[derive(Debug, Clone)]
pub struct MachineInventoryRow {
    pub id: String,
    pub validation_id: String,
    pub expires_at: Timestamp,
    pub leased: bool,
}

/// A machine is destroyed once it has expired or its validation is no longer active.
pub open spec fn should_destroy(
    m: MachineInventoryRow,
    active_validation_ids: Seq<Seq<char>>,
    now: (int, int),
) -> bool {
    ts_le(m.expires_at@, now) || !active_validation_ids.contains(m.validation_id@)
}

/// The ids of the machines to destroy, in inventory order.
pub open spec fn destroy_ids(
    machines: Seq<MachineInventoryRow>,
    active_validation_ids: Seq<Seq<char>>,
    now: (int, int),
) -> Seq<Seq<char>>
    decreases machines.len(),
{
    if machines.len() == 0 {
        seq![]
    } else {
        let rest = destroy_ids(machines.drop_last(), active_validation_ids, now);
        if should_destroy(machines.last(), active_validation_ids, now) {
            rest.push(machines.last().id@)
        } else {
            rest
        }
    }
}

fn contains_text(items: &[String], s: &String) -> (r: bool)
    ensures
        r <==> texts(items@).contains(s@),
{
    let mut i: usize = 0;
    while i < items.len()
        invariant
            0 <= i <= items@.len(),
            forall|j: int| 0 <= j < i ==> (#[trigger] items@[j])@ != s@,
        decreases items@.len() - i,
    {
        if items[i] == *s {
            assert(texts(items@)[i as int] == s@);
            return true;
        }
        i = i + 1;
    }
    proof {
        if texts(items@).contains(s@) {
            let j = choose|j: int| 0 <= j < texts(items@).len() && texts(items@)[j] == s@;
            assert(items@[j]@ == s@);
        }
    }
    false
}

/// The machines the janitor destroys: those expired at `now` and those whose validation is
/// not among the active ones.
pub fn janitor_destroy_list(
    machines: &[MachineInventoryRow],
    active_validation_ids: &[String],
    now: Timestamp,
) -> (r: Vec<String>)
    ensures
        texts(r@) == destroy_ids(machines@, texts(active_validation_ids@), now@),
{
    let mut out: Vec<String> = Vec::new();
    let mut i: usize = 0;
    while i < machines.len()
        invariant
            0 <= i <= machines@.len(),
            texts(out@) == destroy_ids(
                machines@.take(i as int),
                texts(active_validation_ids@),
                now@,
            ),
        decreases machines@.len() - i,
    {
        let m = &machines[i];
        assert(machines@.take(i + 1).drop_last() =~= machines@.take(i as int));
        assert(machines@.take(i + 1).last() == machines@[i as int]);
        if m.expires_at.le(&now) || !contains_text(active_validation_ids, &m.validation_id) {
            let ghost before = out@;
            out.push(m.id.clone());
            assert(texts(out@) =~= texts(before).push(m.id@));
        }
        i = i + 1;
    }
    assert(machines@.take(machines@.len() as int) =~= machines@);
    out
}

/// Whether buffered telemetry is sent now: there is some, and either the send is forced or
/// fifty events have piled up.
pub fn telemetry_flush_due(pending: usize, force: bool) -> (r: bool)
    ensures
        r == (pending > 0 && (force || pending >= 50)),
{
    !(pending == 0 || (!force && pending < 50))
}

} // verus!
