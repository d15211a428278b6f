//! Pre-trade risk limits, the guard that enforces them, the fail-closed local cache of the
//! limits and the kill-switch action.
use crate::clock::{utc_now, utc_seconds_between, Timestamp};
use crate::decimal::{
    decimal_difference, decimal_product, decimal_quotient, decimal_text, num_gt, opt_view, Dec,
};
use crate::market::ExecAlert;
use vstd::prelude::*;
use vstd::string::*;

verus! {

/// Limits on losses, exposure and concurrency, and the kill switch.
#[derive(Debug, Clone)]
pub struct RiskLimits {
    pub kill_switch_active: bool,
    pub max_daily_loss_pct: Dec,
    pub max_position_pct: Dec,
    pub max_concurrent_orders: usize,
}

/// What the guard is asked about: equity now and at the start of the day, gross exposure as
/// a percentage of equity, and the orders in flight.
#[derive(Debug, Clone)]
pub struct RiskState {
    pub equity: Dec,
    pub start_of_day_equity: Dec,
    pub gross_position_pct: Dec,
    pub open_orders: usize,
}

/// `((start_of_day_equity - equity) / start_of_day_equity) * 100` in decimal arithmetic, or
/// `None` where an operation overflows.
pub open spec fn spec_drawdown_pct(state: RiskState) -> Option<(int, nat)> {
    match decimal_difference(state.start_of_day_equity@, state.equity@) {
        Some(loss) => match decimal_quotient(loss, state.start_of_day_equity@) {
            Some(ratio) => decimal_product(ratio, (100int, 0nat)),
            None => None,
        },
        None => None,
    }
}

/// The guard decides without an arithmetic overflow: the drawdown is only computed when the
/// kill switch is off and the day started with positive equity.
pub open spec fn risk_check_defined(limits: RiskLimits, state: RiskState) -> bool {
    limits.kill_switch_active || state.start_of_day_equity@.0 <= 0 || spec_drawdown_pct(
        state,
    ) is Some
}

pub open spec fn daily_loss_reason(dd: (int, nat), max: (int, nat)) -> Seq<char> {
    "daily loss "@ + decimal_text(dd) + "% exceeds "@ + decimal_text(max) + "%"@
}

pub open spec fn gross_position_reason(g: (int, nat), max: (int, nat)) -> Seq<char> {
    "gross position "@ + decimal_text(g) + "% exceeds "@ + decimal_text(max) + "%"@
}

/// Which check of the guard refuses, in the order the guard makes them.
pub enum RiskVerdict {
    Pass,
    KillSwitch,
    DailyLoss((int, nat)),
    GrossPosition,
    ConcurrentOrders,
}

pub open spec fn spec_risk_verdict(limits: RiskLimits, state: RiskState) -> RiskVerdict {
    if limits.kill_switch_active {
        RiskVerdict::KillSwitch
    } else if state.start_of_day_equity@.0 > 0 && num_gt(
        spec_drawdown_pct(state).unwrap(),
        limits.max_daily_loss_pct@,
    ) {
        RiskVerdict::DailyLoss(spec_drawdown_pct(state).unwrap())
    } else if num_gt(state.gross_position_pct@, limits.max_position_pct@) {
        RiskVerdict::GrossPosition
    } else if state.open_orders >= limits.max_concurrent_orders {
        RiskVerdict::ConcurrentOrders
    } else {
        RiskVerdict::Pass
    }
}

/// The answer of the guard: `Ok` only when every check passes; otherwise the first refusal,
/// with its reason.
pub open spec fn risk_answer(result: Result<(), ExecAlert>, limits: RiskLimits, state: RiskState) -> bool {
    match spec_risk_verdict(limits, state) {
        RiskVerdict::Pass => result is Ok,
        RiskVerdict::KillSwitch => result matches Err(ExecAlert::KillSwitchActive),
        RiskVerdict::DailyLoss(dd) => result matches Err(ExecAlert::RiskLimitExceeded { reason })
            && reason@ == daily_loss_reason(dd, limits.max_daily_loss_pct@),
        RiskVerdict::GrossPosition => result matches Err(ExecAlert::RiskLimitExceeded { reason })
            && reason@ == gross_position_reason(
            state.gross_position_pct@,
            limits.max_position_pct@,
        ),
        RiskVerdict::ConcurrentOrders => result matches Err(ExecAlert::RiskLimitExceeded { reason })
            && reason@ == "concurrent order cap reached"@,
    }
}

/// `((start_of_day_equity - equity) / start_of_day_equity) * 100`.
pub fn drawdown_pct(state: &RiskState) -> (r: Option<Dec>)
    ensures
        opt_view(r) == spec_drawdown_pct(*state),
{
    match state.start_of_day_equity.checked_sub(state.equity) {
        Some(loss) => match loss.checked_div(state.start_of_day_equity) {
            Some(ratio) => ratio.checked_mul(Dec::from_u64(100)),
            None => None,
        },
        None => None,
    }
}

fn percent_reason(prefix: &str, value: Dec, max: Dec) -> (r: String)
    ensures
        r@ == prefix@ + decimal_text(value@) + "% exceeds "@ + decimal_text(max@) + "%"@,
{
    let mut s = String::from_str(prefix);
    s.append(value.to_text().as_str());
    s.append("% exceeds ");
    s.append(max.to_text().as_str());
    s.append("%");
    s
}

/// Enforces a set of risk limits.
#[derive(Debug, Clone)]
pub struct RiskGuard {
    pub limits: RiskLimits,
}

impl RiskGuard {
    pub fn new(limits: RiskLimits) -> (r: RiskGuard)
        ensures
            r.limits == limits,
    {
        RiskGuard { limits }
    }

    /// Refuses when the kill switch is on, the daily loss exceeds its limit, gross exposure
    /// exceeds its limit, or the concurrent order cap is reached; checked in that order.
    pub fn check(&self, state: &RiskState) -> (r: Result<(), ExecAlert>)
        requires
            risk_check_defined(self.limits, *state),
        ensures
            risk_answer(r, self.limits, *state),
    {
        proof {
            reveal_strlit("daily loss ");
            reveal_strlit("gross position ");
        }
        if self.limits.kill_switch_active {
            return Err(ExecAlert::KillSwitchActive);
        }
        if state.start_of_day_equity.is_positive() {
            match drawdown_pct(state) {
                Some(dd) => {
                    if dd.gt(&self.limits.max_daily_loss_pct) {
                        return Err(
                            ExecAlert::RiskLimitExceeded {
                                reason: percent_reason(
                                    "daily loss ",
                                    dd,
                                    self.limits.max_daily_loss_pct,
                                ),
                            },
                        );
                    }
                },
                None => {
                    assert(false);
                },
            }
        }
        if state.gross_position_pct.gt(&self.limits.max_position_pct) {
            return Err(
                ExecAlert::RiskLimitExceeded {
                    reason: percent_reason(
                        "gross position ",
                        state.gross_position_pct,
                        self.limits.max_position_pct,
                    ),
                },
            );
        }
        if state.open_orders >= self.limits.max_concurrent_orders {
            return Err(
                ExecAlert::RiskLimitExceeded {
                    reason: String::from_str("concurrent order cap reached"),
                },
            );
        }
        Ok(())
    }

    /// The guard's answer, or `None` where computing the drawdown would overflow.
    pub fn check_checked(&self, state: &RiskState) -> (r: Option<Result<(), ExecAlert>>)
        ensures
            r is Some <==> risk_check_defined(self.limits, *state),
            r matches Some(answer) ==> risk_answer(answer, self.limits, *state),
    {
        if self.limits.kill_switch_active || !state.start_of_day_equity.is_positive()
            || drawdown_pct(state).is_some() {
            Some(self.check(state))
        } else {
            None
        }
    }
}

/// The limits last fetched from the database, with the time of the fetch.
#[derive(Debug, Clone)]
pub struct LocalRiskCache {
    pub limits: RiskLimits,
    pub last_updated: Timestamp,
    pub stale_after_secs: u64,
}

/// The cache is stale once more than `stale_after_secs` whole seconds have passed since the
/// last refresh (a refresh stamped in the future counts as no time passed).
pub open spec fn spec_is_stale(cache: LocalRiskCache, now: (int, int)) -> bool {
    let age = utc_seconds_between(now, cache.last_updated@);
    (if age < 0 { 0 } else { age }) > cache.stale_after_secs
}

/// The limits in force: the cached ones, with the kill switch forced on when stale.
pub open spec fn spec_effective_limits(cache: LocalRiskCache, now: (int, int)) -> RiskLimits {
    if spec_is_stale(cache, now) {
        RiskLimits { kill_switch_active: true, ..cache.limits }
    } else {
        cache.limits
    }
}

impl LocalRiskCache {
    pub fn new(limits: RiskLimits, stale_after_secs: u64) -> (r: LocalRiskCache)
        ensures
            r.limits == limits,
            r.stale_after_secs == stale_after_secs,
    {
        LocalRiskCache { limits, last_updated: utc_now(), stale_after_secs }
    }

    /// Staleness at the time `now`.
    pub fn is_stale_at(&self, now: Timestamp) -> (r: bool)
        ensures
            r == spec_is_stale(*self, now@),
    {
        let age = now.seconds_since(&self.last_updated);
        let age: u64 = if age < 0 {
            0
        } else {
            age as u64
        };
        age > self.stale_after_secs
    }

    /// Staleness now; the reading of the clock is some time `now`.
    pub fn is_stale(&self) -> (r: bool)
        ensures
            exists|now: (int, int)| r == #[trigger] spec_is_stale(*self, now),
    {
        let now = utc_now();
        self.is_stale_at(now)
    }

    /// The limits in force at the time `now`: a stale cache fails closed.
    pub fn effective_limits_at(&self, now: Timestamp) -> (r: RiskLimits)
        ensures
            r == spec_effective_limits(*self, now@),
            spec_is_stale(*self, now@) ==> r.kill_switch_active,
    {
        if self.is_stale_at(now) {
            RiskLimits {
                kill_switch_active: true,
                max_daily_loss_pct: self.limits.max_daily_loss_pct,
                max_position_pct: self.limits.max_position_pct,
                max_concurrent_orders: self.limits.max_concurrent_orders,
            }
        } else {
            RiskLimits {
                kill_switch_active: self.limits.kill_switch_active,
                max_daily_loss_pct: self.limits.max_daily_loss_pct,
                max_position_pct: self.limits.max_position_pct,
                max_concurrent_orders: self.limits.max_concurrent_orders,
            }
        }
    }

    /// The limits in force now; the reading of the clock is some time `now`.
    pub fn effective_limits(&self) -> (r: RiskLimits)
        ensures
            exists|now: (int, int)| r == #[trigger] spec_effective_limits(*self, now),
    {
        let now = utc_now();
        self.effective_limits_at(now)
    }
}

/// What the kill switch does: it always cancels all open orders and flattens positions on
/// request.
#[derive(Debug, Clone)]
pub struct KillSwitchAction {
    pub cancel_all: bool,
    pub flatten_positions: bool,
    pub triggered_at: Timestamp,
    pub reason: String,
}

impl KillSwitchAction {
    pub fn new(flatten: bool, reason: &str) -> (r: KillSwitchAction)
        ensures
            r.cancel_all,
            r.flatten_positions == flatten,
            r.reason@ == reason@,
    {
        KillSwitchAction {
            cancel_all: true,
            flatten_positions: flatten,
            triggered_at: utc_now(),
            reason: String::from_str(reason),
        }
    }
}

} // verus!
