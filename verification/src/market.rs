//! Venues, order sides and the alerts that the executor raises.
use vstd::prelude::*;

verus! {

/// A supported exchange venue.
#[derive(Debug, Clone, Copy, PartialEq, Eq, Structural, PartialOrd, Ord, Hash)]
pub enum Exchange {
    Binance,
    Bybit,
}

/// The region in which a validator for `e` is pinned first.
pub open spec fn spec_primary_region(e: Exchange) -> Seq<char> {
    match e {
        Exchange::Binance => "nrt"@,
        Exchange::Bybit => "sin"@,
    }
}

/// The regions tried, in order, when the primary region is unavailable.
pub open spec fn spec_fallback_regions(e: Exchange) -> Seq<Seq<char>> {
    match e {
        Exchange::Binance => seq!["sin"@, "hkg"@],
        Exchange::Bybit => seq!["hkg"@, "nrt"@],
    }
}

/// The lower-case venue name.
pub open spec fn spec_exchange_name(e: Exchange) -> Seq<char> {
    match e {
        Exchange::Binance => "binance"@,
        Exchange::Bybit => "bybit"@,
    }
}

impl Exchange {
    pub fn primary_region(self) -> (r: &'static str)
        ensures
            r@ == spec_primary_region(self),
    {
        match self {
            Exchange::Binance => "nrt",
            Exchange::Bybit => "sin",
        }
    }

    pub fn fallback_regions(self) -> (r: &'static [&'static str])
        ensures
            r@.len() == spec_fallback_regions(self).len(),
            forall|i: int|
                0 <= i < r@.len() ==> (#[trigger] r@[i])@ == spec_fallback_regions(self)[i],
    {
        match self {
            Exchange::Binance => {
                let r: &'static [&'static str] = &["sin", "hkg"];
                assert(r@ == seq!["sin", "hkg"]);
                r
            },
            Exchange::Bybit => {
                let r: &'static [&'static str] = &["hkg", "nrt"];
                assert(r@ == seq!["hkg", "nrt"]);
                r
            },
        }
    }

    pub fn as_str(self) -> (r: &'static str)
        ensures
            r@ == spec_exchange_name(self),
    {
        match self {
            Exchange::Binance => "binance",
            Exchange::Bybit => "bybit",
        }
    }
}

/// The side of an order on a venue.
#[derive(Debug, Clone, Copy, PartialEq, Eq, Structural, Hash)]
pub enum Side {
    Buy,
    Sell,
}

/// The upper-case side name that venues expect.
pub open spec fn spec_side_name(s: Side) -> Seq<char> {
    match s {
        Side::Buy => "BUY"@,
        Side::Sell => "SELL"@,
    }
}

impl Side {
    pub fn as_str(self) -> (r: &'static str)
        ensures
            r@ == spec_side_name(self),
    {
        match self {
            Side::Buy => "BUY",
            Side::Sell => "SELL",
        }
    }
}

/// An alert that stops or throttles execution.
#[derive(Debug, Clone)]
pub enum ExecAlert {
    RateLimitExceeded { exchange: Exchange, retry_after_ms: Option<u64> },
    ExchangeBan { exchange: Exchange, status: u16 },
    WsReconnectThrottled { exchange: Exchange },
    ClockSkewExceeded { skew_ms: i64 },
    KillSwitchActive,
    RiskLimitExceeded { reason: String },
}

} // verus!
