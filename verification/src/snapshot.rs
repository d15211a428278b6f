//! A market data snapshot as the backtest replays it: candles with the fee, slippage, funding
//! and contract models that were in force, and the run's configuration.
use crate::backtest::{default_intrabar, IntrabarAssumption};
use crate::decimal::{add_o, div_o, opt_add, opt_div, opt_view, Dec};
use crate::text::str_eq;
use vstd::prelude::*;
use vstd::string::*;

verus! {

/// One bar of market data.
#[derive(Debug, Clone)]
pub struct Candle {
    pub ts: String,
    pub open: Dec,
    pub high: Dec,
    pub low: Dec,
    pub close: Dec,
    pub volume: Dec,
    pub spread_bps: Option<Dec>,
    pub delisted: bool,
}

/// Maker and taker fees in basis points.
#[derive(Debug, Clone, Copy)]
pub struct FeeModel {
    pub maker_bps: Dec,
    pub taker_bps: Dec,
}

impl Default for FeeModel {
    /// Two basis points for makers, four for takers.
    fn default() -> (r: FeeModel)
        ensures
            r.maker_bps@ == (2int, 0nat),
            r.taker_bps@ == (4int, 0nat),
    {
        FeeModel { maker_bps: Dec::new(2, 0), taker_bps: Dec::new(4, 0) }
    }
}

/// Slippage in basis points and the intrabar assumption.
#[derive(Debug, Clone, Copy)]
pub struct SlippageModel {
    pub bps: Dec,
    pub intrabar: IntrabarAssumption,
}

impl Default for SlippageModel {
    /// One basis point, conservative.
    fn default() -> (r: SlippageModel)
        ensures
            r.bps@ == (1int, 0nat),
            r.intrabar == IntrabarAssumption::Conservative,
    {
        SlippageModel { bps: Dec::new(1, 0), intrabar: default_intrabar() }
    }
}

/// Funding in basis points per day.
#[derive(Debug, Clone, Copy)]
pub struct FundingModel {
    pub bps_per_day: Dec,
}

impl Default for FundingModel {
    /// No funding.
    fn default() -> (r: FundingModel)
        ensures
            r.bps_per_day@ == (0int, 0nat),
    {
        FundingModel { bps_per_day: Dec::zero() }
    }
}

/// The traded contract's steps and limits.
#[derive(Debug, Clone, Copy)]
pub struct ContractSpec {
    pub tick_size: Dec,
    pub lot_size: Dec,
    pub min_notional: Dec,
    pub max_leverage: Dec,
    pub maintenance_margin_bps: Dec,
}

impl Default for ContractSpec {
    /// A tick of 0.1, a lot of 0.001, a minimum notional of 5, no leverage and a maintenance
    /// margin of 50 basis points.
    fn default() -> (r: ContractSpec)
        ensures
            r.tick_size@ == (1int, 1nat),
            r.lot_size@ == (1int, 3nat),
            r.min_notional@ == (5int, 0nat),
            r.max_leverage@ == (1int, 0nat),
            r.maintenance_margin_bps@ == (50int, 0nat),
    {
        ContractSpec {
            tick_size: Dec::new(1, 1),
            lot_size: Dec::new(1, 3),
            min_notional: Dec::new(5, 0),
            max_leverage: Dec::new(1, 0),
            maintenance_margin_bps: Dec::new(50, 0),
        }
    }
}

/// A replayable market data snapshot.
#[derive(Debug, Clone)]
pub struct MarketSnapshot {
    pub data_snapshot_id: String,
    pub venue: String,
    pub symbol: String,
    pub timeframe: String,
    pub fees: FeeModel,
    pub slippage: SlippageModel,
    pub funding: FundingModel,
    pub contract: ContractSpec,
    pub candles: Vec<Candle>,
}

/// What a backtest run starts from.
#[derive(Debug, Clone)]
pub struct BacktestConfig {
    pub initial_equity: Dec,
    pub data_snapshot_id: String,
    pub seed: u64,
    pub image_digest: String,
}

/// The price a moving average or EMA reads from a candle: `open`, `high`, `low`, `volume`,
/// the averages `hlc3` and `ohlc4`, and the close for any other name.
pub open spec fn spec_candle_source(c: Candle, source: Seq<char>) -> Option<(int, nat)> {
    if source == "open"@ {
        Some(c.open@)
    } else if source == "high"@ {
        Some(c.high@)
    } else if source == "low"@ {
        Some(c.low@)
    } else if source == "hlc3"@ {
        div_o(add_o(add_o(Some(c.high@), Some(c.low@)), Some(c.close@)), Some((3int, 0nat)))
    } else if source == "ohlc4"@ {
        div_o(
            add_o(add_o(add_o(Some(c.open@), Some(c.high@)), Some(c.low@)), Some(c.close@)),
            Some((4int, 0nat)),
        )
    } else if source == "volume"@ {
        Some(c.volume@)
    } else {
        Some(c.close@)
    }
}

/// The source price of a candle, `None` where its arithmetic overflows.
pub fn candle_source(c: &Candle, source: &str) -> (r: Option<Dec>)
    ensures
        opt_view(r) == spec_candle_source(*c, source@),
{
    if str_eq(source, "open") {
        Some(c.open)
    } else if str_eq(source, "high") {
        Some(c.high)
    } else if str_eq(source, "low") {
        Some(c.low)
    } else if str_eq(source, "hlc3") {
        opt_div(
            opt_add(opt_add(Some(c.high), Some(c.low)), Some(c.close)),
            Some(Dec::new(3, 0)),
        )
    } else if str_eq(source, "ohlc4") {
        opt_div(
            opt_add(opt_add(opt_add(Some(c.open), Some(c.high)), Some(c.low)), Some(c.close)),
            Some(Dec::new(4, 0)),
        )
    } else if str_eq(source, "volume") {
        Some(c.volume)
    } else {
        Some(c.close)
    }
}

/// The fewest candles a snapshot needs for its indicators to be deterministic.
pub const MIN_SNAPSHOT_CANDLES: usize = 30;

/// A loaded snapshot is accepted only with enough candles for deterministic indicators.
pub fn check_candle_count(snapshot: &MarketSnapshot) -> (r: Result<(), String>)
    ensures
        r is Ok <==> snapshot.candles@.len() >= MIN_SNAPSHOT_CANDLES,
        r matches Err(m) ==> m@ == "market snapshot needs at least 30 candles for deterministic indicators"@,
{
    if snapshot.candles.len() >= MIN_SNAPSHOT_CANDLES {
        Ok(())
    } else {
        Err(String::from_str("market snapshot needs at least 30 candles for deterministic indicators"))
    }
}

} // verus!
