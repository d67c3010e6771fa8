use vstd::prelude::*;

verus! {

/// Largest price, in fixed-point units, that the ledger accepts.
pub const MAX_PRICE: u64 = 1_000_000_000_000;

/// Largest margin, in fixed-point units, that a strategy may commit per position.
pub const MAX_MARGIN: u64 = 1_000_000_000_000;

/// Largest leverage a strategy may use.
pub const MAX_LEVERAGE: u32 = 1000;

pub type StrategyId = u32;

/// Direction of a position or of a trading decision.
#[derive(Clone, Copy, Debug, PartialEq, Eq, Structural, Hash)]
pub enum OrderSide {
    Long,
    Short,
}

/// What one evaluation of an algorithm decided.
#[derive(Clone, Copy, Debug, PartialEq, Eq, Structural)]
pub enum AlgorithmEvalResult {
    Long,
    Short,
    Ignore,
}

/// Why an algorithm could not be built or reconfigured.
#[derive(Clone, Debug, PartialEq, Eq)]
pub enum AlgorithmError {
    InvalidParams(String),
    UnknownInterval(String),
    UnknownName(String),
}

impl AlgorithmError {
    /// A human-readable description of the error.
    pub fn message(&self) -> (r: String)
        ensures
            r@ == match self {
                AlgorithmError::InvalidParams(m) => m@,
                AlgorithmError::UnknownInterval(m) => m@,
                AlgorithmError::UnknownName(m) => m@,
            },
    {
        match self {
            AlgorithmError::InvalidParams(m) => m.clone(),
            AlgorithmError::UnknownInterval(m) => m.clone(),
            AlgorithmError::UnknownName(m) => m.clone(),
        }
    }
}

/// One OHLCV bar. Prices are fixed-point integers, times are milliseconds.
#[derive(Clone, Debug, PartialEq, Eq)]
pub struct Kline {
    pub symbol: String,
    pub interval: String,
    pub open: u64,
    pub high: u64,
    pub low: u64,
    pub close: u64,
    pub volume: u64,
    pub open_time: u64,
    pub close_time: u64,
}

impl Kline {
    /// An exact copy of the bar.
    pub fn duplicate(&self) -> (r: Kline)
        ensures
            r == *self,
    {
        Kline {
            symbol: self.symbol.clone(),
            interval: self.interval.clone(),
            open: self.open,
            high: self.high,
            low: self.low,
            close: self.close,
            volume: self.volume,
            open_time: self.open_time,
            close_time: self.close_time,
        }
    }
}

/// A trading decision emitted by a strategy.
#[derive(Clone, Debug, PartialEq, Eq)]
pub struct SignalMessage {
    pub strategy_id: StrategyId,
    pub order_side: OrderSide,
    pub symbol: String,
    pub price: u64,
    pub is_back_test: bool,
    pub timestamp: u64,
}

impl SignalMessage {
    /// An exact copy of the message.
    pub fn duplicate(&self) -> (r: SignalMessage)
        ensures
            r == *self,
    {
        SignalMessage {
            strategy_id: self.strategy_id,
            order_side: self.order_side,
            symbol: self.symbol.clone(),
            price: self.price,
            is_back_test: self.is_back_test,
            timestamp: self.timestamp,
        }
    }
}

/// Execution policy of one strategy.
#[derive(Clone, Copy, Debug, PartialEq, Eq, Structural)]
pub struct StrategySettings {
    pub max_open_orders: u32,
    pub margin_usd: u64,
    pub leverage: u32,
}

impl StrategySettings {
    /// Margin and leverage stay within the ledger's fixed-point range.
    pub open spec fn wf(&self) -> bool {
        self.margin_usd <= MAX_MARGIN && self.leverage <= MAX_LEVERAGE
    }

    /// Whether the settings stay within the ledger's fixed-point range.
    pub fn is_valid(&self) -> (r: bool)
        ensures
            r == self.wf(),
    {
        self.margin_usd <= MAX_MARGIN && self.leverage <= MAX_LEVERAGE
    }
}

/// A request to stop one strategy.
#[derive(Clone, Copy, Debug, PartialEq, Eq, Structural)]
pub struct StopStrategyParams {
    pub strategy_id: StrategyId,
}

/// A price the ledger can trade at.
pub open spec fn price_ok(p: u64) -> bool {
    0 < p && p <= MAX_PRICE
}

} // verus!
