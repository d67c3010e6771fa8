use vstd::prelude::*;
use crate::account::{
    count_long, long_count, profits_of, trade_profits, trades_of, Account, TradeTx,
};
use crate::algorithm::{fresh_for, step, AlgorithmBuilder, Algorithm, AlgorithmModel, AlgorithmName, AlgorithmParams};
use crate::metrics::{max_drawdown_of, max_profit_of, peak, profits_fit, sum_of, sums_fit, total_profit_of, trough};
use crate::types::{
    price_ok, AlgorithmError, AlgorithmEvalResult, Kline, OrderSide, SignalMessage, StrategyId, StrategySettings,
};

verus! {

/// Lifecycle of a strategy.
#[derive(Clone, Copy, Debug, PartialEq, Eq, Structural)]
pub enum StrategyState {
    Created,
    Running,
    Stopped,
}

/// Snapshot of what a strategy is.
#[derive(Clone, Debug, PartialEq, Eq)]
pub struct StrategyInfo {
    pub id: StrategyId,
    pub symbol: String,
    pub interval: String,
    pub algorithm: AlgorithmName,
    pub params: AlgorithmParams,
    pub settings: StrategySettings,
}

/// Aggregate performance over a run of trades.
#[derive(Clone, Debug, PartialEq, Eq)]
pub struct StrategyResult {
    pub symbol: String,
    pub profit: i128,
    pub long_count: usize,
    pub short_count: usize,
    pub max_profit: i128,
    pub max_drawdown: i128,
    pub period_start_price: u64,
    pub period_end_price: u64,
}

/// Final statistics of a stopped strategy.
#[derive(Clone, Debug, PartialEq, Eq)]
pub struct StrategySummary {
    pub info: StrategyInfo,
    /// `None` when the running profit leaves the `i128` range.
    pub result: Option<StrategyResult>,
}

/// Statistics over `trades` in order; `None` when a running sum of their profits
/// leaves the `i128` range.
pub open spec fn outcome(symbol: String, start: u64, end: u64, trades: Seq<TradeTx>) -> Option<StrategyResult> {
    let p = profits_of(trades);
    if !sums_fit(p) {
        None
    } else {
        Some(StrategyResult {
            symbol,
            profit: sum_of(p) as i128,
            long_count: long_count(trades) as usize,
            short_count: (trades.len() - long_count(trades)) as usize,
            max_profit: peak(p) as i128,
            max_drawdown: trough(p) as i128,
            period_start_price: start,
            period_end_price: end,
        })
    }
}

proof fn lemma_long_count_bound(trades: Seq<TradeTx>)
    ensures
        long_count(trades) <= trades.len(),
    decreases trades.len(),
{
    if trades.len() > 0 {
        lemma_long_count_bound(trades.drop_last());
    }
}

/// Computes [`outcome`] over well-formed trades.
pub fn compute_outcome(symbol: &String, start: u64, end: u64, trades: &Vec<TradeTx>) -> (r: Option<StrategyResult>)
    requires
        forall|i: int| 0 <= i < trades@.len() ==> (#[trigger] trades@[i]).wf(),
    ensures
        r == outcome(*symbol, start, end, trades@),
{
    let profits = trade_profits(trades);
    if !profits_fit(&profits) {
        return None;
    }
    let longs = count_long(trades);
    proof { lemma_long_count_bound(trades@); }
    Some(StrategyResult {
        symbol: symbol.clone(),
        profit: total_profit_of(&profits),
        long_count: longs,
        short_count: trades.len() - longs,
        max_profit: max_profit_of(&profits),
        max_drawdown: max_drawdown_of(&profits),
        period_start_price: start,
        period_end_price: end,
    })
}

/// The message a decision produces, if it is a direction.
pub open spec fn signal_of(
    id: StrategyId,
    symbol: String,
    d: AlgorithmEvalResult,
    k: Kline,
    is_back_test: bool,
) -> Option<SignalMessage> {
    match d {
        AlgorithmEvalResult::Long => Some(
            SignalMessage { strategy_id: id, order_side: OrderSide::Long, symbol, price: k.close, is_back_test, timestamp: k.close_time },
        ),
        AlgorithmEvalResult::Short => Some(
            SignalMessage { strategy_id: id, order_side: OrderSide::Short, symbol, price: k.close, is_back_test, timestamp: k.close_time },
        ),
        AlgorithmEvalResult::Ignore => None,
    }
}

/// One algorithm bound to one symbol and interval, with its execution settings.
pub struct Strategy {
    pub id: StrategyId,
    pub symbol: String,
    pub interval: String,
    pub settings: StrategySettings,
    pub algorithm: Algorithm,
    pub state: StrategyState,
}

impl Strategy {
    pub open spec fn settings_spec(&self) -> StrategySettings {
        self.settings
    }

    pub open spec fn algorithm_spec(&self) -> AlgorithmModel {
        self.algorithm@
    }

    pub open spec fn state_spec(&self) -> StrategyState {
        self.state
    }

    pub open spec fn wf(&self) -> bool {
        self.algorithm.wf() && self.settings.wf()
    }

    /// Validates everything and builds the strategy, or fails without building anything:
    /// errors of [`AlgorithmBuilder::build_algorithm`] first, then `InvalidParams` for settings outside
    /// the ledger's ranges.
    pub fn new(
        id: StrategyId,
        strategy_name: &str,
        symbol: &str,
        interval: &str,
        settings: StrategySettings,
        algorithm_params: AlgorithmParams,
    ) -> (r: Result<Strategy, AlgorithmError>)
        ensures
            match r {
                Ok(s) => {
                    &&& s.wf()
                    &&& s.id == id
                    &&& s.symbol@ == symbol@
                    &&& s.interval@ == interval@
                    &&& s.settings_spec() == settings
                    &&& s.state_spec() == StrategyState::Created
                    &&& s.algorithm_spec() == fresh_for(strategy_name@, interval@, algorithm_params)
                },
                Err(e) => build_error(e, strategy_name@, interval@, algorithm_params, settings),
            },
            (r is Ok) == (build_algorithm_succeeds(strategy_name@, interval@, algorithm_params) && settings.wf()),
    {
        let algorithm = match AlgorithmBuilder::build_algorithm(strategy_name, interval, algorithm_params) {
            Ok(a) => a,
            Err(e) => return Err(e),
        };
        if !settings.is_valid() {
            return Err(AlgorithmError::InvalidParams("margin or leverage out of range".to_string()));
        }
        Ok(Strategy {
            id,
            symbol: symbol.to_string(),
            interval: interval.to_string(),
            settings,
            algorithm,
            state: StrategyState::Created,
        })
    }

    /// The execution settings.
    pub fn settings(&self) -> (r: StrategySettings)
        ensures
            r == self.settings_spec(),
    {
        self.settings
    }

    pub fn state(&self) -> (r: StrategyState)
        ensures
            r == self.state_spec(),
    {
        self.state
    }

    /// A snapshot of what the strategy is.
    pub fn info(&self) -> (r: StrategyInfo)
        ensures
            r.id == self.id,
            r.symbol == self.symbol,
            r.interval == self.interval,
            r.algorithm == self.algorithm_spec().name,
            r.params == self.algorithm_spec().params,
            r.settings == self.settings_spec(),
    {
        StrategyInfo {
            id: self.id,
            symbol: self.symbol.clone(),
            interval: self.interval.clone(),
            algorithm: self.algorithm.name(),
            params: self.algorithm.get_params(),
            settings: self.settings,
        }
    }

    /// Marks the strategy as consuming its candle stream; only a created strategy starts.
    pub fn start(&mut self) -> (r: bool)
        ensures
            r == (old(self).state_spec() == StrategyState::Created),
            final(self).state_spec() == if r { StrategyState::Running } else { old(self).state_spec() },
            final(self).wf() == old(self).wf(),
            final(self).settings_spec() == old(self).settings_spec(),
            final(self).algorithm_spec() == old(self).algorithm_spec(),
            final(self).id == old(self).id,
            final(self).symbol == old(self).symbol,
    {
        if self.state == StrategyState::Created {
            self.state = StrategyState::Running;
            true
        } else {
            false
        }
    }

    /// Evaluates one candle and returns the signal it produces, if any.
    pub fn evaluate(&mut self, kline: Kline, is_back_test: bool) -> (r: Option<SignalMessage>)
        requires
            old(self).wf(),
        ensures
            final(self).wf(),
            final(self).algorithm_spec() == step(old(self).algorithm_spec(), kline).0,
            r == signal_of(old(self).id, old(self).symbol, step(old(self).algorithm_spec(), kline).1, kline, is_back_test),
            final(self).settings_spec() == old(self).settings_spec(),
            final(self).state_spec() == old(self).state_spec(),
            final(self).id == old(self).id,
            final(self).symbol == old(self).symbol,
    {
        let close = kline.close;
        let close_time = kline.close_time;
        let d = self.algorithm.evaluate(kline);
        match d {
            AlgorithmEvalResult::Long => Some(SignalMessage {
                strategy_id: self.id,
                order_side: OrderSide::Long,
                symbol: self.symbol.clone(),
                price: close,
                is_back_test,
                timestamp: close_time,
            }),
            AlgorithmEvalResult::Short => Some(SignalMessage {
                strategy_id: self.id,
                order_side: OrderSide::Short,
                symbol: self.symbol.clone(),
                price: close,
                is_back_test,
                timestamp: close_time,
            }),
            AlgorithmEvalResult::Ignore => None,
        }
    }

    /// Updates the algorithm's configuration (see [`Algorithm::set_params`]).
    pub fn set_algorithm_params(&mut self, params: AlgorithmParams) -> (r: Result<(), AlgorithmError>)
        requires
            old(self).wf(),
        ensures
            final(self).wf(),
            match r {
                Ok(_) => final(self).algorithm_spec() == (AlgorithmModel {
                    params: crate::algorithm::effective(old(self).algorithm_spec().name, params, old(self).algorithm_spec().params),
                    ..old(self).algorithm_spec()
                }),
                Err(e) => e is InvalidParams && final(self).algorithm_spec() == old(self).algorithm_spec(),
            },
            final(self).settings_spec() == old(self).settings_spec(),
            final(self).id == old(self).id,
    {
        self.algorithm.set_params(params)
    }

    /// The algorithm's configuration in force.
    pub fn get_algorithm_params(&self) -> (r: AlgorithmParams)
        ensures
            r == self.algorithm_spec().params,
    {
        self.algorithm.get_params()
    }

    /// Halts the strategy. When `close_positions` holds and `trigger_price` is a
    /// tradable price, every open position of the strategy is closed at it first.
    /// Returns the strategy's snapshot and statistics over all its trades.
    pub fn stop(
        &mut self,
        account: &mut Account,
        close_positions: bool,
        trigger_price: Option<u64>,
        close_time: u64,
    ) -> (r: StrategySummary)
        requires
            old(account).wf(),
        ensures
            final(account).wf(),
            final(self).state_spec() == StrategyState::Stopped,
            final(self).algorithm_spec() == old(self).algorithm_spec(),
            final(self).settings_spec() == old(self).settings_spec(),
            final(account)@ == if close_positions && trigger_price is Some && price_ok(trigger_price.unwrap()) {
                old(account)@.close_strategy(old(self).id, trigger_price.unwrap(), close_time)
            } else {
                old(account)@
            },
            r.info.id == old(self).id,
            r.info.symbol == old(self).symbol,
            r.info.interval == old(self).interval,
            r.info.algorithm == old(self).algorithm@.name,
            r.info.params == old(self).algorithm@.params,
            r.info.settings == old(self).settings,
            final(self).id == old(self).id,
            final(self).symbol == old(self).symbol,
            r.result == outcome(old(self).symbol, 0, 0, trades_of(final(account)@.trades, old(self).id)),
    {
        self.state = StrategyState::Stopped;
        if close_positions {
            if let Some(p) = trigger_price {
                if p > 0 && p <= crate::types::MAX_PRICE {
                    account.close_strategy_positions(self.id, p, close_time);
                }
            }
        }
        let trades = account.strategy_trades(self.id);
        let result = compute_outcome(&self.symbol, 0, 0, &trades);
        StrategySummary { info: self.info(), result }
    }
}

/// `e` is the error that building a strategy from these arguments reports:
/// `UnknownInterval`, else `UnknownName`, else `InvalidParams` for parameters or
/// settings out of range.
pub open spec fn build_error(
    e: AlgorithmError,
    name: Seq<char>,
    interval: Seq<char>,
    params: AlgorithmParams,
    settings: StrategySettings,
) -> bool {
    match e {
        AlgorithmError::UnknownInterval(_) => crate::interval::interval_ms(interval) is None,
        AlgorithmError::UnknownName(_) => crate::interval::interval_ms(interval) is Some
            && crate::algorithm::name_from(name) is None,
        AlgorithmError::InvalidParams(_) => crate::interval::interval_ms(interval) is Some
            && crate::algorithm::name_from(name) is Some
            && !(build_algorithm_succeeds(name, interval, params) && settings.wf()),
    }
}

/// Whether [`AlgorithmBuilder::build_algorithm`] succeeds on these arguments.
pub open spec fn build_algorithm_succeeds(name: Seq<char>, interval: Seq<char>, params: AlgorithmParams) -> bool {
    &&& crate::interval::interval_ms(interval) is Some
    &&& crate::algorithm::name_from(name) is Some
    &&& crate::algorithm::params_ok(
        crate::algorithm::name_from(name).unwrap(),
        crate::algorithm::effective(
            crate::algorithm::name_from(name).unwrap(),
            params,
            crate::algorithm::unset(),
        ),
    )
}

} // verus!
