use vstd::prelude::*;
use crate::account::{Account, AccountModel, TradeTx};
use crate::algorithm::{lemma_deterministic, run, same_state, step, AlgorithmModel};
use crate::metrics::{max_drawdown_of, max_profit_of, peak, sums_fit, trough};
use crate::account::{profits_of, trade_profits};
use crate::signal::{apply_signal, settings_for, SignalManager};
use crate::strategy::{compute_outcome, outcome, signal_of, Strategy, StrategyResult};
use crate::types::{price_ok, Kline, SignalMessage, StrategyId, StrategySettings};

verus! {

/// Signals that evaluating `ks` in order from algorithm state `m` emits, marked as replays.
pub open spec fn emitted(id: StrategyId, symbol: String, m: AlgorithmModel, ks: Seq<Kline>) -> Seq<SignalMessage>
    decreases ks.len(),
{
    if ks.len() == 0 {
        Seq::empty()
    } else {
        let prev = emitted(id, symbol, m, ks.drop_last());
        let before = run(m, ks.drop_last()).0;
        match signal_of(id, symbol, step(before, ks.last()).1, ks.last(), true) {
            Some(s) => prev.push(s),
            None => prev,
        }
    }
}

/// The ledger after handling `sigs` in order, replayed at their own prices.
pub open spec fn replay(a: AccountModel, sm: Map<StrategyId, StrategySettings>, sigs: Seq<SignalMessage>) -> AccountModel
    decreases sigs.len(),
{
    if sigs.len() == 0 {
        a
    } else {
        let prev = replay(a, sm, sigs.drop_last());
        apply_signal(prev, settings_for(sm, sigs.last().strategy_id), sigs.last(), None)
    }
}

pub open spec fn empty_account() -> AccountModel {
    AccountModel { positions: Seq::empty(), trades: Seq::empty(), next_id: 0 }
}

/// Force-closes what is still open of strategy `sid` at the final price, when it is tradable.
pub open spec fn finish(a: AccountModel, sid: StrategyId, price: u64, time: u64) -> AccountModel {
    if price_ok(price) {
        a.close_strategy(sid, price, time)
    } else {
        a
    }
}

/// The statistics a backtest reports: its signals replayed into an empty ledger,
/// what stays open force-closed at the final close, and the trades summarized.
pub open spec fn backtest_outcome(
    id: StrategyId,
    symbol: String,
    sm: Map<StrategyId, StrategySettings>,
    signals: Seq<SignalMessage>,
    start: u64,
    end: u64,
    end_time: u64,
) -> Option<StrategyResult> {
    outcome(symbol, start, end, finish(replay(empty_account(), sm, signals), id, end, end_time).trades)
}

/// The whole replay of candles `ks` by a strategy in algorithm state `m`.
pub open spec fn backtest_spec(
    m: AlgorithmModel,
    id: StrategyId,
    symbol: String,
    settings: StrategySettings,
    ks: Seq<Kline>,
) -> Option<StrategyResult> {
    let start = if ks.len() > 0 { ks[0].open } else { 0 };
    let end = if ks.len() > 0 { ks.last().close } else { 0 };
    let end_time = if ks.len() > 0 { ks.last().close_time } else { 0 };
    backtest_outcome(id, symbol, map![id => settings], emitted(id, symbol, m, ks), start, end, end_time)
}

/// Replays a historical candle range through the same evaluate / handle-signal
/// pipeline as live operation, against a ledger of its own.
pub struct BackTest {
    pub strategy: Strategy,
    pub signals: Vec<SignalMessage>,
    pub signal_manager: SignalManager,
    pub period_start_price: u64,
    pub period_end_price: u64,
    pub period_end_time: u64,
}

impl BackTest {
    /// A backtest of `strategy`, with its settings registered in a manager of its own.
    pub fn new(strategy: Strategy) -> (r: BackTest)
        requires
            strategy.wf(),
        ensures
            r.strategy == strategy,
            r.signals@.len() == 0,
            r.signal_manager@ == map![strategy.id => strategy.settings],
            r.signal_manager.wf(),
            r.period_start_price == 0,
            r.period_end_price == 0,
            r.period_end_time == 0,
    {
        let mut signal_manager = SignalManager::new();
        signal_manager.add_strategy_settings(strategy.id, strategy.settings);
        proof {
            assert(signal_manager@ =~= map![strategy.id => strategy.settings]);
        }
        BackTest { strategy, signals: Vec::new(), signal_manager, period_start_price: 0, period_end_price: 0, period_end_time: 0 }
    }

    /// Evaluates the candles in chronological order and records every signal.
    pub fn run(&mut self, klines: &Vec<Kline>)
        requires
            old(self).strategy.wf(),
        ensures
            final(self).strategy.wf(),
            final(self).strategy.algorithm@ == run(old(self).strategy.algorithm@, klines@).0,
            final(self).signals@ == old(self).signals@ + emitted(old(self).strategy.id, old(self).strategy.symbol, old(self).strategy.algorithm@, klines@),
            final(self).strategy.id == old(self).strategy.id,
            final(self).strategy.symbol == old(self).strategy.symbol,
            final(self).strategy.settings == old(self).strategy.settings,
            final(self).signal_manager == old(self).signal_manager,
            klines@.len() > 0 ==> {
                &&& final(self).period_start_price == klines@[0].open
                &&& final(self).period_end_price == klines@.last().close
                &&& final(self).period_end_time == klines@.last().close_time
            },
            klines@.len() == 0 ==> {
                &&& final(self).period_start_price == old(self).period_start_price
                &&& final(self).period_end_price == old(self).period_end_price
                &&& final(self).period_end_time == old(self).period_end_time
            },
    {
        let n = klines.len();
        if n > 0 {
            self.period_start_price = klines[0].open;
            self.period_end_price = klines[n - 1].close;
            self.period_end_time = klines[n - 1].close_time;
        }
        let ghost m0 = self.strategy.algorithm@;
        let ghost s0 = self.signals@;
        let ghost id = self.strategy.id;
        let ghost symbol = self.strategy.symbol;
        let mut i: usize = 0;
        while i < n
            invariant
                n == klines.len(),
                i <= n,
                self.strategy.wf(),
                self.strategy.id == id,
                self.strategy.symbol == symbol,
                self.strategy.settings == old(self).strategy.settings,
                self.signal_manager == old(self).signal_manager,
                id == old(self).strategy.id,
                symbol == old(self).strategy.symbol,
                m0 == old(self).strategy.algorithm@,
                s0 == old(self).signals@,
                self.strategy.algorithm@ == run(m0, klines@.take(i as int)).0,
                self.signals@ == s0 + emitted(id, symbol, m0, klines@.take(i as int)),
                n > 0 ==> {
                    &&& self.period_start_price == klines@[0].open
                    &&& self.period_end_price == klines@.last().close
                    &&& self.period_end_time == klines@.last().close_time
                },
                n == 0 ==> {
                    &&& self.period_start_price == old(self).period_start_price
                    &&& self.period_end_price == old(self).period_end_price
                    &&& self.period_end_time == old(self).period_end_time
                },
            decreases n - i,
        {
            proof {
                assert(klines@.take(i + 1).drop_last() =~= klines@.take(i as int));
                assert(klines@.take(i + 1).last() == klines@[i as int]);
            }
            let k = klines[i].duplicate();
            match self.strategy.evaluate(k, true) {
                Some(signal) => {
                    self.add_signal(signal);
                    proof {
                        assert(self.signals@ =~= s0 + emitted(id, symbol, m0, klines@.take(i + 1)));
                    }
                },
                None => {},
            }
            i = i + 1;
        }
        proof {
            assert(klines@.take(n as int) =~= klines@);
        }
    }

    /// Records one signal for replay.
    pub fn add_signal(&mut self, signal: SignalMessage)
        ensures
            final(self).signals@ == old(self).signals@.push(signal),
            final(self).strategy == old(self).strategy,
            final(self).signal_manager == old(self).signal_manager,
            final(self).period_start_price == old(self).period_start_price,
            final(self).period_end_price == old(self).period_end_price,
            final(self).period_end_time == old(self).period_end_time,
    {
        self.signals.push(signal);
    }

    /// Highest running cumulative profit over `trades`, from a zero baseline.
    pub fn calc_max_profit(&self, trades: &Vec<TradeTx>) -> (r: i128)
        requires
            forall|i: int| 0 <= i < trades@.len() ==> (#[trigger] trades@[i]).wf(),
            sums_fit(profits_of(trades@)),
        ensures
            r as int == peak(profits_of(trades@)),
    {
        let profits = trade_profits(trades);
        max_profit_of(&profits)
    }

    /// Lowest running cumulative profit over `trades`, from a zero baseline.
    pub fn calc_max_drawdown(&self, trades: &Vec<TradeTx>) -> (r: i128)
        requires
            forall|i: int| 0 <= i < trades@.len() ==> (#[trigger] trades@[i]).wf(),
            sums_fit(profits_of(trades@)),
        ensures
            r as int == trough(profits_of(trades@)),
    {
        let profits = trade_profits(trades);
        max_drawdown_of(&profits)
    }

    /// Replays the recorded signals in order into a fresh ledger, force-closes what
    /// is still open at the final close price, and summarizes the trades; `None`
    /// when a running sum of profits leaves the `i128` range.
    pub fn result(&self) -> (r: Option<StrategyResult>)
        requires
            self.signal_manager.wf(),
        ensures
            r == backtest_outcome(
                self.strategy.id,
                self.strategy.symbol,
                self.signal_manager@,
                self.signals@,
                self.period_start_price,
                self.period_end_price,
                self.period_end_time,
            ),
    {
        let mut account = Account::new();
        let mut i: usize = 0;
        proof {
            assert(self.signals@.take(0) =~= Seq::<SignalMessage>::empty());
        }
        while i < self.signals.len()
            invariant
                self.signal_manager.wf(),
                i <= self.signals.len(),
                account.wf(),
                account@.next_id <= i,
                account@ == replay(empty_account(), self.signal_manager@, self.signals@.take(i as int)),
            decreases self.signals.len() - i,
        {
            proof {
                assert(self.signals@.take(i + 1).drop_last() =~= self.signals@.take(i as int));
            }
            self.signal_manager.handle_signal(&mut account, &self.signals[i], None);
            i = i + 1;
        }
        proof {
            assert(self.signals@.take(self.signals@.len() as int) =~= self.signals@);
        }
        let end = self.period_end_price;
        if end > 0 && end <= crate::types::MAX_PRICE {
            account.close_strategy_positions(self.strategy.id, end, self.period_end_time);
        }
        let trades = account.trades();
        compute_outcome(&self.strategy.symbol, self.period_start_price, end, &trades)
    }
}

/// Runs a complete backtest of `strategy` over `klines`.
pub fn run_back_test(strategy: Strategy, klines: &Vec<Kline>) -> (r: Option<StrategyResult>)
    requires
        strategy.wf(),
    ensures
        r == backtest_spec(strategy.algorithm@, strategy.id, strategy.symbol, strategy.settings, klines@),
{
    let mut bt = BackTest::new(strategy);
    bt.run(klines);
    proof {
        assert(bt.signals@ =~= emitted(bt.strategy.id, bt.strategy.symbol, strategy.algorithm@, klines@));
    }
    bt.result()
}


proof fn lemma_emitted_same(id: StrategyId, symbol: String, m1: AlgorithmModel, m2: AlgorithmModel, ks: Seq<Kline>)
    requires
        same_state(m1, m2),
    ensures
        emitted(id, symbol, m1, ks) == emitted(id, symbol, m2, ks),
    decreases ks.len(),
{
    if ks.len() > 0 {
        lemma_emitted_same(id, symbol, m1, m2, ks.drop_last());
        lemma_deterministic(m1, m2, ks.drop_last());
    }
}

/// Backtest determinism: two backtests over the same candles, with the same
/// strategy id, symbol and settings and algorithms in the same state, report
/// identical results, field for field.
pub proof fn lemma_backtest_deterministic(
    m1: AlgorithmModel,
    m2: AlgorithmModel,
    id: StrategyId,
    symbol: String,
    settings: StrategySettings,
    ks: Seq<Kline>,
)
    requires
        same_state(m1, m2),
    ensures
        backtest_spec(m1, id, symbol, settings, ks) == backtest_spec(m2, id, symbol, settings, ks),
{
    lemma_emitted_same(id, symbol, m1, m2, ks);
}

} // verus!
