use vstd::prelude::*;
use crate::account::{Account, AccountModel};
use crate::algorithm::{effective, fresh_for, step, AlgorithmModel, AlgorithmParams};
use crate::backtest::{backtest_spec, run_back_test};
use crate::account::{positions_of, trades_of};
use crate::signal::{apply_signal, decide, settings_for, trigger_price, SignalAction, SignalManager};
use crate::strategy::{build_algorithm_succeeds, build_error, outcome, signal_of, Strategy, StrategyInfo, StrategyResult, StrategyState, StrategySummary};
use crate::types::{AlgorithmError, Kline, SignalMessage, StrategyId, StrategySettings};

verus! {

/// Ids of the strategies, in registration order.
pub open spec fn ids_of(s: Seq<Strategy>) -> Seq<StrategyId> {
    s.map_values(|x: Strategy| x.id)
}

/// The application context: running strategies, the ledger and the single signal manager.
pub struct RaderBot {
    pub account: Account,
    pub signal_manager: SignalManager,
    pub strategies: Vec<Strategy>,
}

impl RaderBot {
    /// Every running strategy is well formed, has a distinct id and has exactly its
    /// settings registered; no other settings are registered.
    pub open spec fn wf(&self) -> bool {
        &&& self.account.wf()
        &&& self.signal_manager.wf()
        &&& forall|i: int| 0 <= i < self.strategies@.len() ==> (#[trigger] self.strategies@[i]).wf()
        &&& forall|i: int, j: int|
            0 <= i < j < self.strategies@.len() ==> self.strategies@[i].id != self.strategies@[j].id
        &&& forall|i: int| 0 <= i < self.strategies@.len() ==> self.signal_manager@.contains_key(
            (#[trigger] self.strategies@[i]).id,
        ) && self.signal_manager@[self.strategies@[i].id] == self.strategies@[i].settings
        &&& forall|id: StrategyId| #[trigger] self.signal_manager@.contains_key(id) ==> ids_of(self.strategies@).contains(id)
    }

    /// A context with no strategy and an empty ledger.
    pub fn new() -> (r: RaderBot)
        ensures
            r.wf(),
            r.strategies@.len() == 0,
            r.account@ == (AccountModel { positions: Seq::empty(), trades: Seq::empty(), next_id: 0 }),
    {
        RaderBot { account: Account::new(), signal_manager: SignalManager::new(), strategies: Vec::new() }
    }

    fn find(&self, strategy_id: StrategyId) -> (r: Option<usize>)
        ensures
            match r {
                Some(i) => i < self.strategies@.len() && self.strategies@[i as int].id == strategy_id,
                None => !ids_of(self.strategies@).contains(strategy_id),
            },
    {
        let mut i: usize = 0;
        while i < self.strategies.len()
            invariant
                i <= self.strategies.len(),
                forall|j: int| 0 <= j < i ==> self.strategies@[j].id != strategy_id,
            decreases self.strategies.len() - i,
        {
            if self.strategies[i].id == strategy_id {
                return Some(i);
            }
            i = i + 1;
        }
        proof {
            if ids_of(self.strategies@).contains(strategy_id) {
                let k = choose|k: int| 0 <= k < ids_of(self.strategies@).len() && ids_of(self.strategies@)[k] == strategy_id;
                assert(self.strategies@[k].id == strategy_id);
            }
        }
        None
    }

    /// Builds and registers a strategy under `strategy_id` and starts it. All or
    /// nothing: on any error the context is left as it was. A failed build reports
    /// the build's own error; a build that succeeds for an id already running
    /// reports `InvalidParams`.
    pub fn start_strategy(
        &mut self,
        strategy_id: StrategyId,
        strategy_name: &str,
        symbol: &str,
        interval: &str,
        settings: StrategySettings,
        algorithm_params: AlgorithmParams,
    ) -> (r: Result<StrategyInfo, AlgorithmError>)
        requires
            old(self).wf(),
        ensures
            final(self).wf(),
            final(self).account == old(self).account,
            (r is Ok) == (!ids_of(old(self).strategies@).contains(strategy_id)
                && build_algorithm_succeeds(strategy_name@, interval@, algorithm_params) && settings.wf()),
            match r {
                Ok(info) => {
                    &&& info.id == strategy_id
                    &&& final(self).strategies@.len() == old(self).strategies@.len() + 1
                    &&& final(self).strategies@.drop_last() == old(self).strategies@
                    &&& final(self).strategies@.last().id == strategy_id
                    &&& final(self).strategies@.last().symbol@ == symbol@
                    &&& final(self).strategies@.last().state == StrategyState::Running
                    &&& final(self).strategies@.last().settings == settings
                    &&& final(self).strategies@.last().algorithm@ == fresh_for(strategy_name@, interval@, algorithm_params)
                    &&& final(self).signal_manager@ == old(self).signal_manager@.insert(strategy_id, settings)
                },
                Err(e) => {
                    &&& final(self).strategies@ == old(self).strategies@
                    &&& final(self).signal_manager@ == old(self).signal_manager@
                    &&& (build_error(e, strategy_name@, interval@, algorithm_params, settings) || (
                        build_algorithm_succeeds(strategy_name@, interval@, algorithm_params)
                        && settings.wf()
                        && ids_of(old(self).strategies@).contains(strategy_id)
                        && e is InvalidParams))
                },
            },
    {
        let mut strategy = match Strategy::new(strategy_id, strategy_name, symbol, interval, settings, algorithm_params) {
            Ok(s) => s,
            Err(e) => return Err(e),
        };
        if self.find(strategy_id).is_some() {
            return Err(AlgorithmError::InvalidParams("strategy id already in use".to_string()));
        }
        strategy.start();
        let info = strategy.info();
        let ghost before = self.strategies@;
        self.signal_manager.add_strategy_settings(strategy_id, settings);
        self.strategies.push(strategy);
        proof {
            let s = self.strategies@;
            assert(s.drop_last() == before);
            assert forall|i: int| 0 <= i < s.len() implies (#[trigger] s[i]).wf() by {
                if i < before.len() {
                    assert(s[i] == before[i]);
                }
            }
            assert forall|i: int, j: int| 0 <= i < j < s.len() implies s[i].id != s[j].id by {
                if j < before.len() {
                    assert(s[i] == before[i] && s[j] == before[j]);
                } else {
                    assert(s[i] == before[i]);
                    assert(ids_of(before)[i] == before[i].id);
                }
            }
            assert forall|i: int| 0 <= i < s.len() implies self.signal_manager@.contains_key((#[trigger] s[i]).id)
                && self.signal_manager@[s[i].id] == s[i].settings by {
                if i < before.len() {
                    assert(s[i] == before[i]);
                    assert(ids_of(before)[i] == before[i].id);
                }
            }
            assert forall|id: StrategyId| #[trigger] self.signal_manager@.contains_key(id) implies ids_of(s).contains(id) by {
                if id == strategy_id {
                    assert(ids_of(s)[s.len() - 1] == strategy_id);
                } else {
                    assert(old(self).signal_manager@.contains_key(id));
                    let k = choose|k: int| 0 <= k < ids_of(before).len() && ids_of(before)[k] == id;
                    assert(ids_of(s)[k] == id);
                }
            }
        }
        Ok(info)
    }

    /// Stops and unregisters a running strategy; see [`Strategy::stop`]. `None`, with
    /// nothing changed, when no strategy runs under that id.
    pub fn stop_strategy(
        &mut self,
        strategy_id: StrategyId,
        close_positions: bool,
        trigger_price: Option<u64>,
        close_time: u64,
    ) -> (r: Option<StrategySummary>)
        requires
            old(self).wf(),
        ensures
            final(self).wf(),
            (r is Some) == ids_of(old(self).strategies@).contains(strategy_id),
            r is None ==> final(self).account@ == old(self).account@ && final(self).strategies@ == old(self).strategies@,
            r is Some ==> exists|i: int| 0 <= i < old(self).strategies@.len() && {
                let s = #[trigger] old(self).strategies@[i];
                &&& s.id == strategy_id
                &&& final(self).strategies@ == old(self).strategies@.remove(i)
                &&& r.unwrap().info.id == strategy_id
                &&& r.unwrap().info.symbol == s.symbol
                &&& r.unwrap().info.interval == s.interval
                &&& r.unwrap().info.algorithm == s.algorithm@.name
                &&& r.unwrap().info.params == s.algorithm@.params
                &&& r.unwrap().info.settings == s.settings
                &&& r.unwrap().result == outcome(s.symbol, 0, 0, trades_of(final(self).account@.trades, strategy_id))
            },
            r is Some ==> {
                &&& !ids_of(final(self).strategies@).contains(strategy_id)
                &&& final(self).strategies@.len() + 1 == old(self).strategies@.len()
                &&& final(self).signal_manager@ == old(self).signal_manager@.remove(strategy_id)
                &&& final(self).account@ == if close_positions && trigger_price is Some && crate::types::price_ok(trigger_price.unwrap()) {
                    old(self).account@.close_strategy(strategy_id, trigger_price.unwrap(), close_time)
                } else {
                    old(self).account@
                }
            },
    {
        let i = match self.find(strategy_id) {
            Some(i) => i,
            None => return None,
        };
        let ghost before = self.strategies@;
        let mut strategy = self.strategies.remove(i);
        let summary = strategy.stop(&mut self.account, close_positions, trigger_price, close_time);
        self.signal_manager.remove_strategy_settings(strategy_id);
        proof {
            let s = self.strategies@;
            assert(s == before.remove(i as int));
            assert forall|k: int| 0 <= k < s.len() implies (#[trigger] s[k]).wf() && s[k].id != strategy_id
                && self.signal_manager@.contains_key(s[k].id) && self.signal_manager@[s[k].id] == s[k].settings by {
                if k < i {
                    assert(s[k] == before[k]);
                    assert(ids_of(before)[k] == before[k].id);
                } else {
                    assert(s[k] == before[k + 1]);
                    assert(ids_of(before)[k + 1] == before[k + 1].id);
                }
            }
            assert forall|a: int, b: int| 0 <= a < b < s.len() implies s[a].id != s[b].id by {
                let a2 = if a < i { a } else { a + 1 };
                let b2 = if b < i { b } else { b + 1 };
                assert(s[a] == before[a2] && s[b] == before[b2]);
            }
            assert forall|id: StrategyId| #[trigger] self.signal_manager@.contains_key(id) implies ids_of(s).contains(id) by {
                assert(old(self).signal_manager@.contains_key(id));
                let k = choose|k: int| 0 <= k < ids_of(before).len() && ids_of(before)[k] == id;
                assert(k != i);
                if k < i {
                    assert(ids_of(s)[k] == id);
                } else {
                    assert(ids_of(s)[k - 1] == id);
                }
            }
            if ids_of(s).contains(strategy_id) {
                let k = choose|k: int| 0 <= k < ids_of(s).len() && ids_of(s)[k] == strategy_id;
                assert(s[k].id == strategy_id);
            }
            let k = i as int;
            assert(before[k].id == strategy_id && self.strategies@ == before.remove(k));
        }
        Some(summary)
    }

    /// Ids of the running strategies, in registration order.
    pub fn get_active_strategy_ids(&self) -> (r: Vec<StrategyId>)
        ensures
            r@ == ids_of(self.strategies@),
    {
        let mut r: Vec<StrategyId> = Vec::new();
        let mut i: usize = 0;
        while i < self.strategies.len()
            invariant
                i <= self.strategies.len(),
                r@ == ids_of(self.strategies@.take(i as int)),
            decreases self.strategies.len() - i,
        {
            proof {
                assert(ids_of(self.strategies@.take(i + 1)) =~= ids_of(self.strategies@.take(i as int)).push(self.strategies@[i as int].id));
            }
            r.push(self.strategies[i].id);
            i = i + 1;
        }
        proof {
            assert(self.strategies@.take(self.strategies@.len() as int) =~= self.strategies@);
        }
        r
    }

    /// Snapshot of a running strategy.
    pub fn get_strategy(&self, strategy_id: StrategyId) -> (r: Option<StrategyInfo>)
        ensures
            (r is Some) == ids_of(self.strategies@).contains(strategy_id),
            r is Some ==> exists|i: int| 0 <= i < self.strategies@.len() && {
                let s = #[trigger] self.strategies@[i];
                &&& s.id == strategy_id
                &&& r.unwrap().id == strategy_id
                &&& r.unwrap().symbol == s.symbol
                &&& r.unwrap().interval == s.interval
                &&& r.unwrap().algorithm == s.algorithm@.name
                &&& r.unwrap().params == s.algorithm@.params
                &&& r.unwrap().settings == s.settings
            },
    {
        match self.find(strategy_id) {
            Some(i) => {
                assert(ids_of(self.strategies@)[i as int] == strategy_id);
                let info = self.strategies[i].info();
                assert(self.strategies@[i as int].id == strategy_id);
                Some(info)
            },
            None => None,
        }
    }

    /// Evaluates one live candle for a running strategy and returns its signal, if any.
    pub fn evaluate_candle(&mut self, strategy_id: StrategyId, kline: Kline) -> (r: Option<SignalMessage>)
        requires
            old(self).wf(),
        ensures
            final(self).wf(),
            final(self).account == old(self).account,
            final(self).signal_manager == old(self).signal_manager,
            ids_of(final(self).strategies@) == ids_of(old(self).strategies@),
            !ids_of(old(self).strategies@).contains(strategy_id) ==> r is None && final(self).strategies@ == old(self).strategies@,
            ids_of(old(self).strategies@).contains(strategy_id) ==> exists|i: int| 0 <= i < old(self).strategies@.len() && {
                let s = #[trigger] old(self).strategies@[i];
                let t = final(self).strategies@[i];
                &&& s.id == strategy_id
                &&& final(self).strategies@ == old(self).strategies@.update(i, t)
                &&& t.algorithm@ == step(s.algorithm@, kline).0
                &&& t.symbol == s.symbol
                &&& t.state == s.state
                &&& r == signal_of(strategy_id, s.symbol, step(s.algorithm@, kline).1, kline, false)
            },
    {
        let i = match self.find(strategy_id) {
            Some(i) => i,
            None => return None,
        };
        let ghost before = self.strategies@;
        assert(ids_of(before)[i as int] == strategy_id);
        let mut strategy = self.strategies.remove(i);
        let r = strategy.evaluate(kline, false);
        self.strategies.insert(i, strategy);
        assert(self.strategies@ =~= before.update(i as int, self.strategies@[i as int]));
        proof {
            self.lemma_replaced(before, i as int);
            let k = i as int;
            let t = self.strategies@[k];
            assert(before[k].id == strategy_id && self.strategies@ == before.update(k, t));
        }
        r
    }

    /// Updates the algorithm configuration of a running strategy; `None` when no
    /// strategy runs under that id.
    pub fn set_strategy_params(&mut self, strategy_id: StrategyId, params: AlgorithmParams) -> (r: Option<Result<AlgorithmParams, AlgorithmError>>)
        requires
            old(self).wf(),
        ensures
            final(self).wf(),
            final(self).account == old(self).account,
            final(self).signal_manager == old(self).signal_manager,
            ids_of(final(self).strategies@) == ids_of(old(self).strategies@),
            (r is Some) == ids_of(old(self).strategies@).contains(strategy_id),
            r is None ==> final(self).strategies@ == old(self).strategies@,
            r is Some ==> exists|i: int| 0 <= i < old(self).strategies@.len() && {
                let s = #[trigger] old(self).strategies@[i];
                let t = final(self).strategies@[i];
                let p = effective(s.algorithm@.name, params, s.algorithm@.params);
                &&& s.id == strategy_id
                &&& final(self).strategies@ == old(self).strategies@.update(i, t)
                &&& match r.unwrap() {
                    Ok(q) => q == p && t.algorithm@ == (AlgorithmModel { params: p, ..s.algorithm@ }),
                    Err(e) => e is InvalidParams && t.algorithm@ == s.algorithm@,
                }
            },
    {
        let i = match self.find(strategy_id) {
            Some(i) => i,
            None => return None,
        };
        let ghost before = self.strategies@;
        assert(ids_of(before)[i as int] == strategy_id);
        let mut strategy = self.strategies.remove(i);
        let r = match strategy.set_algorithm_params(params) {
            Ok(_) => Ok(strategy.get_algorithm_params()),
            Err(e) => Err(e),
        };
        self.strategies.insert(i, strategy);
        assert(self.strategies@ =~= before.update(i as int, self.strategies@[i as int]));
        proof {
            self.lemma_replaced(before, i as int);
            let k = i as int;
            let t = self.strategies@[k];
            assert(before[k].id == strategy_id && self.strategies@ == before.update(k, t));
        }
        Some(r)
    }

    /// Routes a signal to the single signal manager; see [`SignalManager::handle_signal`].
    pub fn handle_signal(&mut self, signal: &SignalMessage, live_price: Option<u64>) -> (r: SignalAction)
        requires
            old(self).wf(),
            old(self).account@.next_id < u64::MAX,
        ensures
            final(self).wf(),
            final(self).strategies == old(self).strategies,
            final(self).signal_manager == old(self).signal_manager,
            final(self).account@ == apply_signal(old(self).account@, settings_for(old(self).signal_manager@, signal.strategy_id), *signal, live_price),
            r == decide(
                positions_of(old(self).account@.positions, signal.strategy_id),
                signal.order_side,
                settings_for(old(self).signal_manager@, signal.strategy_id),
                trigger_price(*signal, live_price),
            ),
    {
        self.signal_manager.handle_signal(&mut self.account, signal, live_price)
    }

    /// Runs an isolated backtest of a strategy built from these arguments over
    /// `klines`; nothing of this context is touched.
    pub fn run_back_test(
        &self,
        strategy_name: &str,
        symbol: &str,
        interval: &str,
        settings: StrategySettings,
        algorithm_params: AlgorithmParams,
        klines: &Vec<Kline>,
    ) -> (r: Result<Option<StrategyResult>, AlgorithmError>)
        ensures
            (r is Ok) == (build_algorithm_succeeds(strategy_name@, interval@, algorithm_params) && settings.wf()),
            match r {
                Ok(res) => exists|sym: String| sym@ == symbol@ && res == backtest_spec(
                    fresh_for(strategy_name@, interval@, algorithm_params),
                    0,
                    sym,
                    settings,
                    klines@,
                ),
                Err(e) => build_error(e, strategy_name@, interval@, algorithm_params, settings),
            },
    {
        let strategy = match Strategy::new(0, strategy_name, symbol, interval, settings, algorithm_params) {
            Ok(s) => s,
            Err(e) => return Err(e),
        };
        let ghost sym = strategy.symbol;
        let res = run_back_test(strategy, klines);
        assert(sym@ == symbol@ && res == backtest_spec(fresh_for(strategy_name@, interval@, algorithm_params), 0, sym, settings, klines@));
        Ok(res)
    }

    /// Putting back a strategy with the same id and settings keeps the context well formed.
    proof fn lemma_replaced(&self, before: Seq<Strategy>, i: int)
        requires
            0 <= i < before.len(),
            self.strategies@ == before.update(i, self.strategies@[i]),
            self.strategies@[i].id == before[i].id,
            self.strategies@[i].settings == before[i].settings,
            self.strategies@[i].wf(),
            self.account.wf(),
            self.signal_manager.wf(),
            forall|k: int| 0 <= k < before.len() ==> (#[trigger] before[k]).wf(),
            forall|a: int, b: int| 0 <= a < b < before.len() ==> before[a].id != before[b].id,
            forall|k: int| 0 <= k < before.len() ==> self.signal_manager@.contains_key((#[trigger] before[k]).id)
                && self.signal_manager@[before[k].id] == before[k].settings,
            forall|id: StrategyId| #[trigger] self.signal_manager@.contains_key(id) ==> ids_of(before).contains(id),
        ensures
            self.wf(),
            ids_of(self.strategies@) == ids_of(before),
    {
        let s = self.strategies@;
        assert(ids_of(s) =~= ids_of(before));
        assert forall|k: int| 0 <= k < s.len() implies (#[trigger] s[k]).wf()
            && self.signal_manager@.contains_key(s[k].id) && self.signal_manager@[s[k].id] == s[k].settings by {
            if k != i {
                assert(s[k] == before[k]);
            }
        }
        assert forall|a: int, b: int| 0 <= a < b < s.len() implies s[a].id != s[b].id by {
            assert(ids_of(s)[a] == ids_of(before)[a]);
            assert(ids_of(s)[b] == ids_of(before)[b]);
        }
    }
}

} // verus!
