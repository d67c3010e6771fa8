use raderbot::account::Account;
use raderbot::algorithm::AlgorithmParams;
use raderbot::backtest::{run_back_test, BackTest};
use raderbot::strategy::{Strategy, StrategyState};
use raderbot::types::{AlgorithmError, Kline, OrderSide, StrategySettings};

fn bar(close: u64, t: u64) -> Kline {
    Kline {
        symbol: "BTC-USDT".to_string(),
        interval: "1m".to_string(),
        open: close,
        high: close,
        low: close,
        close,
        volume: 1,
        open_time: t * 60_000,
        close_time: t * 60_000 + 59_999,
    }
}

fn settings() -> StrategySettings {
    StrategySettings { max_open_orders: 2, margin_usd: 100_000, leverage: 10 }
}

fn sma_strategy(id: u32) -> Strategy {
    let params = AlgorithmParams { sma_period: Some(2), ..AlgorithmParams::default() };
    match Strategy::new(id, "SimpleMovingAverage", "BTC-USDT", "1m", settings(), params) {
        Ok(s) => s,
        Err(e) => panic!("{}", e.message()),
    }
}

fn bars() -> Vec<Kline> {
    [100u64, 110, 120, 100, 90].iter().enumerate().map(|(i, c)| bar(*c, i as u64)).collect()
}

#[test]
fn backtest_scenario_statistics() {
    let mut bt = BackTest::new(sma_strategy(9));
    bt.run(&bars());
    assert_eq!(bt.signals.len(), 4);
    assert_eq!(bt.signals[0].order_side, OrderSide::Long);
    assert_eq!(bt.signals[0].price, 110);
    assert!(bt.signals.iter().all(|s| s.is_back_test && s.strategy_id == 9));
    assert_eq!(bt.signals[2].order_side, OrderSide::Short);
    let r = bt.result().unwrap();
    assert_eq!(r.symbol, "BTC-USDT");
    assert_eq!(r.long_count, 2);
    assert_eq!(r.short_count, 1);
    assert_eq!(r.profit, -90_909 - 166_666);
    assert_eq!(r.max_profit, 0);
    assert_eq!(r.max_drawdown, -257_575);
    assert_eq!(r.period_start_price, 100);
    assert_eq!(r.period_end_price, 90);
}

#[test]
fn backtest_twice_gives_identical_results() {
    let candles = bars();
    let a = run_back_test(sma_strategy(1), &candles);
    let b = run_back_test(sma_strategy(1), &candles);
    assert_eq!(a, b);
    let mut bt = BackTest::new(sma_strategy(1));
    bt.run(&candles);
    assert_eq!(bt.result(), bt.result());
    assert_eq!(bt.result(), a);
}

#[test]
fn backtest_force_closes_at_final_close() {
    let candles: Vec<Kline> = [100u64, 110, 120].iter().enumerate().map(|(i, c)| bar(*c, i as u64)).collect();
    let r = run_back_test(sma_strategy(2), &candles).unwrap();
    assert_eq!(r.long_count, 2);
    assert_eq!(r.short_count, 0);
    // 10^12 / 110 = 9_090_909_090 units at 110, closed at 120; 10^12 / 120 opened and closed at 120.
    assert_eq!(r.profit, 90_909);
    assert_eq!(r.max_profit, 90_909);
    assert_eq!(r.max_drawdown, 0);
}

#[test]
fn backtest_of_no_candles_is_empty() {
    let r = run_back_test(sma_strategy(3), &vec![]).unwrap();
    assert_eq!(r.profit, 0);
    assert_eq!(r.long_count + r.short_count, 0);
}

#[test]
fn backtest_metric_methods_match_result() {
    let mut account = Account::new();
    let p = account.open_position(1, &"X".to_string(), 100, 1, OrderSide::Long, None, 20, 0);
    account.close_position(p.id, 5, 1);
    let q = account.open_position(1, &"X".to_string(), 100, 1, OrderSide::Long, None, 10, 0);
    account.close_position(q.id, 20, 1);
    let trades = account.trades();
    assert_eq!(trades[0].calc_profit(), -75);
    assert_eq!(trades[1].calc_profit(), 100);
    let bt = BackTest::new(sma_strategy(4));
    assert_eq!(bt.calc_max_profit(&trades), 25);
    assert_eq!(bt.calc_max_drawdown(&trades), -75);
}

#[test]
fn strategy_rejects_bad_settings_and_names() {
    let p = AlgorithmParams { sma_period: Some(2), ..AlgorithmParams::default() };
    let bad = StrategySettings { max_open_orders: 2, margin_usd: 100, leverage: 5000 };
    assert!(matches!(Strategy::new(1, "SimpleMovingAverage", "X", "1m", bad, p), Err(AlgorithmError::InvalidParams(_))));
    assert!(matches!(Strategy::new(1, "Unknown", "X", "1m", settings(), p), Err(AlgorithmError::UnknownName(_))));
    assert!(matches!(Strategy::new(1, "SimpleMovingAverage", "X", "1q", settings(), p), Err(AlgorithmError::UnknownInterval(_))));
}

#[test]
fn strategy_lifecycle_and_signals() {
    let mut s = sma_strategy(5);
    assert_eq!(s.state(), StrategyState::Created);
    assert!(s.start());
    assert!(!s.start());
    assert_eq!(s.state(), StrategyState::Running);
    assert!(s.evaluate(bar(100, 0), false).is_none());
    let sig = s.evaluate(bar(110, 1), false).unwrap();
    assert_eq!(sig.order_side, OrderSide::Long);
    assert_eq!(sig.price, 110);
    assert_eq!(sig.timestamp, 60_000 + 59_999);
    assert!(!sig.is_back_test);
    let info = s.info();
    assert_eq!(info.id, 5);
    assert_eq!(info.interval, "1m");
    assert_eq!(info.settings, settings());
    let mut account = Account::new();
    account.open_position(5, &"BTC-USDT".to_string(), 100_000, 10, OrderSide::Long, None, 100, 0);
    let summary = s.stop(&mut account, true, Some(110), 9);
    assert_eq!(s.state(), StrategyState::Stopped);
    assert!(account.positions().is_empty());
    let result = summary.result.unwrap();
    assert_eq!(result.long_count, 1);
    assert_eq!(result.profit, 100_000);
    assert_eq!(summary.info.id, 5);
}

#[test]
fn strategy_params_proxy() {
    let mut s = sma_strategy(6);
    let update = AlgorithmParams { sma_period: Some(5), ..AlgorithmParams::default() };
    assert!(s.set_algorithm_params(update).is_ok());
    assert_eq!(s.get_algorithm_params().sma_period, Some(5));
    let bad = AlgorithmParams { sma_period: Some(0), ..AlgorithmParams::default() };
    assert!(s.set_algorithm_params(bad).is_err());
    assert_eq!(s.get_algorithm_params().sma_period, Some(5));
}
