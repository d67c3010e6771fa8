use raderbot::algorithm::AlgorithmParams;
use raderbot::bot::RaderBot;
use raderbot::signal::SignalAction;
use raderbot::types::{AlgorithmError, Kline, OrderSide, StrategySettings};

fn settings() -> StrategySettings {
    StrategySettings { max_open_orders: 2, margin_usd: 100_000, leverage: 10 }
}

fn sma(period: u64) -> AlgorithmParams {
    AlgorithmParams { sma_period: Some(period), ..AlgorithmParams::default() }
}

fn bar(close: u64, t: u64) -> Kline {
    Kline {
        symbol: "BTC-USDT".to_string(),
        interval: "1m".to_string(),
        open: close,
        high: close,
        low: close,
        close,
        volume: 1,
        open_time: t * 60_000,
        close_time: t * 60_000 + 59_999,
    }
}

#[test]
fn failed_start_registers_nothing() {
    let mut bot = RaderBot::new();
    assert!(matches!(
        bot.start_strategy(1, "Nope", "BTC-USDT", "1m", settings(), sma(2)),
        Err(AlgorithmError::UnknownName(_))
    ));
    assert!(bot.get_active_strategy_ids().is_empty());
    assert!(bot.signal_manager.settings(1).is_none());
    let info = bot.start_strategy(1, "SimpleMovingAverage", "BTC-USDT", "1m", settings(), sma(2)).unwrap();
    assert_eq!(info.id, 1);
    assert!(bot.start_strategy(1, "SimpleMovingAverage", "BTC-USDT", "1m", settings(), sma(3)).is_err());
    assert_eq!(bot.get_active_strategy_ids(), vec![1]);
    assert_eq!(bot.get_strategy(1).unwrap().params.sma_period, Some(2));
}

#[test]
fn live_pipeline_and_stop() {
    let mut bot = RaderBot::new();
    bot.start_strategy(8, "SimpleMovingAverage", "BTC-USDT", "1m", settings(), sma(2)).unwrap();
    bot.start_strategy(9, "SimpleMovingAverage", "BTC-USDT", "1m", settings(), sma(3)).unwrap();
    assert_eq!(bot.get_active_strategy_ids(), vec![8, 9]);
    assert!(bot.evaluate_candle(8, bar(100, 0)).is_none());
    let signal = bot.evaluate_candle(8, bar(110, 1)).unwrap();
    assert_eq!(signal.order_side, OrderSide::Long);
    assert!(!signal.is_back_test);
    assert_eq!(bot.handle_signal(&signal, None), SignalAction::Drop);
    assert_eq!(bot.handle_signal(&signal, Some(110)), SignalAction::Open);
    let summary = bot.stop_strategy(8, true, Some(121), 5).unwrap();
    assert_eq!(summary.info.id, 8);
    assert_eq!(summary.result.unwrap().long_count, 1);
    assert!(bot.account.positions().is_empty());
    assert_eq!(bot.get_active_strategy_ids(), vec![9]);
    assert!(bot.signal_manager.settings(8).is_none());
    assert!(bot.stop_strategy(8, true, Some(121), 5).is_none());
    assert_eq!(bot.handle_signal(&signal, Some(110)), SignalAction::Drop);
}

#[test]
fn params_update_through_context() {
    let mut bot = RaderBot::new();
    bot.start_strategy(2, "SimpleMovingAverage", "BTC-USDT", "1m", settings(), sma(2)).unwrap();
    assert_eq!(bot.set_strategy_params(2, sma(4)).unwrap().unwrap().sma_period, Some(4));
    assert!(bot.set_strategy_params(2, sma(0)).unwrap().is_err());
    assert!(bot.set_strategy_params(3, sma(4)).is_none());
}

#[test]
fn context_backtest_is_isolated() {
    let bot = RaderBot::new();
    let candles: Vec<Kline> = [100u64, 110, 120].iter().enumerate().map(|(i, c)| bar(*c, i as u64)).collect();
    let r = bot.run_back_test("SimpleMovingAverage", "BTC-USDT", "1m", settings(), sma(2), &candles).unwrap().unwrap();
    assert_eq!(r.profit, 90_909);
    assert!(bot.account.trades().is_empty());
    assert!(bot.run_back_test("SimpleMovingAverage", "BTC-USDT", "nope", settings(), sma(2), &candles).is_err());
}

#[test]
fn failed_build_reports_its_own_error_even_for_a_used_id() {
    let mut bot = RaderBot::new();
    bot.start_strategy(1, "SimpleMovingAverage", "BTC-USDT", "1m", settings(), sma(2)).unwrap();
    assert!(matches!(
        bot.start_strategy(1, "Nope", "BTC-USDT", "1m", settings(), sma(2)),
        Err(AlgorithmError::UnknownName(_))
    ));
    assert!(matches!(
        bot.start_strategy(1, "SimpleMovingAverage", "BTC-USDT", "1x", settings(), sma(2)),
        Err(AlgorithmError::UnknownInterval(_))
    ));
    assert!(matches!(
        bot.start_strategy(1, "SimpleMovingAverage", "BTC-USDT", "1m", settings(), sma(2)),
        Err(AlgorithmError::InvalidParams(_))
    ));
    assert_eq!(bot.get_active_strategy_ids(), vec![1]);
}

#[test]
fn stopping_keeps_other_strategies() {
    let mut bot = RaderBot::new();
    bot.start_strategy(1, "SimpleMovingAverage", "BTC-USDT", "1m", settings(), sma(2)).unwrap();
    bot.start_strategy(2, "SimpleMovingAverage", "ETH-USDT", "5m", settings(), sma(3)).unwrap();
    bot.start_strategy(3, "SimpleMovingAverage", "BTC-USDT", "1m", settings(), sma(4)).unwrap();
    let summary = bot.stop_strategy(2, false, None, 0).unwrap();
    assert_eq!(summary.info.symbol, "ETH-USDT");
    assert_eq!(summary.info.interval, "5m");
    assert_eq!(summary.info.params.sma_period, Some(3));
    assert_eq!(summary.result.unwrap().long_count, 0);
    assert_eq!(bot.get_active_strategy_ids(), vec![1, 3]);
    assert_eq!(bot.get_strategy(3).unwrap().params.sma_period, Some(4));
    assert!(bot.signal_manager.settings(1).is_some());
    assert!(bot.signal_manager.settings(2).is_none());
}
