use raderbot::algorithm::{Algorithm, AlgorithmBuilder, AlgorithmName, AlgorithmParams};
use raderbot::interval::build_interval;
use raderbot::types::{AlgorithmError, AlgorithmEvalResult, Kline};

fn bar(close: u64, t: u64) -> Kline {
    Kline {
        symbol: "BTC-USDT".to_string(),
        interval: "1m".to_string(),
        open: close,
        high: close,
        low: close,
        close,
        volume: 1,
        open_time: t * 60_000,
        close_time: t * 60_000 + 59_999,
    }
}

fn feed(a: &mut Algorithm, closes: &[u64]) -> Vec<AlgorithmEvalResult> {
    let mut out = Vec::new();
    for (i, c) in closes.iter().enumerate() {
        out.push(a.evaluate(bar(*c, i as u64)));
    }
    out
}

fn rsi_ema_sma_params() -> AlgorithmParams {
    AlgorithmParams {
        rsi_period: Some(14),
        short_sma_period: Some(5),
        medium_sma_period: Some(12),
        long_sma_period: Some(26),
        ema_period: Some(9),
        ..AlgorithmParams::default()
    }
}

fn build(name: &str, params: AlgorithmParams) -> Algorithm {
    match AlgorithmBuilder::build_algorithm(name, "1m", params) {
        Ok(a) => a,
        Err(e) => panic!("{}", e.message()),
    }
}

use AlgorithmEvalResult::{Ignore, Long, Short};

#[test]
fn interval_strings_parse() {
    assert_eq!(build_interval("1m"), Ok(60_000));
    assert_eq!(build_interval("15m"), Ok(900_000));
    assert_eq!(build_interval("4h"), Ok(14_400_000));
    assert_eq!(build_interval("1d"), Ok(86_400_000));
    assert_eq!(build_interval("1w"), Ok(604_800_000));
    assert_eq!(build_interval("30s"), Ok(30_000));
    assert!(build_interval("0m").is_err());
    assert!(build_interval("m").is_err());
    assert!(build_interval("10").is_err());
    assert!(build_interval("1x").is_err());
    assert!(build_interval("a5m").is_err());
    assert!(build_interval("99999999999999999999m").is_err());
}

#[test]
fn factory_reports_each_error() {
    let none = AlgorithmParams::default();
    assert!(matches!(AlgorithmBuilder::build_algorithm("Nope", "1m", none), Err(AlgorithmError::UnknownName(_))));
    assert!(matches!(AlgorithmBuilder::build_algorithm("Rsi", "1x", none), Err(AlgorithmError::UnknownInterval(_))));
    let only_ema = AlgorithmParams { ema_period: Some(3), ..AlgorithmParams::default() };
    assert!(matches!(
        AlgorithmBuilder::build_algorithm("EmaSmaCrossover", "1m", only_ema),
        Err(AlgorithmError::InvalidParams(_))
    ));
    let zero = AlgorithmParams { rsi_period: Some(0), ..AlgorithmParams::default() };
    assert!(matches!(AlgorithmBuilder::build_algorithm("Rsi", "1m", zero), Err(AlgorithmError::InvalidParams(_))));
    assert!(matches!(AlgorithmBuilder::build_algorithm("RsiEmaSma", "1m", none), Err(AlgorithmError::InvalidParams(_))));
    let a = build("RsiEmaSma", rsi_ema_sma_params());
    assert_eq!(a.name(), AlgorithmName::RsiEmaSma);
    assert_eq!(a.interval(), 60_000);
    let p = a.get_params();
    assert_eq!(p.rsi_period, Some(14));
    assert_eq!(p.short_sma_period, Some(5));
    assert_eq!(p.medium_sma_period, Some(12));
    assert_eq!(p.long_sma_period, Some(26));
    assert_eq!(p.ema_period, Some(9));
    assert_eq!(p.sma_period, None);
}

#[test]
fn every_name_is_registered() {
    let p = AlgorithmParams {
        ema_period: Some(2),
        sma_period: Some(3),
        rsi_period: Some(2),
        short_sma_period: Some(2),
        medium_sma_period: Some(3),
        long_sma_period: Some(4),
        bb_period: Some(3),
        bb_multiplier: Some(2),
        fast_period: Some(2),
        slow_period: Some(3),
        signal_period: Some(2),
        ..AlgorithmParams::default()
    };
    for name in [
        "EmaSmaCrossover",
        "RsiEmaSma",
        "SimpleMovingAverage",
        "ThreeMaCrossover",
        "Rsi",
        "BollingerBands",
        "Macd",
        "MacdBollingerBands",
    ] {
        assert!(AlgorithmBuilder::build_algorithm(name, "5m", p).is_ok(), "{}", name);
    }
}

#[test]
fn warm_up_then_sma_decides() {
    let mut a = build("SimpleMovingAverage", AlgorithmParams { sma_period: Some(3), ..AlgorithmParams::default() });
    assert_eq!(feed(&mut a, &[10, 20, 30, 10, 20]), vec![Ignore, Ignore, Long, Short, Ignore]);
}

#[test]
fn ema_sma_crossover_values() {
    let p = AlgorithmParams { ema_period: Some(2), sma_period: Some(3), ..AlgorithmParams::default() };
    let mut up = build("EmaSmaCrossover", p);
    assert_eq!(feed(&mut up, &[10, 20, 30]), vec![Ignore, Ignore, Long]);
    let mut down = build("EmaSmaCrossover", p);
    assert_eq!(feed(&mut down, &[30, 20, 10]), vec![Ignore, Ignore, Short]);
}

#[test]
fn rising_series_crosses_long() {
    let p = AlgorithmParams {
        short_sma_period: Some(2),
        medium_sma_period: Some(3),
        long_sma_period: Some(4),
        ..AlgorithmParams::default()
    };
    let mut a = build("ThreeMaCrossover", p);
    let out = feed(&mut a, &[100, 101, 103, 106, 110, 111, 150]);
    assert_eq!(out, vec![Ignore, Ignore, Ignore, Long, Long, Long, Long]);
    assert!(!out.contains(&Short));
}

#[test]
fn rsi_levels() {
    let p = AlgorithmParams { rsi_period: Some(2), ..AlgorithmParams::default() };
    let mut falling = build("Rsi", p);
    assert_eq!(feed(&mut falling, &[10, 9, 8]), vec![Ignore, Ignore, Long]);
    let mut rising = build("Rsi", p);
    assert_eq!(feed(&mut rising, &[10, 11, 12]), vec![Ignore, Ignore, Short]);
    let mut mixed = build("Rsi", p);
    assert_eq!(feed(&mut mixed, &[10, 12, 11]), vec![Ignore, Ignore, Ignore]);
}

#[test]
fn bollinger_bands_values() {
    let one = AlgorithmParams { bb_period: Some(3), bb_multiplier: Some(1), ..AlgorithmParams::default() };
    assert_eq!(feed(&mut build("BollingerBands", one), &[10, 10, 10]), vec![Ignore, Ignore, Ignore]);
    assert_eq!(feed(&mut build("BollingerBands", one), &[10, 10, 4]), vec![Ignore, Ignore, Long]);
    assert_eq!(feed(&mut build("BollingerBands", one), &[10, 10, 16]), vec![Ignore, Ignore, Short]);
    let missing = AlgorithmParams { bb_period: Some(3), ..AlgorithmParams::default() };
    assert!(matches!(AlgorithmBuilder::build_algorithm("BollingerBands", "1m", missing), Err(AlgorithmError::InvalidParams(_))));
    let two = AlgorithmParams { bb_multiplier: Some(2), ..missing };
    assert_eq!(feed(&mut build("BollingerBands", two), &[10, 10, 4]), vec![Ignore, Ignore, Ignore]);
}

#[test]
fn macd_values() {
    let p = AlgorithmParams { fast_period: Some(2), slow_period: Some(3), signal_period: Some(2), ..AlgorithmParams::default() };
    assert_eq!(feed(&mut build("Macd", p), &[10, 20, 30]), vec![Ignore, Ignore, Long]);
    let both = AlgorithmParams { bb_period: Some(3), bb_multiplier: Some(1), ..p };
    assert_eq!(feed(&mut build("MacdBollingerBands", both), &[10, 20, 30]), vec![Ignore, Ignore, Ignore]);
}

#[test]
fn rsi_ema_sma_needs_its_longest_window() {
    let mut a = build("RsiEmaSma", rsi_ema_sma_params());
    let closes: Vec<u64> = (1..=25).map(|i| 1000 - i).collect();
    assert!(feed(&mut a, &closes).iter().all(|r| *r == Ignore));
}

#[test]
fn set_params_keeps_unset_values() {
    let mut a = build("RsiEmaSma", rsi_ema_sma_params());
    let update = AlgorithmParams { rsi_period: Some(10), ..AlgorithmParams::default() };
    assert!(a.set_params(update).is_ok());
    assert_eq!(a.get_params().rsi_period, Some(10));
    assert_eq!(a.get_params().ema_period, Some(9));
    let bad = AlgorithmParams { long_sma_period: Some(0), ema_period: Some(4), ..AlgorithmParams::default() };
    assert!(matches!(a.set_params(bad), Err(AlgorithmError::InvalidParams(_))));
    assert_eq!(a.get_params().ema_period, Some(9));
    assert_eq!(a.get_params().long_sma_period, Some(26));
}

#[test]
fn identical_inputs_give_identical_outputs() {
    let p = AlgorithmParams { fast_period: Some(3), slow_period: Some(5), signal_period: Some(2), ..AlgorithmParams::default() };
    let closes: Vec<u64> = vec![100, 104, 99, 120, 80, 85, 130, 131, 90, 95, 97];
    let mut a = build("Macd", p);
    let mut b = build("Macd", p);
    let bars: Vec<Kline> = closes.iter().enumerate().map(|(i, c)| bar(*c, i as u64)).collect();
    assert_eq!(a.evaluate_all(&bars), b.evaluate_all(&bars));
}

#[test]
fn untradable_close_is_not_buffered() {
    let mut a = build("SimpleMovingAverage", AlgorithmParams { sma_period: Some(1), ..AlgorithmParams::default() });
    assert_eq!(a.evaluate(bar(0, 0)), Ignore);
    assert!(a.data_points().is_empty());
    assert_eq!(a.evaluate(bar(5, 1)), Ignore);
    assert_eq!(a.data_points().len(), 1);
}

#[test]
fn buffer_is_pruned() {
    let mut a = build("SimpleMovingAverage", AlgorithmParams { sma_period: Some(2), ..AlgorithmParams::default() });
    let bars: Vec<Kline> = (0..20_161u64).map(|i| bar(100 + i % 7, i)).collect();
    a.evaluate_all(&bars);
    let kept = a.data_points();
    assert_eq!(kept.len(), 10_081);
    assert_eq!(kept[0].open_time, 10_080 * 60_000);
}

#[test]
fn explicit_cleaning_keeps_short_buffers() {
    let mut a = build("SimpleMovingAverage", AlgorithmParams { sma_period: Some(2), ..AlgorithmParams::default() });
    feed(&mut a, &[1, 2, 3]);
    a.clean_data_points();
    assert_eq!(a.data_points().len(), 3);
}

#[test]
fn every_missing_value_is_rejected() {
    let full = rsi_ema_sma_params();
    let variants = [
        AlgorithmParams { rsi_period: None, ..full },
        AlgorithmParams { short_sma_period: None, ..full },
        AlgorithmParams { medium_sma_period: None, ..full },
        AlgorithmParams { long_sma_period: None, ..full },
        AlgorithmParams { ema_period: None, ..full },
    ];
    for p in variants {
        assert!(matches!(AlgorithmBuilder::build_algorithm("RsiEmaSma", "1m", p), Err(AlgorithmError::InvalidParams(_))));
    }
    let macd = AlgorithmParams { fast_period: Some(12), slow_period: Some(26), ..AlgorithmParams::default() };
    assert!(matches!(AlgorithmBuilder::build_algorithm("Macd", "1m", macd), Err(AlgorithmError::InvalidParams(_))));
    assert!(AlgorithmBuilder::build_algorithm("RsiEmaSma", "1m", full).is_ok());
}
