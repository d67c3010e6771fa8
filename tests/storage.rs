use raderbot::market::MarketTradeDataMeta;
use raderbot::storage::{klines_in_range, upsert_kline, upsert_klines};
use raderbot::types::{Kline, StopStrategyParams};

fn bar(close: u64, open_time: u64) -> Kline {
    Kline {
        symbol: "ETH-USDT".to_string(),
        interval: "1m".to_string(),
        open: close,
        high: close,
        low: close,
        close,
        volume: 3,
        open_time,
        close_time: open_time + 59_999,
    }
}

#[test]
fn saved_bar_loads_back_equal() {
    let mut rows: Vec<Kline> = Vec::new();
    upsert_kline(&mut rows, bar(100, 60_000));
    let loaded = klines_in_range(&rows, 60_000, 60_000);
    assert_eq!(loaded, vec![bar(100, 60_000)]);
}

#[test]
fn resaving_same_open_time_overwrites() {
    let mut rows: Vec<Kline> = Vec::new();
    upsert_kline(&mut rows, bar(100, 60_000));
    upsert_kline(&mut rows, bar(105, 60_000));
    assert_eq!(rows.len(), 1);
    assert_eq!(rows[0].close, 105);
    upsert_kline(&mut rows, bar(107, 120_000));
    assert_eq!(rows.len(), 2);
    assert_eq!(klines_in_range(&rows, 60_000, 60_000), vec![bar(105, 60_000)]);
}

#[test]
fn range_selects_by_open_time() {
    let mut rows: Vec<Kline> = Vec::new();
    upsert_klines(&mut rows, &vec![bar(1, 0), bar(2, 60_000), bar(3, 120_000), bar(4, 180_000)]);
    let mid = klines_in_range(&rows, 60_000, 120_000);
    assert_eq!(mid.len(), 2);
    assert_eq!(mid[0].close, 2);
    assert_eq!(mid[1].close, 3);
    assert!(klines_in_range(&rows, 200_000, 100_000).is_empty());
}

#[test]
fn trade_meta_starts_empty() {
    let m = MarketTradeDataMeta::new("BTC-USDT", 1_700_000_000_000);
    assert_eq!(m.symbol, "BTC-USDT");
    assert_eq!(m.len, 0);
    assert_eq!(m.last_update, 1_700_000_000_000);
    let stop = StopStrategyParams { strategy_id: 4 };
    assert_eq!(stop.strategy_id, 4);
}
