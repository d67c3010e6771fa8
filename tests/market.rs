use raderbot::market::{MarketTrade, MarketTradeData};
use raderbot::types::OrderSide;

fn trade(ts: u64, qty: u64, price: u64, side: OrderSide) -> MarketTrade {
    MarketTrade { id: 1, symbol: "BTC-USDT".to_string(), timestamp: ts, qty, price, order_side: side }
}

#[test]
fn trades_in_same_second_and_side_merge() {
    let mut data = MarketTradeData::new("BTC-USDT", 5);
    let mut a = trade(1_234, 2, 100, OrderSide::Long);
    data.add_trade(&mut a);
    assert_eq!(a.timestamp, 1_000);
    let mut b = trade(1_999, 3, 103, OrderSide::Long);
    data.add_trade(&mut b);
    let trades = data.get_trades();
    assert_eq!(trades.len(), 1);
    assert_eq!(trades[0].qty, 5);
    assert_eq!(trades[0].price, 101);
    assert_eq!(trades[0].timestamp, 1_000);
}

#[test]
fn trades_are_kept_in_key_order() {
    let mut data = MarketTradeData::new("BTC-USDT", 0);
    data.add_trade(&mut trade(3_500, 1, 10, OrderSide::Long));
    data.add_trade(&mut trade(1_200, 1, 10, OrderSide::Short));
    data.add_trade(&mut trade(1_700, 1, 10, OrderSide::Long));
    let keys: Vec<(u64, OrderSide)> = data.get_trades().iter().map(|t| (t.timestamp, t.order_side)).collect();
    assert_eq!(keys, vec![(1_000, OrderSide::Long), (1_000, OrderSide::Short), (3_000, OrderSide::Long)]);
}

#[test]
fn quantities_saturate_and_clear_resets() {
    let mut data = MarketTradeData::new("BTC-USDT", 0);
    data.add_trade(&mut trade(0, u64::MAX - 1, 10, OrderSide::Short));
    data.add_trade(&mut trade(10, 5, 20, OrderSide::Short));
    assert_eq!(data.get_trades()[0].qty, u64::MAX);
    assert_eq!(data.get_trades()[0].price, 15);
    data.clear_trades();
    assert!(data.get_trades().is_empty());
    assert_eq!(data.meta.len, 0);
}
