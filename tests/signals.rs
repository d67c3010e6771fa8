use raderbot::account::Account;
use raderbot::signal::{SignalAction, SignalManager};
use raderbot::types::{OrderSide, SignalMessage, StrategySettings};

fn settings(max_open_orders: u32) -> StrategySettings {
    StrategySettings { max_open_orders, margin_usd: 100_000, leverage: 10 }
}

fn replay(id: u32, side: OrderSide, price: u64, ts: u64) -> SignalMessage {
    SignalMessage { strategy_id: id, order_side: side, symbol: "BTC-USDT".to_string(), price, is_back_test: true, timestamp: ts }
}

#[test]
fn reversal_closes_then_next_signal_opens() {
    let mut sm = SignalManager::new();
    sm.add_strategy_settings(1, settings(2));
    let mut account = Account::new();
    assert_eq!(sm.handle_signal(&mut account, &replay(1, OrderSide::Long, 5_000_000, 1), None), SignalAction::Open);
    assert_eq!(sm.handle_signal(&mut account, &replay(1, OrderSide::Short, 5_500_000, 2), None), SignalAction::CloseAll);
    let trades = account.trades();
    assert_eq!(trades.len(), 1);
    assert_eq!(trades[0].position.order_side, OrderSide::Long);
    assert_eq!(trades[0].close_price, 5_500_000);
    assert_eq!(trades[0].calc_profit(), 100_000);
    assert!(account.strategy_open_positions(1).is_empty());
    assert_eq!(sm.handle_signal(&mut account, &replay(1, OrderSide::Short, 5_400_000, 3), None), SignalAction::Open);
    let open = account.strategy_open_positions(1);
    assert_eq!(open.len(), 1);
    assert_eq!(open[0].order_side, OrderSide::Short);
    assert_eq!(open[0].open_price, 5_400_000);
    assert_eq!(account.trades().len(), 1);
}

#[test]
fn pyramiding_stops_at_cap() {
    let mut sm = SignalManager::new();
    sm.add_strategy_settings(7, settings(2));
    let mut account = Account::new();
    assert_eq!(sm.handle_signal(&mut account, &replay(7, OrderSide::Long, 100, 1), None), SignalAction::Open);
    assert_eq!(sm.handle_signal(&mut account, &replay(7, OrderSide::Long, 101, 2), None), SignalAction::Open);
    assert_eq!(sm.handle_signal(&mut account, &replay(7, OrderSide::Long, 102, 3), None), SignalAction::Hold);
    assert_eq!(account.strategy_open_positions(7).len(), 2);
    assert!(account.trades().is_empty());
}

#[test]
fn unregistered_strategy_signal_is_dropped() {
    let mut sm = SignalManager::new();
    sm.add_strategy_settings(1, settings(2));
    sm.remove_strategy_settings(1);
    let mut account = Account::new();
    assert_eq!(sm.handle_signal(&mut account, &replay(1, OrderSide::Long, 100, 1), None), SignalAction::Drop);
    assert!(account.positions().is_empty());
    assert!(sm.settings(1).is_none());
}

#[test]
fn live_signal_uses_live_price_or_skips() {
    let mut sm = SignalManager::new();
    sm.add_strategy_settings(3, settings(1));
    let mut account = Account::new();
    let mut live = replay(3, OrderSide::Short, 999, 1);
    live.is_back_test = false;
    assert_eq!(sm.handle_signal(&mut account, &live, None), SignalAction::Drop);
    assert!(account.positions().is_empty());
    assert_eq!(sm.handle_signal(&mut account, &live, Some(1234)), SignalAction::Open);
    assert_eq!(account.positions()[0].open_price, 1234);
}

#[test]
fn untradable_price_is_dropped() {
    let mut sm = SignalManager::new();
    sm.add_strategy_settings(3, settings(1));
    let mut account = Account::new();
    assert_eq!(sm.handle_signal(&mut account, &replay(3, OrderSide::Long, 0, 1), None), SignalAction::Drop);
    assert!(account.positions().is_empty());
}

#[test]
fn strategies_do_not_touch_each_other() {
    let mut sm = SignalManager::new();
    sm.add_strategy_settings(1, settings(1));
    sm.add_strategy_settings(2, settings(1));
    let mut account = Account::new();
    sm.handle_signal(&mut account, &replay(1, OrderSide::Long, 100, 1), None);
    sm.handle_signal(&mut account, &replay(2, OrderSide::Short, 100, 2), None);
    assert_eq!(sm.handle_signal(&mut account, &replay(2, OrderSide::Long, 110, 3), None), SignalAction::CloseAll);
    assert_eq!(account.strategy_open_positions(1).len(), 1);
    assert!(account.strategy_open_positions(2).is_empty());
    assert_eq!(account.trades().len(), 1);
}
