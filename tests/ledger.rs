use raderbot::account::{trade_profits, Account, TradeTx, QTY_SCALE};
use raderbot::metrics::{max_drawdown_of, max_profit_of, profits_fit, total_profit_of};
use raderbot::types::OrderSide;

fn symbol() -> String {
    "BTC-USDT".to_string()
}

#[test]
fn open_position_computes_quantity() {
    let mut account = Account::new();
    let p = account.open_position(1, &symbol(), 100_000, 10, OrderSide::Long, None, 5_000_000, 7);
    assert_eq!(p.id, 0);
    assert_eq!(p.quantity, 200_000);
    assert_eq!(p.quantity, 100_000u128 * 10 * QTY_SCALE / 5_000_000);
    assert_eq!(p.open_time, 7);
    assert_eq!(p.symbol, "BTC-USDT");
    assert_eq!(account.positions().len(), 1);
    let q = account.open_position(1, &symbol(), 100_000, 10, OrderSide::Short, None, 5_000_000, 8);
    assert_eq!(q.id, 1);
}

#[test]
fn profit_sign_follows_side() {
    let mut account = Account::new();
    let long = account.open_position(1, &symbol(), 100_000, 10, OrderSide::Long, None, 5_000_000, 0);
    let short = account.open_position(1, &symbol(), 100_000, 10, OrderSide::Short, None, 5_000_000, 0);
    let t1 = account.close_position(long.id, 5_500_000, 1).unwrap();
    let t2 = account.close_position(short.id, 5_500_000, 1).unwrap();
    assert_eq!(t1.calc_profit(), 100_000);
    assert_eq!(t2.calc_profit(), -100_000);
    assert!(account.positions().is_empty());
    assert_eq!(account.trades().len(), 2);
}

#[test]
fn profit_rounds_toward_zero() {
    let mut account = Account::new();
    let p = account.open_position(3, &symbol(), 10, 1, OrderSide::Long, None, 3, 0);
    assert_eq!(p.quantity, 3_333_333);
    let t = account.close_position(p.id, 2, 1).unwrap();
    assert_eq!(t.calc_profit(), -3);
}

#[test]
fn close_unknown_position_changes_nothing() {
    let mut account = Account::new();
    account.open_position(1, &symbol(), 100, 1, OrderSide::Long, None, 10, 0);
    assert!(account.close_position(42, 10, 1).is_none());
    assert_eq!(account.positions().len(), 1);
    assert!(account.trades().is_empty());
}

#[test]
fn strategy_positions_are_filtered_in_order() {
    let mut account = Account::new();
    account.open_position(1, &symbol(), 100, 1, OrderSide::Long, None, 10, 0);
    account.open_position(2, &symbol(), 100, 1, OrderSide::Long, None, 10, 0);
    account.open_position(1, &symbol(), 100, 1, OrderSide::Long, None, 12, 0);
    let mine = account.strategy_open_positions(1);
    assert_eq!(mine.len(), 2);
    assert_eq!(mine[0].id, 0);
    assert_eq!(mine[1].id, 2);
    let closed = account.close_strategy_positions(1, 11, 5);
    assert_eq!(closed, 2);
    assert_eq!(account.positions().len(), 1);
    assert_eq!(account.positions()[0].strategy_id, 2);
    let trades: Vec<TradeTx> = account.trades();
    assert_eq!(trades.len(), 2);
    assert_eq!(trades[0].position.id, 0);
    assert_eq!(trades[1].position.id, 2);
    assert_eq!(trades[1].close_price, 11);
    assert_eq!(account.strategy_trades(1).len(), 2);
    assert_eq!(account.strategy_trades(2).len(), 0);
}

#[test]
fn drawdown_and_profit_scenario() {
    let profits: Vec<i128> = vec![100, -50, 200, -300];
    assert!(profits_fit(&profits));
    assert_eq!(max_profit_of(&profits), 250);
    assert_eq!(max_drawdown_of(&profits), -50);
    assert_eq!(total_profit_of(&profits), -50);
}

#[test]
fn metrics_start_from_zero_baseline() {
    let losing: Vec<i128> = vec![-10, -20];
    assert_eq!(max_profit_of(&losing), 0);
    assert_eq!(max_drawdown_of(&losing), -30);
    let empty: Vec<i128> = vec![];
    assert_eq!(max_profit_of(&empty), 0);
    assert_eq!(max_drawdown_of(&empty), 0);
}

#[test]
fn running_sum_overflow_is_detected() {
    let huge: Vec<i128> = vec![i128::MAX, 1];
    assert!(!profits_fit(&huge));
    let fine: Vec<i128> = vec![i128::MAX, -1];
    assert!(profits_fit(&fine));
}

#[test]
fn trade_profits_in_close_order() {
    let mut account = Account::new();
    let a = account.open_position(1, &symbol(), 100_000, 10, OrderSide::Long, None, 5_000_000, 0);
    let b = account.open_position(1, &symbol(), 100_000, 10, OrderSide::Short, None, 5_000_000, 0);
    account.close_position(b.id, 4_500_000, 1);
    account.close_position(a.id, 4_500_000, 2);
    let profits = trade_profits(&account.trades());
    assert_eq!(profits, vec![100_000, -100_000]);
}
