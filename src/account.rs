use vstd::prelude::*;
use crate::types::{price_ok, OrderSide, StrategyId, MAX_LEVERAGE, MAX_MARGIN, MAX_PRICE};

verus! {

/// Quantities are fixed-point with this many units per whole contract.
pub const QTY_SCALE: u128 = 1_000_000;

/// Scaled quantity bought by `margin * leverage` at `price`.
pub open spec fn quantity_for(margin: int, leverage: int, price: int) -> int {
    (margin * leverage * QTY_SCALE as int) / price
}

/// Division rounding toward zero.
pub open spec fn div_toward_zero(a: int, b: int) -> int {
    if a >= 0 {
        a / b
    } else {
        -((-a) / b)
    }
}

/// Price move in favour of a position of the given side.
pub open spec fn favourable_move(side: OrderSide, open_price: int, close_price: int) -> int {
    match side {
        OrderSide::Long => close_price - open_price,
        OrderSide::Short => open_price - close_price,
    }
}

/// Realized profit: `(close - open) * quantity` for a long, negated for a short,
/// with the quantity's scale divided out (rounding toward zero).
pub open spec fn profit_spec(side: OrderSide, open_price: int, close_price: int, quantity: int) -> int {
    div_toward_zero(favourable_move(side, open_price, close_price) * quantity, QTY_SCALE as int)
}

/// An open leveraged exposure.
#[derive(Clone, Debug, PartialEq, Eq)]
pub struct Position {
    pub id: u64,
    pub strategy_id: StrategyId,
    pub symbol: String,
    pub order_side: OrderSide,
    pub open_price: u64,
    pub margin_usd: u64,
    pub leverage: u32,
    /// Scaled by `QTY_SCALE`.
    pub quantity: u128,
    pub open_time: u64,
    pub limit_price: Option<u64>,
}

impl Position {
    pub open spec fn wf(&self) -> bool {
        &&& price_ok(self.open_price)
        &&& self.margin_usd <= MAX_MARGIN
        &&& self.leverage <= MAX_LEVERAGE
        &&& self.quantity == quantity_for(
            self.margin_usd as int,
            self.leverage as int,
            self.open_price as int,
        )
    }

    /// An exact copy of the position.
    pub fn duplicate(&self) -> (r: Position)
        ensures
            r == *self,
    {
        Position {
            id: self.id,
            strategy_id: self.strategy_id,
            symbol: self.symbol.clone(),
            order_side: self.order_side,
            open_price: self.open_price,
            margin_usd: self.margin_usd,
            leverage: self.leverage,
            quantity: self.quantity,
            open_time: self.open_time,
            limit_price: self.limit_price,
        }
    }
}

/// A closed position.
#[derive(Clone, Debug, PartialEq, Eq)]
pub struct TradeTx {
    pub position: Position,
    pub close_price: u64,
    pub close_time: u64,
}

impl TradeTx {
    pub open spec fn wf(&self) -> bool {
        self.position.wf() && price_ok(self.close_price)
    }

    pub open spec fn profit(&self) -> int {
        profit_spec(
            self.position.order_side,
            self.position.open_price as int,
            self.close_price as int,
            self.position.quantity as int,
        )
    }

    /// An exact copy of the trade.
    pub fn duplicate(&self) -> (r: TradeTx)
        ensures
            r == *self,
    {
        TradeTx { position: self.position.duplicate(), close_price: self.close_price, close_time: self.close_time }
    }

    /// Realized profit of the trade, in the price's fixed-point units.
    pub fn calc_profit(&self) -> (r: i128)
        requires
            self.wf(),
        ensures
            r as int == self.profit(),
    {
        let open = self.position.open_price as u128;
        let close = self.close_price as u128;
        let qty = self.position.quantity;
        proof {
            lemma_quantity_bound(
                self.position.margin_usd as int,
                self.position.leverage as int,
                self.position.open_price as int,
            );
        }
        let gain = match self.position.order_side {
            OrderSide::Long => close >= open,
            OrderSide::Short => open >= close,
        };
        let mv: u128 = if close >= open { close - open } else { open - close };
        assert(mv <= MAX_PRICE);
        proof {
            assert(mv * qty <= (MAX_PRICE as int) * 1_000_000_000_000_000_000_000int) by (nonlinear_arith)
                requires mv <= MAX_PRICE, qty <= 1_000_000_000_000_000_000_000int;
        }
        let mag = (mv * qty) / QTY_SCALE;
        assert(mag <= mv * qty);
        let ghost fm = favourable_move(
            self.position.order_side,
            self.position.open_price as int,
            self.close_price as int,
        );
        if gain {
            assert(fm == mv);
            mag as i128
        } else {
            assert(fm == -mv);
            assert(fm * qty == -(mv * qty)) by (nonlinear_arith)
                requires fm == -mv;
            -(mag as i128)
        }
    }
}

/// Positions opened within the ledger's ranges are well formed.
pub proof fn lemma_new_position_wf(margin: u64, leverage: u32, price: u64)
    requires
        margin <= MAX_MARGIN,
        leverage <= MAX_LEVERAGE,
        price_ok(price),
    ensures
        forall|id: nat, sid: StrategyId, symbol: String, side: OrderSide, limit: Option<u64>, time: u64|
            id <= u64::MAX ==> #[trigger] new_position(id, sid, symbol, side, margin, leverage, limit, price, time).wf()
            && new_position(id, sid, symbol, side, margin, leverage, limit, price, time).id == id,
{
    lemma_quantity_bound(margin as int, leverage as int, price as int);
}

/// Scaled quantities of well-formed positions stay below 10^21.
pub proof fn lemma_quantity_bound(margin: int, leverage: int, price: int)
    requires
        0 <= margin <= MAX_MARGIN,
        0 <= leverage <= MAX_LEVERAGE,
        0 < price,
    ensures
        0 <= quantity_for(margin, leverage, price) <= 1_000_000_000_000_000_000_000int,
{
    let n = margin * leverage * QTY_SCALE as int;
    assert(0 <= n <= 1_000_000_000_000_000_000_000int) by (nonlinear_arith)
        requires
            n == margin * leverage * 1_000_000int,
            0 <= margin <= 1_000_000_000_000int,
            0 <= leverage <= 1000,
    ;
    assert(n / price <= n) by (nonlinear_arith)
        requires 0 <= n, 0 < price;
    assert(0 <= n / price) by (nonlinear_arith)
        requires 0 <= n, 0 < price;
}


/// The strategy's positions, in ledger order.
pub open spec fn positions_of(s: Seq<Position>, sid: StrategyId) -> Seq<Position>
    decreases s.len(),
{
    if s.len() == 0 {
        Seq::empty()
    } else if s.last().strategy_id == sid {
        positions_of(s.drop_last(), sid).push(s.last())
    } else {
        positions_of(s.drop_last(), sid)
    }
}

/// The positions of every other strategy, in ledger order.
pub open spec fn positions_not_of(s: Seq<Position>, sid: StrategyId) -> Seq<Position>
    decreases s.len(),
{
    if s.len() == 0 {
        Seq::empty()
    } else if s.last().strategy_id != sid {
        positions_not_of(s.drop_last(), sid).push(s.last())
    } else {
        positions_not_of(s.drop_last(), sid)
    }
}

/// The trades that closing each of `s` at `price` and `time` produces, in order.
pub open spec fn closings(s: Seq<Position>, price: u64, time: u64) -> Seq<TradeTx> {
    s.map_values(|p: Position| TradeTx { position: p, close_price: price, close_time: time })
}

/// The position that opening with these arguments creates.
pub open spec fn new_position(
    id: nat,
    sid: StrategyId,
    symbol: String,
    side: OrderSide,
    margin: u64,
    leverage: u32,
    limit_price: Option<u64>,
    price: u64,
    time: u64,
) -> Position {
    Position {
        id: id as u64,
        strategy_id: sid,
        symbol,
        order_side: side,
        open_price: price,
        margin_usd: margin,
        leverage,
        quantity: quantity_for(margin as int, leverage as int, price as int) as u128,
        open_time: time,
        limit_price,
    }
}

/// Abstract state of the ledger.
pub ghost struct AccountModel {
    pub positions: Seq<Position>,
    pub trades: Seq<TradeTx>,
    pub next_id: nat,
}

impl AccountModel {
    pub open spec fn wf(self) -> bool {
        &&& forall|i: int| 0 <= i < self.positions.len() ==> (#[trigger] self.positions[i]).wf()
        &&& forall|i: int| 0 <= i < self.positions.len() ==> (#[trigger] self.positions[i]).id < self.next_id
        &&& forall|i: int| 0 <= i < self.trades.len() ==> (#[trigger] self.trades[i]).wf()
        &&& self.next_id <= u64::MAX
    }

    /// This ledger after opening one position with these arguments.
    pub open spec fn open(
        self,
        sid: StrategyId,
        symbol: String,
        side: OrderSide,
        margin: u64,
        leverage: u32,
        limit_price: Option<u64>,
        price: u64,
        time: u64,
    ) -> AccountModel {
        AccountModel {
            positions: self.positions.push(
                new_position(self.next_id, sid, symbol, side, margin, leverage, limit_price, price, time),
            ),
            trades: self.trades,
            next_id: self.next_id + 1,
        }
    }

    /// This ledger after closing every position of strategy `sid` at `price` and `time`.
    pub open spec fn close_strategy(self, sid: StrategyId, price: u64, time: u64) -> AccountModel {
        AccountModel {
            positions: positions_not_of(self.positions, sid),
            trades: self.trades + closings(positions_of(self.positions, sid), price, time),
            next_id: self.next_id,
        }
    }
}

/// Ledger of open positions and closed trades.
pub struct Account {
    positions: Vec<Position>,
    trades: Vec<TradeTx>,
    next_id: u64,
}

impl View for Account {
    type V = AccountModel;

    closed spec fn view(&self) -> AccountModel {
        AccountModel { positions: self.positions@, trades: self.trades@, next_id: self.next_id as nat }
    }
}

impl Account {
    pub closed spec fn wf(&self) -> bool {
        self@.wf()
    }

    /// An empty ledger.
    pub fn new() -> (r: Account)
        ensures
            r.wf(),
            r@ == (AccountModel { positions: Seq::empty(), trades: Seq::empty(), next_id: 0 }),
    {
        let r = Account { positions: Vec::new(), trades: Vec::new(), next_id: 0 };
        assert(r@.positions =~= Seq::<Position>::empty());
        assert(r@.trades =~= Seq::<TradeTx>::empty());
        r
    }

    /// Opens a position of `margin * leverage` at `current_price` and returns it.
    /// Its id is the next unused one.
    pub fn open_position(
        &mut self,
        strategy_id: StrategyId,
        symbol: &String,
        margin: u64,
        leverage: u32,
        order_side: OrderSide,
        limit_price: Option<u64>,
        current_price: u64,
        open_time: u64,
    ) -> (r: Position)
        requires
            old(self).wf(),
            old(self)@.next_id < u64::MAX,
            margin <= MAX_MARGIN,
            leverage <= MAX_LEVERAGE,
            price_ok(current_price),
        ensures
            final(self).wf(),
            r == new_position(old(self)@.next_id, strategy_id, *symbol, order_side, margin, leverage, limit_price, current_price, open_time),
            final(self)@ == old(self)@.open(strategy_id, *symbol, order_side, margin, leverage, limit_price, current_price, open_time),
    {
        proof {
            lemma_quantity_bound(margin as int, leverage as int, current_price as int);
            lemma_new_position_wf(margin, leverage, current_price);
            assert((margin as int) * (leverage as int) * 1_000_000int <= 1_000_000_000_000_000_000_000int) by (nonlinear_arith)
                requires margin <= MAX_MARGIN, leverage <= MAX_LEVERAGE;
            assert(0 <= (margin as int) * (leverage as int)) by (nonlinear_arith);
        }
        let notional = (margin as u128) * (leverage as u128);
        let quantity = notional * QTY_SCALE / (current_price as u128);
        let p = Position {
            id: self.next_id,
            strategy_id,
            symbol: symbol.clone(),
            order_side,
            open_price: current_price,
            margin_usd: margin,
            leverage,
            quantity,
            open_time,
            limit_price,
        };
        let r = p.duplicate();
        let ghost before = self.positions@;
        self.positions.push(p);
        self.next_id = self.next_id + 1;
        proof {
            assert(p.wf());
            assert forall|k: int| 0 <= k < self.positions@.len() implies (#[trigger] self.positions@[k]).wf() && self.positions@[k].id < self.next_id by {
                if k < before.len() {
                    assert(self.positions@[k] == before[k]);
                    assert(old(self)@.positions[k].wf());
                    assert(old(self)@.positions[k].id < old(self)@.next_id);
                }
            }
            assert(self@.trades == old(self)@.trades);
            assert(self@.next_id <= u64::MAX);
        }
        r
    }

    /// Removes the first open position with `id`, records it as a trade closed at
    /// `close_price` and `close_time`, and returns the trade; `None` when no open
    /// position has that id.
    pub fn close_position(&mut self, id: u64, close_price: u64, close_time: u64) -> (r: Option<TradeTx>)
        requires
            old(self).wf(),
            price_ok(close_price),
        ensures
            final(self).wf(),
            match r {
                None => {
                    &&& final(self)@ == old(self)@
                    &&& forall|i: int| 0 <= i < old(self)@.positions.len() ==> (#[trigger] old(self)@.positions[i]).id != id
                },
                Some(t) => exists|i: int| {
                    &&& 0 <= i < old(self)@.positions.len()
                    &&& #[trigger] old(self)@.positions[i].id == id
                    &&& forall|j: int| 0 <= j < i ==> (#[trigger] old(self)@.positions[j]).id != id
                    &&& t == (TradeTx { position: old(self)@.positions[i], close_price, close_time })
                    &&& final(self)@ == (AccountModel {
                        positions: old(self)@.positions.remove(i),
                        trades: old(self)@.trades.push(t),
                        next_id: old(self)@.next_id,
                    })
                },
            },
    {
        let mut i: usize = 0;
        while i < self.positions.len()
            invariant
                i <= self.positions.len(),
                self@ == old(self)@,
                old(self).wf(),
                price_ok(close_price),
                forall|j: int| 0 <= j < i ==> (#[trigger] self.positions@[j]).id != id,
            decreases self.positions.len() - i,
        {
            if self.positions[i].id == id {
                let ghost before = self@;
                assert(before.positions[i as int].wf());
                let p = self.positions.remove(i);
                assert(p.wf());
                let t = TradeTx { position: p, close_price, close_time };
                assert(t.wf());
                let r = t.duplicate();
                self.trades.push(t);
                proof {
                    assert forall|k: int| 0 <= k < self@.positions.len() implies (#[trigger] self@.positions[k]).wf() && self@.positions[k].id < self@.next_id by {
                        if k < i {
                            assert(self@.positions[k] == before.positions[k]);
                        } else {
                            assert(self@.positions[k] == before.positions[k + 1]);
                        }
                    }
                    assert(r.wf());
                    assert forall|k: int| 0 <= k < self@.trades.len() implies (#[trigger] self@.trades[k]).wf() by {
                        if k < before.trades.len() {
                            assert(self@.trades[k] == before.trades[k]);
                        }
                    }
                }
                return Some(r);
            }
            i = i + 1;
        }
        None
    }

    /// Copies of the open positions of strategy `strategy_id`, in ledger order.
    pub fn strategy_open_positions(&self, strategy_id: StrategyId) -> (r: Vec<Position>)
        ensures
            r@ == positions_of(self@.positions, strategy_id),
    {
        let mut r: Vec<Position> = Vec::new();
        let mut i: usize = 0;
        while i < self.positions.len()
            invariant
                i <= self.positions.len(),
                r@ == positions_of(self.positions@.subrange(0, i as int), strategy_id),
            decreases self.positions.len() - i,
        {
            assert(self.positions@.subrange(0, i + 1).drop_last() == self.positions@.subrange(0, i as int));
            if self.positions[i].strategy_id == strategy_id {
                r.push(self.positions[i].duplicate());
            }
            i = i + 1;
        }
        assert(self.positions@.subrange(0, self.positions@.len() as int) == self.positions@);
        r
    }

    /// The id the next opened position gets.
    pub fn next_position_id(&self) -> (r: u64)
        ensures
            r == self@.next_id,
    {
        self.next_id
    }

    /// Copies of all open positions, in ledger order.
    pub fn positions(&self) -> (r: Vec<Position>)
        ensures
            r@ == self@.positions,
    {
        let mut r: Vec<Position> = Vec::new();
        let mut i: usize = 0;
        while i < self.positions.len()
            invariant
                i <= self.positions.len(),
                r@ == self.positions@.subrange(0, i as int),
            decreases self.positions.len() - i,
        {
            r.push(self.positions[i].duplicate());
            i = i + 1;
        }
        r
    }

    /// Copies of all closed trades, in the order they were closed.
    pub fn trades(&self) -> (r: Vec<TradeTx>)
        ensures
            r@ == self@.trades,
            self.wf() ==> forall|i: int| 0 <= i < r@.len() ==> (#[trigger] r@[i]).wf(),
    {
        let mut r: Vec<TradeTx> = Vec::new();
        let mut i: usize = 0;
        while i < self.trades.len()
            invariant
                i <= self.trades.len(),
                r@ == self.trades@.subrange(0, i as int),
            decreases self.trades.len() - i,
        {
            r.push(self.trades[i].duplicate());
            i = i + 1;
        }
        assert(r@ =~= self.trades@);
        proof {
            if self.wf() {
                assert forall|i: int| 0 <= i < r@.len() implies (#[trigger] r@[i]).wf() by {
                    assert(r@[i] == self@.trades[i]);
                }
            }
        }
        r
    }

    /// Closes every open position of strategy `strategy_id` at `close_price` and
    /// `close_time`, in ledger order, one trade per position; returns how many.
    pub fn close_strategy_positions(&mut self, strategy_id: StrategyId, close_price: u64, close_time: u64) -> (r: usize)
        requires
            old(self).wf(),
            price_ok(close_price),
        ensures
            final(self).wf(),
            final(self)@ == old(self)@.close_strategy(strategy_id, close_price, close_time),
            r == positions_of(old(self)@.positions, strategy_id).len(),
    {
        let ghost orig = self@;
        let mut rest: Vec<Position> = Vec::new();
        std::mem::swap(&mut rest, &mut self.positions);
        let ghost all = rest@;
        let total = rest.len();
        let ghost n = all.len();
        let mut count: usize = 0;
        let mut i: usize = 0;
        while rest.len() > 0
            invariant
                orig.wf(),
                price_ok(close_price),
                n == all.len(),
                i <= n,
                rest@ == all.subrange(i as int, n as int),
                self.next_id == orig.next_id,
                self.positions@ == positions_not_of(all.subrange(0, i as int), strategy_id),
                self.trades@ == orig.trades + closings(positions_of(all.subrange(0, i as int), strategy_id), close_price, close_time),
                count == positions_of(all.subrange(0, i as int), strategy_id).len(),
                count <= i,
                n == total,
                all == orig.positions,
                self@.wf(),
            decreases rest.len(),
        {
            let ghost prefix = all.subrange(0, i as int);
            assert(all.subrange(0, i + 1).drop_last() == prefix);
            assert(all.subrange(0, i + 1).last() == all[i as int]);
            let p = rest.remove(0);
            assert(p == all[i as int]);
            assert(orig.positions[i as int].wf());
            assert(orig.positions[i as int].id < orig.next_id);
            let ghost before_trades = self.trades@;
            assert(self@.trades == self.trades@);
            let ghost before_positions = self.positions@;
            assert(forall|k: int| 0 <= k < before_trades.len() ==> (#[trigger] before_trades[k]).wf());
            if p.strategy_id == strategy_id {
                let ghost before = self.trades@;
                self.trades.push(TradeTx { position: p, close_price, close_time });
                proof {
                    let ps = positions_of(prefix, strategy_id);
                    assert(closings(ps.push(p), close_price, close_time) =~= closings(ps, close_price, close_time).push(
                        TradeTx { position: p, close_price, close_time },
                    ));
                    assert(self.trades@ =~= orig.trades + closings(positions_of(all.subrange(0, i + 1), strategy_id), close_price, close_time));
                    assert forall|k: int| 0 <= k < self.trades@.len() implies (#[trigger] self.trades@[k]).wf() by {
                        if k < before.len() {
                            assert(self.trades@[k] == before[k]);
                        } else {
                            assert(p.wf());
                            assert(self.trades@[k] == TradeTx { position: p, close_price, close_time });
                        }
                    }
                }
                count = count + 1;
            } else {
                self.positions.push(p);
                assert forall|k: int| 0 <= k < self.positions@.len() implies (#[trigger] self.positions@[k]).wf() && self.positions@[k].id < self.next_id by {
                    if k < before_positions.len() {
                        assert(self.positions@[k] == before_positions[k]);
                    }
                }
            }
            assert(rest@ =~= all.subrange(i + 1, n as int));
            i = i + 1;
        }
        assert(all.subrange(0, n as int) == all);
        count
    }
}


/// Realized profits of trades, in order.
pub open spec fn profits_of(trades: Seq<TradeTx>) -> Seq<int> {
    trades.map_values(|t: TradeTx| t.profit())
}

/// Realized profit of each trade, in order.
pub fn trade_profits(trades: &Vec<TradeTx>) -> (r: Vec<i128>)
    requires
        forall|i: int| 0 <= i < trades@.len() ==> (#[trigger] trades@[i]).wf(),
    ensures
        r@.map_values(|x: i128| x as int) == profits_of(trades@),
{
    let mut r: Vec<i128> = Vec::new();
    let mut i: usize = 0;
    while i < trades.len()
        invariant
            forall|k: int| 0 <= k < trades@.len() ==> (#[trigger] trades@[k]).wf(),
            i <= trades.len(),
            r@.len() == i,
            forall|k: int| 0 <= k < i ==> r@[k] as int == #[trigger] trades@[k].profit(),
        decreases trades.len() - i,
    {
        r.push(trades[i].calc_profit());
        i = i + 1;
    }
    assert(r@.map_values(|x: i128| x as int) =~= profits_of(trades@));
    r
}

/// Trades of long positions.
pub open spec fn long_count(trades: Seq<TradeTx>) -> nat
    decreases trades.len(),
{
    if trades.len() == 0 {
        0
    } else {
        long_count(trades.drop_last()) + if trades.last().position.order_side == OrderSide::Long { 1nat } else { 0nat }
    }
}

/// Number of trades of long positions.
pub fn count_long(trades: &Vec<TradeTx>) -> (r: usize)
    ensures
        r == long_count(trades@),
{
    let mut n: usize = 0;
    let mut i: usize = 0;
    while i < trades.len()
        invariant
            i <= trades.len(),
            n == long_count(trades@.take(i as int)),
            n <= i,
        decreases trades.len() - i,
    {
        assert(trades@.take(i + 1).drop_last() =~= trades@.take(i as int));
        if trades[i].position.order_side == OrderSide::Long {
            n = n + 1;
        }
        i = i + 1;
    }
    assert(trades@.take(trades@.len() as int) =~= trades@);
    n
}

/// Trades of positions of strategy `sid`, in order.
pub open spec fn trades_of(s: Seq<TradeTx>, sid: StrategyId) -> Seq<TradeTx>
    decreases s.len(),
{
    if s.len() == 0 {
        Seq::empty()
    } else if s.last().position.strategy_id == sid {
        trades_of(s.drop_last(), sid).push(s.last())
    } else {
        trades_of(s.drop_last(), sid)
    }
}

impl Account {
    /// Copies of the closed trades of strategy `strategy_id`, in the order they were closed.
    pub fn strategy_trades(&self, strategy_id: StrategyId) -> (r: Vec<TradeTx>)
        requires
            self.wf(),
        ensures
            r@ == trades_of(self@.trades, strategy_id),
            forall|i: int| 0 <= i < r@.len() ==> (#[trigger] r@[i]).wf(),
    {
        let mut r: Vec<TradeTx> = Vec::new();
        let mut i: usize = 0;
        while i < self.trades.len()
            invariant
                self@.wf(),
                i <= self.trades.len(),
                r@ == trades_of(self.trades@.subrange(0, i as int), strategy_id),
                forall|k: int| 0 <= k < r@.len() ==> (#[trigger] r@[k]).wf(),
            decreases self.trades.len() - i,
        {
            assert(self.trades@.subrange(0, i + 1).drop_last() == self.trades@.subrange(0, i as int));
            if self.trades[i].position.strategy_id == strategy_id {
                assert(self@.trades[i as int].wf());
                r.push(self.trades[i].duplicate());
            }
            i = i + 1;
        }
        assert(self.trades@.subrange(0, self.trades@.len() as int) == self.trades@);
        r
    }
}

} // verus!
