use std::collections::HashMap;
use vstd::prelude::*;
use crate::account::{closings, new_position, positions_not_of, positions_of, Account, AccountModel, Position, TradeTx};
use crate::types::{price_ok, OrderSide, SignalMessage, StrategyId, StrategySettings};

verus! {

broadcast use vstd::std_specs::hash::group_hash_axioms;

/// What the execution policy does with one signal.
#[derive(Clone, Copy, Debug, PartialEq, Eq, Structural)]
pub enum SignalAction {
    /// The signal is dropped: its strategy is not registered or no usable price is known.
    Drop,
    /// Every open position of the strategy is closed (the signal reverses them).
    CloseAll,
    /// One new position is opened on the signal's side.
    Open,
    /// Nothing happens: the strategy already holds its cap of same-side positions.
    Hold,
}

/// The price a signal executes at: its own price when replayed, else the live price.
pub open spec fn trigger_price(signal: SignalMessage, live_price: Option<u64>) -> Option<u64> {
    if signal.is_back_test {
        Some(signal.price)
    } else {
        live_price
    }
}

/// The execution policy, given the strategy's open positions in ledger order.
pub open spec fn decide(
    open: Seq<Position>,
    side: OrderSide,
    settings: Option<StrategySettings>,
    trigger: Option<u64>,
) -> SignalAction {
    if settings.is_none() || trigger.is_none() || !price_ok(trigger.unwrap()) {
        SignalAction::Drop
    } else if open.len() > 0 && open.last().order_side != side {
        SignalAction::CloseAll
    } else if open.len() == 0 || open.len() < settings.unwrap().max_open_orders {
        SignalAction::Open
    } else {
        SignalAction::Hold
    }
}

/// The ledger after handling `signal` with the registered `settings`.
pub open spec fn apply_signal(
    a: AccountModel,
    settings: Option<StrategySettings>,
    signal: SignalMessage,
    live_price: Option<u64>,
) -> AccountModel {
    let trigger = trigger_price(signal, live_price);
    match decide(positions_of(a.positions, signal.strategy_id), signal.order_side, settings, trigger) {
        SignalAction::CloseAll => a.close_strategy(signal.strategy_id, trigger.unwrap(), signal.timestamp),
        SignalAction::Open => a.open(
            signal.strategy_id,
            signal.symbol,
            signal.order_side,
            settings.unwrap().margin_usd,
            settings.unwrap().leverage,
            None,
            trigger.unwrap(),
            signal.timestamp,
        ),
        _ => a,
    }
}

/// Registered settings of a strategy, if any.
pub open spec fn settings_for(m: Map<StrategyId, StrategySettings>, id: StrategyId) -> Option<StrategySettings> {
    if m.contains_key(id) {
        Some(m[id])
    } else {
        None
    }
}

/// The single authority that turns signals into ledger changes.
pub struct SignalManager {
    active_strategy_settings: HashMap<StrategyId, StrategySettings>,
}

impl View for SignalManager {
    type V = Map<StrategyId, StrategySettings>;

    closed spec fn view(&self) -> Map<StrategyId, StrategySettings> {
        self.active_strategy_settings@
    }
}

impl SignalManager {
    /// Every registered setting stays within the ledger's ranges.
    pub open spec fn wf(&self) -> bool {
        forall|id: StrategyId| #[trigger] self@.contains_key(id) ==> self@[id].wf()
    }

    /// A manager with no registered strategy.
    pub fn new() -> (r: SignalManager)
        ensures
            r@ == Map::<StrategyId, StrategySettings>::empty(),
            r.wf(),
    {
        SignalManager { active_strategy_settings: HashMap::new() }
    }

    /// Registers (or replaces) the settings of a strategy.
    pub fn add_strategy_settings(&mut self, strategy_id: StrategyId, settings: StrategySettings)
        requires
            old(self).wf(),
            settings.wf(),
        ensures
            final(self)@ == old(self)@.insert(strategy_id, settings),
            final(self).wf(),
    {
        self.active_strategy_settings.insert(strategy_id, settings);
        assert forall|id: StrategyId| #[trigger] self@.contains_key(id) implies self@[id].wf() by {
            if id != strategy_id {
                assert(old(self)@.contains_key(id));
            }
        }
    }

    /// Forgets the settings of a strategy; its later signals are dropped.
    pub fn remove_strategy_settings(&mut self, strategy_id: StrategyId)
        requires
            old(self).wf(),
        ensures
            final(self)@ == old(self)@.remove(strategy_id),
            final(self).wf(),
    {
        self.active_strategy_settings.remove(&strategy_id);
        assert forall|id: StrategyId| #[trigger] self@.contains_key(id) implies self@[id].wf() by {
            assert(old(self)@.contains_key(id));
        }
    }

    /// The registered settings of a strategy.
    pub fn settings(&self, strategy_id: StrategyId) -> (r: Option<StrategySettings>)
        ensures
            r == settings_for(self@, strategy_id),
    {
        match self.active_strategy_settings.get(&strategy_id) {
            Some(s) => Some(*s),
            None => None,
        }
    }

    /// Applies one signal to the ledger. A replayed signal executes at its own
    /// price, a live one at `live_price` (the last traded price, if known).
    pub fn handle_signal(&self, account: &mut Account, signal: &SignalMessage, live_price: Option<u64>) -> (r: SignalAction)
        requires
            self.wf(),
            old(account).wf(),
            old(account)@.next_id < u64::MAX,
        ensures
            final(account).wf(),
            r == decide(
                positions_of(old(account)@.positions, signal.strategy_id),
                signal.order_side,
                settings_for(self@, signal.strategy_id),
                trigger_price(*signal, live_price),
            ),
            final(account)@ == apply_signal(old(account)@, settings_for(self@, signal.strategy_id), *signal, live_price),
    {
        let active_positions = account.strategy_open_positions(signal.strategy_id);
        let trigger = if signal.is_back_test {
            Some(signal.price)
        } else {
            live_price
        };
        let settings = match self.settings(signal.strategy_id) {
            Some(s) => s,
            None => return SignalAction::Drop,
        };
        let price = match trigger {
            Some(p) => p,
            None => return SignalAction::Drop,
        };
        if price == 0 || price > crate::types::MAX_PRICE {
            return SignalAction::Drop;
        }
        let n = active_positions.len();
        if n > 0 && active_positions[n - 1].order_side != signal.order_side {
            account.close_strategy_positions(signal.strategy_id, price, signal.timestamp);
            SignalAction::CloseAll
        } else if n == 0 || n < settings.max_open_orders as usize {
            account.open_position(
                signal.strategy_id,
                &signal.symbol,
                settings.margin_usd,
                settings.leverage,
                signal.order_side,
                None,
                price,
                signal.timestamp,
            );
            SignalAction::Open
        } else {
            SignalAction::Hold
        }
    }
}

/// Appending a position of the strategy appends it to the strategy's view.
pub proof fn lemma_positions_of_push(s: Seq<Position>, p: Position, sid: StrategyId)
    ensures
        positions_of(s.push(p), sid) == if p.strategy_id == sid {
            positions_of(s, sid).push(p)
        } else {
            positions_of(s, sid)
        },
{
    assert(s.push(p).drop_last() == s);
}

/// After closing a strategy's positions none of them remain.
pub proof fn lemma_closed_strategy_is_flat(s: Seq<Position>, sid: StrategyId)
    ensures
        positions_of(positions_not_of(s, sid), sid) == Seq::<Position>::empty(),
    decreases s.len(),
{
    if s.len() > 0 {
        lemma_closed_strategy_is_flat(s.drop_last(), sid);
        if s.last().strategy_id != sid {
            lemma_positions_of_push(positions_not_of(s.drop_last(), sid), s.last(), sid);
        }
    }
}

/// Flip on reversal: while a strategy holds exactly one long position, a short
/// signal closes it as exactly one trade at the trigger price and leaves the
/// strategy flat; the next short signal opens exactly one short position.
pub proof fn lemma_flip_policy(
    a: AccountModel,
    settings: StrategySettings,
    p: Position,
    first: SignalMessage,
    first_live: Option<u64>,
    second: SignalMessage,
    second_live: Option<u64>,
)
    requires
        a.wf(),
        a.next_id < u64::MAX,
        settings.wf(),
        positions_of(a.positions, first.strategy_id) == seq![p],
        p.order_side == OrderSide::Long,
        first.order_side == OrderSide::Short,
        second.order_side == OrderSide::Short,
        second.strategy_id == first.strategy_id,
        trigger_price(first, first_live) is Some,
        price_ok(trigger_price(first, first_live).unwrap()),
        trigger_price(second, second_live) is Some,
        price_ok(trigger_price(second, second_live).unwrap()),
    ensures
        ({
            let sid = first.strategy_id;
            let b = apply_signal(a, Some(settings), first, first_live);
            let c = apply_signal(b, Some(settings), second, second_live);
            &&& b.trades == a.trades.push(
                TradeTx { position: p, close_price: trigger_price(first, first_live).unwrap(), close_time: first.timestamp },
            )
            &&& positions_of(b.positions, sid).len() == 0
            &&& c.trades == b.trades
            &&& positions_of(c.positions, sid).len() == 1
            &&& positions_of(c.positions, sid)[0].order_side == OrderSide::Short
        }),
{
    let sid = first.strategy_id;
    let price = trigger_price(first, first_live).unwrap();
    let b = apply_signal(a, Some(settings), first, first_live);
    assert(seq![p].last() == p);
    assert(b == a.close_strategy(sid, price, first.timestamp));
    assert(closings(seq![p], price, first.timestamp) =~= seq![TradeTx { position: p, close_price: price, close_time: first.timestamp }]);
    lemma_closed_strategy_is_flat(a.positions, sid);
    let np = new_position(
        b.next_id,
        sid,
        second.symbol,
        second.order_side,
        settings.margin_usd,
        settings.leverage,
        None,
        trigger_price(second, second_live).unwrap(),
        second.timestamp,
    );
    lemma_positions_of_push(b.positions, np, sid);
}

/// Pyramiding stops at the cap: from a flat strategy whose cap is two open
/// orders, three same-side signals open two positions and the third is a no-op.
pub proof fn lemma_pyramiding_cap(
    a: AccountModel,
    settings: StrategySettings,
    s1: SignalMessage,
    l1: Option<u64>,
    s2: SignalMessage,
    l2: Option<u64>,
    s3: SignalMessage,
    l3: Option<u64>,
)
    requires
        a.wf(),
        a.next_id + 2 < u64::MAX,
        settings.wf(),
        settings.max_open_orders == 2,
        positions_of(a.positions, s1.strategy_id).len() == 0,
        s2.strategy_id == s1.strategy_id,
        s3.strategy_id == s1.strategy_id,
        s2.order_side == s1.order_side,
        s3.order_side == s1.order_side,
        trigger_price(s1, l1) is Some && price_ok(trigger_price(s1, l1).unwrap()),
        trigger_price(s2, l2) is Some && price_ok(trigger_price(s2, l2).unwrap()),
        trigger_price(s3, l3) is Some && price_ok(trigger_price(s3, l3).unwrap()),
    ensures
        ({
            let sid = s1.strategy_id;
            let b = apply_signal(a, Some(settings), s1, l1);
            let c = apply_signal(b, Some(settings), s2, l2);
            let d = apply_signal(c, Some(settings), s3, l3);
            &&& positions_of(b.positions, sid).len() == 1
            &&& positions_of(c.positions, sid).len() == 2
            &&& decide(positions_of(c.positions, sid), s3.order_side, Some(settings), trigger_price(s3, l3)) == SignalAction::Hold
            &&& d == c
        }),
{
    let sid = s1.strategy_id;
    let np1 = new_position(a.next_id, sid, s1.symbol, s1.order_side, settings.margin_usd, settings.leverage, None, trigger_price(s1, l1).unwrap(), s1.timestamp);
    lemma_positions_of_push(a.positions, np1, sid);
    let b = apply_signal(a, Some(settings), s1, l1);
    assert(positions_of(b.positions, sid) == seq![np1]);
    assert(seq![np1].last() == np1);
    let np2 = new_position(b.next_id, sid, s2.symbol, s2.order_side, settings.margin_usd, settings.leverage, None, trigger_price(s2, l2).unwrap(), s2.timestamp);
    lemma_positions_of_push(b.positions, np2, sid);
    let c = apply_signal(b, Some(settings), s2, l2);
    assert(positions_of(c.positions, sid) == seq![np1, np2]);
    assert(seq![np1, np2].last() == np2);
}

} // verus!
