use std::collections::BTreeMap;
use vstd::prelude::*;
use vstd::std_specs::cmp::OrdSpec;
use vstd::std_specs::iter::IteratorSpec;
use crate::types::OrderSide;

verus! {

/// Bookkeeping of the aggregated trade record of one symbol.
#[derive(Clone, Debug, PartialEq, Eq)]
pub struct MarketTradeDataMeta {
    pub symbol: String,
    pub len: u64,
    /// Milliseconds since the Unix epoch.
    pub last_update: u64,
}

impl MarketTradeDataMeta {
    /// An empty record of `symbol`, last updated at `now_ms`.
    pub fn new(symbol: &str, now_ms: u64) -> (r: MarketTradeDataMeta)
        ensures
            r.symbol@ == symbol@,
            r.len == 0,
            r.last_update == now_ms,
    {
        MarketTradeDataMeta { symbol: symbol.to_string(), len: 0, last_update: now_ms }
    }
}


/// Milliseconds in one second.
pub const SEC_AS_MILI: u64 = 1000;

/// One aggregated market trade. Quantity and price are fixed-point integers.
#[derive(Clone, Debug, PartialEq, Eq)]
pub struct MarketTrade {
    /// A 128-bit identifier (a UUID's bits).
    pub id: u128,
    pub symbol: String,
    pub timestamp: u64,
    pub qty: u64,
    pub price: u64,
    pub order_side: OrderSide,
}

impl MarketTrade {
    /// An exact copy of the trade.
    pub fn duplicate(&self) -> (r: MarketTrade)
        ensures
            r == *self,
    {
        MarketTrade {
            id: self.id,
            symbol: self.symbol.clone(),
            timestamp: self.timestamp,
            qty: self.qty,
            price: self.price,
            order_side: self.order_side,
        }
    }
}

pub open spec fn side_rank(s: OrderSide) -> int {
    match s {
        OrderSide::Long => 0,
        OrderSide::Short => 1,
    }
}

/// Map key of a trade: its second and side, as one integer ordered by timestamp, then side.
pub open spec fn trade_key(t: MarketTrade) -> u128 {
    (t.timestamp as int * 2 + side_rank(t.order_side)) as u128
}

/// `a + b`, or `u64::MAX` when that overflows.
pub open spec fn sat_add(a: u64, b: u64) -> u64 {
    if a + b > u64::MAX { u64::MAX } else { (a + b) as u64 }
}

/// The stored trade after merging `t` into it: quantities add up, prices average.
pub open spec fn merged(e: MarketTrade, t: MarketTrade) -> MarketTrade {
    MarketTrade { qty: sat_add(e.qty, t.qty), price: ((e.price + t.price) / 2) as u64, ..e }
}

/// `t` with its timestamp floored to the second.
pub open spec fn floored(t: MarketTrade) -> MarketTrade {
    MarketTrade { timestamp: (t.timestamp - t.timestamp % 1000) as u64, ..t }
}

/// Keys in strictly increasing order.
pub open spec fn increasing(keys: Seq<u128>) -> bool {
    forall|i: int, j: int| 0 <= i < j < keys.len() ==> keys[i] < keys[j]
}

/// Trades of one symbol aggregated per second and side, keyed by [`trade_key`].
pub struct MarketTradeData {
    pub meta: MarketTradeDataMeta,
    pub trades: BTreeMap<u128, MarketTrade>,
}

impl View for MarketTradeData {
    type V = Map<u128, MarketTrade>;

    open spec fn view(&self) -> Map<u128, MarketTrade> {
        self.trades@
    }
}

impl MarketTradeData {
    /// Each trade is stored under its own key.
    pub open spec fn wf(&self) -> bool {
        forall|k: u128| #[trigger] self@.contains_key(k) ==> trade_key(self@[k]) == k
    }

    /// An empty record of `symbol`, last updated at `now_ms`.
    pub fn new(symbol: &str, now_ms: u64) -> (r: MarketTradeData)
        ensures
            r.wf(),
            r@ == Map::<u128, MarketTrade>::empty(),
            r.meta.symbol@ == symbol@,
            r.meta.len == 0,
            r.meta.last_update == now_ms,
    {
        MarketTradeData { meta: MarketTradeDataMeta::new(symbol, now_ms), trades: BTreeMap::new() }
    }

    /// Floors the trade's timestamp to the second, then merges it into the stored
    /// trade of the same second and side (quantities add up, saturating; prices
    /// average, rounding down) or stores it.
    pub fn add_trade(&mut self, trade: &mut MarketTrade)
        requires
            old(self).wf(),
        ensures
            final(self).wf(),
            *final(trade) == floored(*old(trade)),
            final(self).meta == old(self).meta,
            ({
                let t = *final(trade);
                let k = trade_key(t);
                final(self)@ == if old(self)@.contains_key(k) {
                    old(self)@.insert(k, merged(old(self)@[k], t))
                } else {
                    old(self)@.insert(k, t)
                }
            }),
    {
        trade.timestamp = trade.timestamp - trade.timestamp % SEC_AS_MILI;
        let rank: u128 = match trade.order_side {
            OrderSide::Long => 0,
            OrderSide::Short => 1,
        };
        let key = trade.timestamp as u128 * 2 + rank;
        let stored = match self.trades.get(&key) {
            Some(e) => {
                let mut m = e.duplicate();
                m.qty = if m.qty > u64::MAX - trade.qty { u64::MAX } else { m.qty + trade.qty };
                m.price = ((m.price as u128 + trade.price as u128) / 2) as u64;
                m
            },
            None => trade.duplicate(),
        };
        let ghost before = self@;
        self.trades.insert(key, stored);
        assert forall|k: u128| #[trigger] self@.contains_key(k) implies trade_key(self@[k]) == k by {
            if k != key {
                assert(before.contains_key(k));
            }
        }
    }

    /// Copies of the stored trades, in key order.
    pub fn get_trades(&self) -> (r: Vec<MarketTrade>)
        ensures
            exists|keys: Seq<u128>| {
                &&& increasing(keys)
                &&& keys.to_set() == self@.dom()
                &&& r@ == keys.map_values(|k: u128| self@[k])
            },
    {
        broadcast use vstd::std_specs::btree::axiom_increasing_seq_meaning, vstd::laws_cmp::group_laws_cmp;
        let mut r: Vec<MarketTrade> = Vec::new();
        let values = self.trades.values();
        let ghost start = values;
        let ghost keys = choose|keys: Seq<u128>| {
            &&& vstd::std_specs::btree::increasing_seq(keys)
            &&& keys.to_set() == self@.dom()
            &&& keys.no_duplicates()
            &&& IteratorSpec::remaining(&start) == keys.map(|i: int, k: u128| &self@[k])
        };
        for t in it: values
            invariant
                r@.len() == it.index(),
                it.seq() == IteratorSpec::remaining(&start),
                forall|i: int| 0 <= i < it.index() ==> r@[i] == *it.seq()[i],
        {
            r.push(t.duplicate());
        }
        proof {
            assert(r@ =~= keys.map_values(|k: u128| self@[k]));
            assert forall|i: int, j: int| 0 <= i < j < keys.len() implies keys[i] < keys[j] by {
                assert(keys[i].cmp_spec(&keys[j]) is Less);
            }
        }
        r
    }

    /// Forgets every stored trade.
    pub fn clear_trades(&mut self)
        ensures
            final(self).wf(),
            final(self)@ == Map::<u128, MarketTrade>::empty(),
            final(self).meta == (MarketTradeDataMeta { len: 0, ..old(self).meta }),
    {
        self.trades = BTreeMap::new();
        self.meta.len = 0;
    }
}

} // verus!
