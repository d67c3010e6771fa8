use vstd::prelude::*;
use crate::types::Kline;

verus! {

/// Rows of one symbol and interval, oldest first, with strictly increasing open times.
pub open spec fn rows_ordered(s: Seq<Kline>) -> bool {
    forall|i: int, j: int| 0 <= i < j < s.len() ==> s[i].open_time < s[j].open_time
}

/// Saving one bar: a bar with the open time of the last row replaces that row (the
/// bar was still in progress); any other bar is appended.
pub open spec fn upsert(s: Seq<Kline>, k: Kline) -> Seq<Kline> {
    if s.len() > 0 && s.last().open_time == k.open_time {
        s.drop_last().push(k)
    } else {
        s.push(k)
    }
}

/// Rows whose open time lies in `from..=to`, in order.
pub open spec fn in_range(s: Seq<Kline>, from: u64, to: u64) -> Seq<Kline>
    decreases s.len(),
{
    if s.len() == 0 {
        Seq::empty()
    } else if from <= s.last().open_time && s.last().open_time <= to {
        in_range(s.drop_last(), from, to).push(s.last())
    } else {
        in_range(s.drop_last(), from, to)
    }
}

/// Saves one bar into the rows of its symbol and interval.
pub fn upsert_kline(rows: &mut Vec<Kline>, kline: Kline)
    ensures
        final(rows)@ == upsert(old(rows)@, kline),
{
    let n = rows.len();
    if n > 0 && rows[n - 1].open_time == kline.open_time {
        rows.pop();
        rows.push(kline);
        assert(rows@ =~= upsert(old(rows)@, kline));
    } else {
        rows.push(kline);
    }
}

/// Saves bars in order.
pub fn upsert_klines(rows: &mut Vec<Kline>, klines: &Vec<Kline>)
    ensures
        final(rows)@ == upsert_all(old(rows)@, klines@),
{
    let mut i: usize = 0;
    while i < klines.len()
        invariant
            i <= klines.len(),
            rows@ == upsert_all(old(rows)@, klines@.take(i as int)),
        decreases klines.len() - i,
    {
        assert(klines@.take(i + 1).drop_last() =~= klines@.take(i as int));
        upsert_kline(rows, klines[i].duplicate());
        i = i + 1;
    }
    assert(klines@.take(klines@.len() as int) =~= klines@);
}

/// Saving bars one after the other.
pub open spec fn upsert_all(s: Seq<Kline>, ks: Seq<Kline>) -> Seq<Kline>
    decreases ks.len(),
{
    if ks.len() == 0 {
        s
    } else {
        upsert(upsert_all(s, ks.drop_last()), ks.last())
    }
}

/// Copies of the rows whose open time lies in `from_ts..=to_ts`, in order.
pub fn klines_in_range(rows: &Vec<Kline>, from_ts: u64, to_ts: u64) -> (r: Vec<Kline>)
    ensures
        r@ == in_range(rows@, from_ts, to_ts),
{
    let mut r: Vec<Kline> = Vec::new();
    let mut i: usize = 0;
    while i < rows.len()
        invariant
            i <= rows.len(),
            r@ == in_range(rows@.take(i as int), from_ts, to_ts),
        decreases rows.len() - i,
    {
        assert(rows@.take(i + 1).drop_last() =~= rows@.take(i as int));
        if from_ts <= rows[i].open_time && rows[i].open_time <= to_ts {
            r.push(rows[i].duplicate());
        }
        i = i + 1;
    }
    assert(rows@.take(rows@.len() as int) =~= rows@);
    r
}

proof fn lemma_in_range_before(s: Seq<Kline>, t: u64)
    requires
        forall|i: int| 0 <= i < s.len() ==> s[i].open_time < t,
    ensures
        in_range(s, t, t) == Seq::<Kline>::empty(),
    decreases s.len(),
{
    if s.len() > 0 {
        lemma_in_range_before(s.drop_last(), t);
    }
}

/// Storage idempotence: on ordered rows, saving a bar no older than the last row
/// and loading its open time returns exactly that bar; saving another bar with the
/// same open time overwrites it instead of adding a row.
pub proof fn lemma_save_then_load(s: Seq<Kline>, k: Kline, again: Kline)
    requires
        rows_ordered(s),
        s.len() > 0 ==> s.last().open_time <= k.open_time,
        again.open_time == k.open_time,
    ensures
        in_range(upsert(s, k), k.open_time, k.open_time) == seq![k],
        upsert(upsert(s, k), again).len() == upsert(s, k).len(),
        upsert(upsert(s, k), again).last() == again,
        in_range(upsert(upsert(s, k), again), k.open_time, k.open_time) == seq![again],
        rows_ordered(upsert(s, k)),
{
    let t = k.open_time;
    let u = upsert(s, k);
    let base = if s.len() > 0 && s.last().open_time == t { s.drop_last() } else { s };
    assert(u == base.push(k));
    assert forall|i: int| 0 <= i < base.len() implies base[i].open_time < t by {
        if s.len() > 0 && s.last().open_time == t {
            assert(base[i] == s[i]);
            assert(s[i].open_time < s[s.len() - 1].open_time);
        } else if s.len() > 0 {
            assert(s[i].open_time <= s[s.len() - 1].open_time);
            if i < s.len() - 1 {
                assert(s[i].open_time < s[s.len() - 1].open_time);
            }
        }
    }
    lemma_in_range_before(base, t);
    assert(u.drop_last() == base);
    assert(seq![k] =~= Seq::<Kline>::empty().push(k));
    assert(upsert(u, again) == base.push(again));
    assert(base.push(again).drop_last() == base);
    assert(seq![again] =~= Seq::<Kline>::empty().push(again));
    assert forall|i: int, j: int| 0 <= i < j < u.len() implies u[i].open_time < u[j].open_time by {
        if j < u.len() - 1 {
            assert(u[i] == base[i] && u[j] == base[j]);
            if s.len() > 0 && s.last().open_time == t {
                assert(base[i] == s[i] && base[j] == s[j]);
            }
        }
    }
}

} // verus!
