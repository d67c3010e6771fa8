use vstd::prelude::*;
use crate::account::div_toward_zero;
use crate::types::{price_ok, Kline, MAX_PRICE};

verus! {

/// Longest period an indicator may be configured with.
pub const MAX_PERIOD: u64 = 10_000;

/// Close prices of a run of bars.
pub open spec fn closes(s: Seq<Kline>) -> Seq<u64> {
    s.map_values(|k: Kline| k.close)
}

/// Every bar closes at a price the ledger can trade at.
pub open spec fn closes_ok(s: Seq<Kline>) -> bool {
    forall|i: int| 0 <= i < s.len() ==> price_ok(#[trigger] s[i].close)
}

/// The last `n` values.
pub open spec fn last_n(s: Seq<u64>, n: int) -> Seq<u64> {
    s.subrange(s.len() - n, s.len() as int)
}

pub open spec fn sum_u(s: Seq<u64>) -> int
    decreases s.len(),
{
    if s.len() == 0 {
        0
    } else {
        sum_u(s.drop_last()) + s.last()
    }
}

pub open spec fn sum_sq(s: Seq<u64>) -> int
    decreases s.len(),
{
    if s.len() == 0 {
        0
    } else {
        sum_sq(s.drop_last()) + s.last() * s.last()
    }
}

/// Sum of the rises between consecutive values.
pub open spec fn gains(s: Seq<u64>) -> int
    decreases s.len(),
{
    if s.len() < 2 {
        0
    } else {
        let d = s.last() - s[s.len() - 2];
        gains(s.drop_last()) + if d > 0 { d } else { 0 }
    }
}

/// Sum of the falls between consecutive values.
pub open spec fn losses(s: Seq<u64>) -> int
    decreases s.len(),
{
    if s.len() < 2 {
        0
    } else {
        let d = s[s.len() - 2] - s.last();
        losses(s.drop_last()) + if d > 0 { d } else { 0 }
    }
}

/// One step of an exponential moving average with smoothing `2 / (period + 1)`,
/// rounding the adjustment toward zero.
pub open spec fn ema_step(prev: int, x: int, period: int) -> int {
    prev + div_toward_zero(2 * (x - prev), period + 1)
}

proof fn lemma_adjust_bound(d: int, p: int)
    requires
        d >= 0,
        p >= 1,
    ensures
        0 <= (2 * d) / (p + 1) <= d,
{
    assert((2 * d) / (p + 1) <= (2 * d) / 2) by (nonlinear_arith)
        requires d >= 0, p >= 1;
    assert(0 <= (2 * d) / (p + 1)) by (nonlinear_arith)
        requires d >= 0, p >= 1;
}

/// Next value of an exponential moving average of prices.
pub fn next_ema(prev: u64, x: u64, period: u64) -> (r: u64)
    requires
        prev <= MAX_PRICE,
        x <= MAX_PRICE,
        period >= 1,
        period <= MAX_PERIOD,
    ensures
        r as int == ema_step(prev as int, x as int, period as int),
        r <= MAX_PRICE,
        (prev <= r <= x) || (x <= r <= prev),
{
    if x >= prev {
        let d = x - prev;
        proof { lemma_adjust_bound(d as int, period as int); }
        prev + (2 * d) / (period + 1)
    } else {
        let d = prev - x;
        proof { lemma_adjust_bound(d as int, period as int); }
        assert(2 * (x - prev) == -(2 * d));
        prev - (2 * d) / (period + 1)
    }
}

/// Next value of an exponential moving average of signed values.
pub fn next_ema_signed(prev: i64, x: i64, period: u64) -> (r: i64)
    requires
        -(MAX_PRICE as int) <= prev <= MAX_PRICE,
        -(MAX_PRICE as int) <= x <= MAX_PRICE,
        period >= 1,
        period <= MAX_PERIOD,
    ensures
        r as int == ema_step(prev as int, x as int, period as int),
        (prev <= r <= x) || (x <= r <= prev),
{
    if x >= prev {
        let d = (x - prev) as u64;
        proof { lemma_adjust_bound(d as int, period as int); }
        let a = ((2 * d) / (period + 1)) as i64;
        prev + a
    } else {
        let d = (prev - x) as u64;
        proof { lemma_adjust_bound(d as int, period as int); }
        assert(2 * (x - prev) == -(2 * d));
        let a = ((2 * d) / (period + 1)) as i64;
        prev - a
    }
}

proof fn lemma_window_step(s: Seq<u64>, start: int, j: int)
    requires
        0 <= start <= j < s.len(),
    ensures
        s.subrange(start, j + 1).drop_last() == s.subrange(start, j),
        s.subrange(start, j + 1).last() == s[j],
{
    assert(s.subrange(start, j + 1).drop_last() =~= s.subrange(start, j));
}

/// Sum of the last `n` closes.
pub fn window_sum(points: &Vec<Kline>, n: usize) -> (r: u128)
    requires
        closes_ok(points@),
        n <= points.len(),
        n <= MAX_PERIOD,
    ensures
        r as int == sum_u(last_n(closes(points@), n as int)),
        r <= n * MAX_PRICE,
{
    let ghost s = closes(points@);
    let start = points.len() - n;
    let mut acc: u128 = 0;
    let mut j: usize = start;
    while j < points.len()
        invariant
            s == closes(points@),
            closes_ok(points@),
            start == points.len() - n,
            n <= MAX_PERIOD,
            start <= j <= points.len(),
            acc as int == sum_u(s.subrange(start as int, j as int)),
            acc <= (j - start) * MAX_PRICE,
        decreases points.len() - j,
    {
        proof { lemma_window_step(s, start as int, j as int); }
        assert(price_ok(points@[j as int].close));
        acc = acc + points[j].close as u128;
        j = j + 1;
    }
    acc
}

/// Sum of the squares of the last `n` closes.
pub fn window_sum_sq(points: &Vec<Kline>, n: usize) -> (r: u128)
    requires
        closes_ok(points@),
        n <= points.len(),
        n <= MAX_PERIOD,
    ensures
        r as int == sum_sq(last_n(closes(points@), n as int)),
        r <= n * 1_000_000_000_000_000_000_000_000,
{
    let ghost s = closes(points@);
    let start = points.len() - n;
    let mut acc: u128 = 0;
    let mut j: usize = start;
    while j < points.len()
        invariant
            s == closes(points@),
            closes_ok(points@),
            start == points.len() - n,
            n <= MAX_PERIOD,
            start <= j <= points.len(),
            acc as int == sum_sq(s.subrange(start as int, j as int)),
            acc <= (j - start) * 1_000_000_000_000_000_000_000_000,
        decreases points.len() - j,
    {
        proof { lemma_window_step(s, start as int, j as int); }
        let c = points[j].close as u128;
        assert(price_ok(points@[j as int].close));
        assert(c * c <= 1_000_000_000_000_000_000_000_000) by (nonlinear_arith)
            requires c <= 1_000_000_000_000u128;
        assert((j - start) * 1_000_000_000_000_000_000_000_000 + 1_000_000_000_000_000_000_000_000 == (j + 1 - start) * 1_000_000_000_000_000_000_000_000);
        acc = acc + c * c;
        j = j + 1;
    }
    acc
}

/// Total rises and total falls between consecutive closes over the last `n + 1` closes.
pub fn window_gains_losses(points: &Vec<Kline>, n: usize) -> (r: (u128, u128))
    requires
        closes_ok(points@),
        n < points.len(),
        n <= MAX_PERIOD,
    ensures
        r.0 as int == gains(last_n(closes(points@), n + 1)),
        r.1 as int == losses(last_n(closes(points@), n + 1)),
{
    let ghost s = closes(points@);
    let start = points.len() - n - 1;
    let mut g: u128 = 0;
    let mut l: u128 = 0;
    let mut j: usize = start + 1;
    proof {
        assert(s.subrange(start as int, start + 1).len() == 1);
    }
    while j < points.len()
        invariant
            s == closes(points@),
            closes_ok(points@),
            start == points.len() - n - 1,
            n <= MAX_PERIOD,
            start < j <= points.len(),
            g as int == gains(s.subrange(start as int, j as int)),
            l as int == losses(s.subrange(start as int, j as int)),
            g <= (j - start) * MAX_PRICE,
            l <= (j - start) * MAX_PRICE,
        decreases points.len() - j,
    {
        proof {
            lemma_window_step(s, start as int, j as int);
            let w = s.subrange(start as int, j + 1);
            assert(w[w.len() - 2] == s[j - 1]);
        }
        assert(price_ok(points@[j as int].close));
        assert(price_ok(points@[j - 1].close));
        let cur = points[j].close;
        let prev = points[j - 1].close;
        if cur > prev {
            g = g + (cur - prev) as u128;
        } else {
            l = l + (prev - cur) as u128;
        }
        j = j + 1;
    }
    (g, l)
}


/// Each value is above every earlier one.
pub open spec fn strictly_increasing(s: Seq<u64>) -> bool {
    forall|i: int, j: int| 0 <= i < j < s.len() ==> s[i] < s[j]
}

pub proof fn lemma_sum_concat(x: Seq<u64>, y: Seq<u64>)
    ensures
        sum_u(x + y) == sum_u(x) + sum_u(y),
    decreases y.len(),
{
    if y.len() == 0 {
        assert(x + y =~= x);
    } else {
        lemma_sum_concat(x, y.drop_last());
        assert((x + y).drop_last() =~= x + y.drop_last());
    }
}

pub proof fn lemma_sum_lower(x: Seq<u64>, m: int)
    requires
        forall|i: int| 0 <= i < x.len() ==> x[i] >= m,
    ensures
        sum_u(x) >= x.len() * m,
    decreases x.len(),
{
    if x.len() > 0 {
        lemma_sum_lower(x.drop_last(), m);
        assert((x.len() - 1) * m + m == x.len() * m) by (nonlinear_arith);
    }
}

pub proof fn lemma_sum_upper(x: Seq<u64>, m: int)
    requires
        forall|i: int| 0 <= i < x.len() ==> x[i] <= m,
    ensures
        sum_u(x) <= x.len() * m,
    decreases x.len(),
{
    if x.len() > 0 {
        lemma_sum_upper(x.drop_last(), m);
        assert((x.len() - 1) * m + m == x.len() * m) by (nonlinear_arith);
    }
}

/// Over strictly increasing values, the mean of the last `a` exceeds the mean of
/// the last `b` whenever `a < b`.
pub proof fn lemma_shorter_window_higher_mean(s: Seq<u64>, a: int, b: int)
    requires
        strictly_increasing(s),
        1 <= a < b <= s.len(),
    ensures
        sum_u(last_n(s, a)) * b > sum_u(last_n(s, b)) * a,
{
    let t = last_n(s, b);
    let rest = t.take(b - a);
    let top = last_n(s, a);
    assert(t =~= rest + top);
    lemma_sum_concat(rest, top);
    let m = top[0] as int;
    assert forall|i: int| 0 <= i < top.len() implies top[i] >= m by {
        if i > 0 {
            assert(top[i] == s[s.len() - a + i]);
            assert(top[0] == s[s.len() - a]);
        }
    }
    assert forall|i: int| 0 <= i < rest.len() implies rest[i] <= m - 1 by {
        assert(rest[i] == s[s.len() - b + i]);
        assert(top[0] == s[s.len() - a]);
    }
    lemma_sum_lower(top, m);
    lemma_sum_upper(rest, m - 1);
    let sa = sum_u(top);
    let sr = sum_u(rest);
    assert(sa * b > (sr + sa) * a) by (nonlinear_arith)
        requires
            sa >= a * m,
            sr <= (b - a) * (m - 1),
            1 <= a < b;
}


/// The last `n` values, or all of them when there are fewer.
pub open spec fn window(s: Seq<u64>, n: int) -> Seq<u64> {
    last_n(s, if s.len() < n { s.len() as int } else { n })
}

pub proof fn lemma_sum_sq_concat(x: Seq<u64>, y: Seq<u64>)
    ensures
        sum_sq(x + y) == sum_sq(x) + sum_sq(y),
    decreases y.len(),
{
    if y.len() == 0 {
        assert(x + y =~= x);
    } else {
        lemma_sum_sq_concat(x, y.drop_last());
        assert((x + y).drop_last() =~= x + y.drop_last());
    }
}

/// Rise from `a` to `b`, or zero.
pub open spec fn rise(a: u64, b: u64) -> int {
    if b > a { b - a } else { 0 }
}

/// Fall from `a` to `b`, or zero.
pub open spec fn fall(a: u64, b: u64) -> int {
    if a > b { a - b } else { 0 }
}

/// Dropping the first value drops the first move.
pub proof fn lemma_moves_drop_first(t: Seq<u64>)
    requires
        t.len() >= 2,
    ensures
        gains(t) == rise(t[0], t[1]) + gains(t.subrange(1, t.len() as int)),
        losses(t) == fall(t[0], t[1]) + losses(t.subrange(1, t.len() as int)),
    decreases t.len(),
{
    let v = t.subrange(1, t.len() as int);
    if t.len() > 2 {
        let u = t.drop_last();
        lemma_moves_drop_first(u);
        assert(u[0] == t[0] && u[1] == t[1]);
        assert(u.subrange(1, u.len() as int) =~= v.drop_last());
        assert(v[v.len() - 2] == t[t.len() - 2]);
        assert(v.last() == t.last());
        assert(gains(v) == gains(v.drop_last()) + rise(t[t.len() - 2], t.last()));
        assert(losses(v) == losses(v.drop_last()) + fall(t[t.len() - 2], t.last()));
        assert(gains(t) == gains(u) + rise(t[t.len() - 2], t.last()));
        assert(losses(t) == losses(u) + fall(t[t.len() - 2], t.last()));
    } else {
        assert(v.len() == 1);
        assert(gains(v) == 0 && losses(v) == 0);
        assert(t.drop_last().len() == 1);
        assert(gains(t.drop_last()) == 0 && losses(t.drop_last()) == 0);
        assert(t[t.len() - 2] == t[0] && t.last() == t[1]);
    }
}

/// Dropping the first value drops it from the sums.
pub proof fn lemma_sums_drop_first(t: Seq<u64>)
    requires
        t.len() >= 1,
    ensures
        sum_u(t) == t[0] + sum_u(t.subrange(1, t.len() as int)),
        sum_sq(t) == t[0] * t[0] + sum_sq(t.subrange(1, t.len() as int)),
{
    let rest = t.subrange(1, t.len() as int);
    assert(t =~= seq![t[0]] + rest);
    lemma_sum_concat(seq![t[0]], rest);
    lemma_sum_sq_concat(seq![t[0]], rest);
    assert(seq![t[0]].drop_last() =~= Seq::<u64>::empty());
    assert(sum_u(seq![t[0]]) == sum_u(Seq::<u64>::empty()) + t[0]);
    assert(sum_sq(seq![t[0]]) == sum_sq(Seq::<u64>::empty()) + t[0] * t[0]);
}

/// Running statistics over the last `n` closes of a buffer: their sum and sum of
/// squares, and the rises and falls over the last `n` moves.
pub struct WindowSums {
    pub n: usize,
    pub sum: u128,
    pub sum_sq: u128,
    pub gains: u128,
    pub losses: u128,
}

impl WindowSums {
    /// The statistics are those of `s`.
    pub open spec fn tracks(&self, s: Seq<u64>) -> bool {
        &&& 1 <= self.n <= MAX_PERIOD
        &&& self.sum == sum_u(window(s, self.n as int))
        &&& self.sum_sq == sum_sq(window(s, self.n as int))
        &&& self.gains == gains(window(s, self.n + 1))
        &&& self.losses == losses(window(s, self.n + 1))
    }

    /// Statistics of the last `n` of `points`, computed afresh.
    pub fn build(points: &Vec<Kline>, n: usize) -> (r: WindowSums)
        requires
            closes_ok(points@),
            1 <= n <= MAX_PERIOD,
        ensures
            r.tracks(closes(points@)),
            r.n == n,
    {
        let len = points.len();
        let m = if len < n { len } else { n };
        let sum = window_sum(points, m);
        let sum_sq = window_sum_sq(points, m);
        let (gains, losses) = if len == 0 {
            proof {
                assert(window(closes(points@), n + 1).len() == 0);
            }
            (0u128, 0u128)
        } else {
            let k = if len - 1 < n { len - 1 } else { n };
            window_gains_losses(points, k)
        };
        WindowSums { n, sum, sum_sq, gains, losses }
    }

    /// Accounts for one more close `x` after `points`.
    pub fn push(&mut self, points: &Vec<Kline>, x: u64)
        requires
            old(self).tracks(closes(points@)),
            closes_ok(points@),
            price_ok(x),
        ensures
            final(self).tracks(closes(points@).push(x)),
            final(self).n == old(self).n,
    {
        let ghost s = closes(points@);
        let ghost s2 = s.push(x);
        let len = points.len();
        let n = self.n;
        let xx = x as u128;
        proof {
            assert(xx * xx <= 1_000_000_000_000_000_000_000_000) by (nonlinear_arith)
                requires xx <= 1_000_000_000_000u128;
            let w = window(s, n as int);
            assert forall|i: int| 0 <= i < w.len() implies w[i] <= MAX_PRICE by {
                assert(w[i] == s[s.len() - w.len() + i]);
                assert(price_ok(points@[s.len() - w.len() + i].close));
            }
            lemma_sum_upper(w, MAX_PRICE as int);
            lemma_sq_upper(w);
            assert(w.len() * (MAX_PRICE as int) <= MAX_PERIOD * MAX_PRICE) by (nonlinear_arith)
                requires w.len() <= MAX_PERIOD;
            assert(w.len() * 1_000_000_000_000_000_000_000_000int <= MAX_PERIOD * 1_000_000_000_000_000_000_000_000int) by (nonlinear_arith)
                requires w.len() <= MAX_PERIOD;
        }
        if len < n {
            proof {
                assert(window(s, n as int) == s) by { assert(last_n(s, s.len() as int) =~= s); }
                assert(window(s2, n as int) =~= s2);
                assert(s2.drop_last() == s);
            }
            self.sum = self.sum + xx;
            self.sum_sq = self.sum_sq + xx * xx;
        } else {
            let y = points[len - n].close as u128;
            proof {
                let w = window(s, n as int);
                let w2 = window(s2, n as int);
                lemma_sums_drop_first(w);
                assert(w[0] == y);
                assert(w2 =~= w.subrange(1, w.len() as int).push(x));
                assert(w2.drop_last() =~= w.subrange(1, w.len() as int));
                assert(sum_u(w.subrange(1, w.len() as int)) >= 0) by {
                    lemma_sum_lower(w.subrange(1, w.len() as int), 0);
                }
                assert(sum_sq(w.subrange(1, w.len() as int)) >= 0) by {
                    lemma_sq_nonneg(w.subrange(1, w.len() as int));
                }
                assert(y * y >= 0) by (nonlinear_arith);
            }
            self.sum = self.sum - y + xx;
            self.sum_sq = self.sum_sq - y * y + xx * xx;
        }
        if len >= 1 {
            let prev = points[len - 1].close;
            assert(prev == s[len - 1]);
            proof {
                assert(price_ok(points@[len - 1].close));
                let w = window(s, n + 1);
                let ks = points@.subrange(s.len() - w.len(), s.len() as int);
                assert(closes(ks) =~= w);
                assert forall|i: int| 0 <= i < ks.len() implies price_ok(#[trigger] ks[i].close) by {
                    assert(ks[i] == points@[s.len() - w.len() + i]);
                }
                lemma_moves_upper(w, ks);
            }
            if len < n + 1 {
                proof {
                    let w = window(s, n + 1);
                    let w2 = window(s2, n + 1);
                    assert(w =~= s) by { assert(last_n(s, s.len() as int) =~= s); }
                    assert(w2 =~= s2);
                    assert(s2.drop_last() == s);
                    assert(s2[s2.len() - 2] == prev);
                }
                if x > prev {
                    self.gains = self.gains + (x - prev) as u128;
                } else {
                    self.losses = self.losses + (prev - x) as u128;
                }
            } else {
                let a = points[len - n - 1].close;
                let b = points[len - n].close;
                proof {
                    let w = window(s, n + 1);
                    let w2 = window(s2, n + 1);
                    lemma_moves_drop_first(w);
                    assert(w[0] == a && w[1] == b);
                    let rest = w.subrange(1, w.len() as int);
                    assert(w2 =~= rest.push(x));
                    assert(w2.drop_last() =~= rest);
                    assert(w2[w2.len() - 2] == prev);
                    lemma_moves_nonneg(rest);
                }
                if b > a {
                    self.gains = self.gains - (b - a) as u128;
                } else {
                    self.losses = self.losses - (a - b) as u128;
                }
                if x > prev {
                    self.gains = self.gains + (x - prev) as u128;
                } else {
                    self.losses = self.losses + (prev - x) as u128;
                }
            }
        } else {
            proof {
                assert(window(s2, n + 1) =~= s2);
                assert(s2.len() == 1);
            }
        }
    }
}

pub proof fn lemma_sq_upper(x: Seq<u64>)
    requires
        forall|i: int| 0 <= i < x.len() ==> x[i] <= MAX_PRICE,
    ensures
        0 <= sum_sq(x) <= x.len() * 1_000_000_000_000_000_000_000_000int,
    decreases x.len(),
{
    if x.len() > 0 {
        lemma_sq_upper(x.drop_last());
        let v = x.last();
        assert(v * v <= 1_000_000_000_000_000_000_000_000int && v * v >= 0) by (nonlinear_arith)
            requires v <= 1_000_000_000_000int;
    }
}

pub proof fn lemma_sq_nonneg(x: Seq<u64>)
    ensures
        sum_sq(x) >= 0,
    decreases x.len(),
{
    if x.len() > 0 {
        lemma_sq_nonneg(x.drop_last());
        let v = x.last();
        assert(v * v >= 0) by (nonlinear_arith);
    }
}

pub proof fn lemma_moves_nonneg(x: Seq<u64>)
    ensures
        gains(x) >= 0,
        losses(x) >= 0,
    decreases x.len(),
{
    if x.len() >= 2 {
        lemma_moves_nonneg(x.drop_last());
    }
}

/// Rises and falls over a window of valid closes stay below its length times the price bound.
pub proof fn lemma_moves_upper(s: Seq<u64>, ks: Seq<Kline>)
    requires
        s == closes(ks),
        closes_ok(ks),
    ensures
        0 <= gains(s) <= s.len() * MAX_PRICE,
        0 <= losses(s) <= s.len() * MAX_PRICE,
    decreases s.len(),
{
    if s.len() >= 2 {
        assert(closes(ks.drop_last()) =~= s.drop_last());
        lemma_moves_upper(s.drop_last(), ks.drop_last());
        assert(price_ok(ks[ks.len() - 1].close));
        assert(price_ok(ks[ks.len() - 2].close));
    }
}

} // verus!
