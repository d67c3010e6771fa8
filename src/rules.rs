use vstd::prelude::*;
use crate::indicators::{
    closes, closes_ok, gains, last_n, lemma_moves_upper, lemma_sq_upper, lemma_sum_upper, losses, sum_sq, sum_u,
    MAX_PERIOD,
};
use crate::types::{AlgorithmEvalResult, Kline, MAX_PRICE};

verus! {

/// Largest band width, in standard deviations, of a Bollinger rule.
pub const MAX_MULTIPLIER: u64 = 10;

/// An RSI below this level reads as oversold.
pub const OVERSOLD: u128 = 30;

/// An RSI above this level reads as overbought.
pub const OVERBOUGHT: u128 = 70;

/// Long when `a > b`, short when `a < b`.
pub open spec fn compare(a: int, b: int) -> AlgorithmEvalResult {
    if a > b {
        AlgorithmEvalResult::Long
    } else if a < b {
        AlgorithmEvalResult::Short
    } else {
        AlgorithmEvalResult::Ignore
    }
}

pub fn compare_exec(a: i128, b: i128) -> (r: AlgorithmEvalResult)
    ensures
        r == compare(a as int, b as int),
{
    if a > b {
        AlgorithmEvalResult::Long
    } else if a < b {
        AlgorithmEvalResult::Short
    } else {
        AlgorithmEvalResult::Ignore
    }
}

/// The RSI of these total gains and losses is below `level` (no loss reads as 100).
pub open spec fn rsi_below(g: int, l: int, level: int) -> bool {
    l > 0 && 100 * g < level * (g + l)
}

/// The RSI of these total gains and losses is above `level` (no loss reads as 100).
pub open spec fn rsi_above(g: int, l: int, level: int) -> bool {
    l == 0 || 100 * g > level * (g + l)
}

/// EMA against the SMA of the last `n` closes; on a tie, the last close against the SMA.
pub open spec fn ema_sma_rule(s: Seq<u64>, n: int, ema: int) -> AlgorithmEvalResult {
    let sum = sum_u(last_n(s, n));
    if ema * n != sum {
        compare(ema * n, sum)
    } else {
        compare(s.last() * n, sum)
    }
}

/// The last close against the SMA of the last `n` closes.
pub open spec fn sma_rule(s: Seq<u64>, n: int) -> AlgorithmEvalResult {
    compare(s.last() * n, sum_u(last_n(s, n)))
}

/// Long when the short SMA is above the medium one and the medium above the long
/// one; short when both are below.
pub open spec fn three_ma_rule(s: Seq<u64>, a: int, b: int, c: int) -> AlgorithmEvalResult {
    let sa = sum_u(last_n(s, a));
    let sb = sum_u(last_n(s, b));
    let sc = sum_u(last_n(s, c));
    if sa * b > sb * a && sb * c > sc * b {
        AlgorithmEvalResult::Long
    } else if sa * b < sb * a && sb * c < sc * b {
        AlgorithmEvalResult::Short
    } else {
        AlgorithmEvalResult::Ignore
    }
}

/// Long when oversold, short when overbought, over the last `r` price changes.
pub open spec fn rsi_rule(s: Seq<u64>, r: int) -> AlgorithmEvalResult {
    let g = gains(last_n(s, r + 1));
    let l = losses(last_n(s, r + 1));
    if rsi_below(g, l, OVERSOLD as int) {
        AlgorithmEvalResult::Long
    } else if rsi_above(g, l, OVERBOUGHT as int) {
        AlgorithmEvalResult::Short
    } else {
        AlgorithmEvalResult::Ignore
    }
}

/// Long when oversold with short SMA > medium SMA > long SMA and short SMA above the
/// EMA; short when overbought with all three orderings reversed.
pub open spec fn rsi_ema_sma_rule(s: Seq<u64>, r: int, a: int, b: int, c: int, ema: int) -> AlgorithmEvalResult {
    let g = gains(last_n(s, r + 1));
    let l = losses(last_n(s, r + 1));
    let sa = sum_u(last_n(s, a));
    let sb = sum_u(last_n(s, b));
    let sc = sum_u(last_n(s, c));
    if rsi_below(g, l, OVERSOLD as int) && sa * b > sb * a && sb * c > sc * b && sa > ema * a {
        AlgorithmEvalResult::Long
    } else if rsi_above(g, l, OVERBOUGHT as int) && sa * b < sb * a && sb * c < sc * b && sa < ema * a {
        AlgorithmEvalResult::Short
    } else {
        AlgorithmEvalResult::Ignore
    }
}

/// Long when the last close is below the lower band (mean minus `k` standard
/// deviations of the last `n` closes), short when above the upper band.
pub open spec fn bollinger_rule(s: Seq<u64>, n: int, k: int) -> AlgorithmEvalResult {
    let sum = sum_u(last_n(s, n));
    let spread = n * sum_sq(last_n(s, n)) - sum * sum;
    let below = sum - n * s.last();
    if below > 0 && below * below > k * k * spread {
        AlgorithmEvalResult::Long
    } else if below < 0 && below * below > k * k * spread {
        AlgorithmEvalResult::Short
    } else {
        AlgorithmEvalResult::Ignore
    }
}

/// The MACD line (fast EMA minus slow EMA) against its signal line.
pub open spec fn macd_rule(fast: int, slow: int, signal: int) -> AlgorithmEvalResult {
    compare(fast - slow, signal)
}

/// Agreement of two rules.
pub open spec fn both(x: AlgorithmEvalResult, y: AlgorithmEvalResult) -> AlgorithmEvalResult {
    if x == y {
        x
    } else {
        AlgorithmEvalResult::Ignore
    }
}

pub fn both_exec(x: AlgorithmEvalResult, y: AlgorithmEvalResult) -> (r: AlgorithmEvalResult)
    ensures
        r == both(x, y),
{
    if x == y {
        x
    } else {
        AlgorithmEvalResult::Ignore
    }
}

/// Sums over the last `n` closes of valid prices stay within `n` times the bound.
pub proof fn lemma_window_bounds(points: Seq<Kline>, n: int)
    requires
        closes_ok(points),
        0 <= n <= points.len(),
    ensures
        0 <= sum_u(last_n(closes(points), n)) <= n * MAX_PRICE,
        0 <= sum_sq(last_n(closes(points), n)) <= n * 1_000_000_000_000_000_000_000_000int,
        0 <= gains(last_n(closes(points), n)) <= n * MAX_PRICE,
        0 <= losses(last_n(closes(points), n)) <= n * MAX_PRICE,
{
    let s = closes(points);
    let w = last_n(s, n);
    let ks = points.subrange(points.len() - n, points.len() as int);
    assert(closes(ks) =~= w);
    assert forall|i: int| 0 <= i < ks.len() implies crate::types::price_ok(#[trigger] ks[i].close) by {
        assert(ks[i] == points[points.len() - n + i]);
    }
    assert forall|i: int| 0 <= i < w.len() implies w[i] <= MAX_PRICE by {
        assert(w[i] == ks[i].close);
        assert(crate::types::price_ok(ks[i].close));
    }
    crate::indicators::lemma_sum_lower(w, 0);
    lemma_sum_upper(w, MAX_PRICE as int);
    lemma_sq_upper(w);
    lemma_moves_upper(w, ks);
}

pub fn ema_sma_exec(points: &Vec<Kline>, n: u64, ema: u64, sum: u128) -> (r: AlgorithmEvalResult)
    requires
        closes_ok(points@),
        1 <= n <= MAX_PERIOD,
        n <= points.len(),
        ema <= MAX_PRICE,
        sum == sum_u(last_n(closes(points@), n as int)),
    ensures
        r == ema_sma_rule(closes(points@), n as int, ema as int),
{
    proof { lemma_window_bounds(points@, n as int); }
    let last = points[points.len() - 1].close;
    assert(closes(points@).last() == last);
    assert(crate::types::price_ok(points@[points.len() - 1].close));
    proof {
        assert(ema * n <= MAX_PRICE * MAX_PERIOD) by (nonlinear_arith) requires ema <= MAX_PRICE, n <= MAX_PERIOD;
        assert(last * n <= MAX_PRICE * MAX_PERIOD) by (nonlinear_arith) requires last <= MAX_PRICE, n <= MAX_PERIOD;
        assert(sum <= MAX_PRICE * MAX_PERIOD) by (nonlinear_arith) requires sum <= n * MAX_PRICE, n <= MAX_PERIOD;
    }
    let e = (ema as u128 * n as u128) as i128;
    let c = (last as u128 * n as u128) as i128;
    let s = sum as i128;
    if e != s {
        compare_exec(e, s)
    } else {
        compare_exec(c, s)
    }
}

pub fn sma_exec(points: &Vec<Kline>, n: u64, sum: u128) -> (r: AlgorithmEvalResult)
    requires
        closes_ok(points@),
        1 <= n <= MAX_PERIOD,
        n <= points.len(),
        sum == sum_u(last_n(closes(points@), n as int)),
    ensures
        r == sma_rule(closes(points@), n as int),
{
    proof { lemma_window_bounds(points@, n as int); }
    let last = points[points.len() - 1].close;
    assert(closes(points@).last() == last);
    assert(crate::types::price_ok(points@[points.len() - 1].close));
    proof {
        assert(last * n <= MAX_PRICE * MAX_PERIOD) by (nonlinear_arith) requires last <= MAX_PRICE, n <= MAX_PERIOD;
        assert(sum <= MAX_PRICE * MAX_PERIOD) by (nonlinear_arith) requires sum <= n * MAX_PRICE, n <= MAX_PERIOD;
    }
    compare_exec((last as u128 * n as u128) as i128, sum as i128)
}

/// `x * y` for sums of windows and periods, which stay far below `u128::MAX`.
fn scaled(x: u128, y: u64) -> (r: u128)
    requires
        x <= MAX_PRICE * MAX_PERIOD,
        y <= MAX_PERIOD,
    ensures
        r == x * y,
        r <= MAX_PRICE * MAX_PERIOD * MAX_PERIOD,
{
    proof {
        assert(x * y <= MAX_PRICE * MAX_PERIOD * MAX_PERIOD) by (nonlinear_arith)
            requires x <= MAX_PRICE * MAX_PERIOD, y <= MAX_PERIOD;
    }
    x * (y as u128)
}

proof fn lemma_bounded_window_sum(points: Seq<Kline>, n: u64)
    requires
        closes_ok(points),
        1 <= n <= MAX_PERIOD,
        n <= points.len(),
    ensures
        sum_u(last_n(closes(points), n as int)) <= MAX_PRICE * MAX_PERIOD,
{
    lemma_window_bounds(points, n as int);
    let s = sum_u(last_n(closes(points), n as int));
    assert(s <= MAX_PRICE * MAX_PERIOD) by (nonlinear_arith) requires s <= n * MAX_PRICE, n <= MAX_PERIOD;
}

pub fn three_ma_exec(points: &Vec<Kline>, a: u64, b: u64, c: u64, sa: u128, sb: u128, sc: u128) -> (r: AlgorithmEvalResult)
    requires
        closes_ok(points@),
        1 <= a <= MAX_PERIOD,
        1 <= b <= MAX_PERIOD,
        1 <= c <= MAX_PERIOD,
        a <= points.len(),
        b <= points.len(),
        c <= points.len(),
        sa == sum_u(last_n(closes(points@), a as int)),
        sb == sum_u(last_n(closes(points@), b as int)),
        sc == sum_u(last_n(closes(points@), c as int)),
    ensures
        r == three_ma_rule(closes(points@), a as int, b as int, c as int),
{
    proof {
        lemma_bounded_window_sum(points@, a);
        lemma_bounded_window_sum(points@, b);
        lemma_bounded_window_sum(points@, c);
    }
    let ab = scaled(sa, b);
    let ba = scaled(sb, a);
    let bc = scaled(sb, c);
    let cb = scaled(sc, b);
    if ab > ba && bc > cb {
        AlgorithmEvalResult::Long
    } else if ab < ba && bc < cb {
        AlgorithmEvalResult::Short
    } else {
        AlgorithmEvalResult::Ignore
    }
}

fn rsi_flags(points: &Vec<Kline>, r: u64, g: u128, l: u128) -> (res: (bool, bool))
    requires
        closes_ok(points@),
        1 <= r <= MAX_PERIOD,
        r < points.len(),
        g == gains(last_n(closes(points@), r + 1)),
        l == losses(last_n(closes(points@), r + 1)),
    ensures
        res.0 == rsi_below(gains(last_n(closes(points@), r + 1)), losses(last_n(closes(points@), r + 1)), OVERSOLD as int),
        res.1 == rsi_above(gains(last_n(closes(points@), r + 1)), losses(last_n(closes(points@), r + 1)), OVERBOUGHT as int),
{
    proof { lemma_window_bounds(points@, r + 1); }
    let low = l > 0 && 100 * g < OVERSOLD * (g + l);
    let high = l == 0 || 100 * g > OVERBOUGHT * (g + l);
    (low, high)
}

pub fn rsi_exec(points: &Vec<Kline>, r: u64, g: u128, l: u128) -> (res: AlgorithmEvalResult)
    requires
        closes_ok(points@),
        1 <= r <= MAX_PERIOD,
        r < points.len(),
        g == gains(last_n(closes(points@), r + 1)),
        l == losses(last_n(closes(points@), r + 1)),
    ensures
        res == rsi_rule(closes(points@), r as int),
{
    let (low, high) = rsi_flags(points, r, g, l);
    if low {
        AlgorithmEvalResult::Long
    } else if high {
        AlgorithmEvalResult::Short
    } else {
        AlgorithmEvalResult::Ignore
    }
}

pub fn rsi_ema_sma_exec(
    points: &Vec<Kline>,
    r: u64,
    a: u64,
    b: u64,
    c: u64,
    ema: u64,
    sums: (u128, u128, u128),
    moves: (u128, u128),
) -> (res: AlgorithmEvalResult)
    requires
        closes_ok(points@),
        1 <= r <= MAX_PERIOD,
        1 <= a <= MAX_PERIOD,
        1 <= b <= MAX_PERIOD,
        1 <= c <= MAX_PERIOD,
        r < points.len(),
        a <= points.len(),
        b <= points.len(),
        c <= points.len(),
        ema <= MAX_PRICE,
        sums.0 == sum_u(last_n(closes(points@), a as int)),
        sums.1 == sum_u(last_n(closes(points@), b as int)),
        sums.2 == sum_u(last_n(closes(points@), c as int)),
        moves.0 == gains(last_n(closes(points@), r + 1)),
        moves.1 == losses(last_n(closes(points@), r + 1)),
    ensures
        res == rsi_ema_sma_rule(closes(points@), r as int, a as int, b as int, c as int, ema as int),
{
    let (low, high) = rsi_flags(points, r, moves.0, moves.1);
    let (sa, sb, sc) = sums;
    proof {
        lemma_bounded_window_sum(points@, a);
        lemma_bounded_window_sum(points@, b);
        lemma_bounded_window_sum(points@, c);
    }
    let ab = scaled(sa, b);
    let ba = scaled(sb, a);
    let bc = scaled(sb, c);
    let cb = scaled(sc, b);
    let ea = scaled(ema as u128, a);
    if low && ab > ba && bc > cb && sa > ea {
        AlgorithmEvalResult::Long
    } else if high && ab < ba && bc < cb && sa < ea {
        AlgorithmEvalResult::Short
    } else {
        AlgorithmEvalResult::Ignore
    }
}

pub fn bollinger_exec(points: &Vec<Kline>, n: u64, k: u64, sum: u128, sq: u128) -> (res: AlgorithmEvalResult)
    requires
        closes_ok(points@),
        1 <= n <= MAX_PERIOD,
        k <= MAX_MULTIPLIER,
        n <= points.len(),
        sum == sum_u(last_n(closes(points@), n as int)),
        sq == sum_sq(last_n(closes(points@), n as int)),
    ensures
        res == bollinger_rule(closes(points@), n as int, k as int),
{
    proof {
        lemma_bounded_window_sum(points@, n);
        lemma_window_bounds(points@, n as int);
    }
    let last = points[points.len() - 1].close;
    assert(closes(points@).last() == last);
    assert(crate::types::price_ok(points@[points.len() - 1].close));
    let ghost big: int = 1_000_000_000_000_000_000_000_000;
    proof {
        assert(n * sq <= MAX_PERIOD * MAX_PERIOD * big) by (nonlinear_arith)
            requires sq <= n * big, n <= MAX_PERIOD, big >= 0;
        assert(sum * sum <= MAX_PRICE * MAX_PERIOD * MAX_PRICE * MAX_PERIOD) by (nonlinear_arith)
            requires sum <= MAX_PRICE * MAX_PERIOD;
        assert(last * n <= MAX_PRICE * MAX_PERIOD) by (nonlinear_arith) requires last <= MAX_PRICE, n <= MAX_PERIOD;
    }
    let spread: i128 = (n as u128 * sq) as i128 - (sum * sum) as i128;
    let below: i128 = sum as i128 - (last as u128 * n as u128) as i128;
    proof {
        let e16: int = 10_000_000_000_000_000;
        let e32: int = 100_000_000_000_000_000_000_000_000_000_000;
        assert(-e16 <= below <= e16);
        assert(below * below <= e32) by (nonlinear_arith)
            requires -e16 <= below <= e16, e32 == e16 * e16;
        assert(-e32 <= spread <= e32);
        assert(k * k <= 100) by (nonlinear_arith) requires k <= 10;
        assert(-100 * e32 <= (k * k) * spread <= 100 * e32) by (nonlinear_arith)
            requires 0 <= k * k <= 100, -e32 <= spread <= e32;
        assert(k * k * spread == (k * k) * spread) by (nonlinear_arith);
        assert(0 <= below * below) by (nonlinear_arith);
        assert(last * n == n * last) by (nonlinear_arith);
    }
    let kk = (k * k) as i128;
    let band = kk * spread;
    let sq_below = below * below;
    if below > 0 && sq_below > band {
        AlgorithmEvalResult::Long
    } else if below < 0 && sq_below > band {
        AlgorithmEvalResult::Short
    } else {
        AlgorithmEvalResult::Ignore
    }
}

} // verus!
