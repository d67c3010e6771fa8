use vstd::prelude::*;
use crate::indicators::{
    window, WindowSums, last_n, sum_u, closes, closes_ok, ema_step, lemma_shorter_window_higher_mean, next_ema, next_ema_signed, strictly_increasing,
    MAX_PERIOD,
};
use crate::interval::{build_interval, interval_ms, same_text};
use crate::rules::{
    both, both_exec, bollinger_exec, bollinger_rule, compare_exec, ema_sma_exec, ema_sma_rule,
    macd_rule, rsi_ema_sma_exec, rsi_ema_sma_rule, rsi_exec, rsi_rule, sma_exec, sma_rule,
    three_ma_exec, three_ma_rule, MAX_MULTIPLIER,
};
use crate::types::{price_ok, AlgorithmError, AlgorithmEvalResult, Kline, MAX_PRICE};

verus! {

/// Bars kept after pruning: one week of one-minute bars.
pub const RETAINED_POINTS: usize = 10_080;

/// Pruning starts once more than this many bars are buffered.
pub const PRUNE_THRESHOLD: usize = 20_160;

/// The closed set of indicator algorithms.
#[derive(Clone, Copy, Debug, PartialEq, Eq, Structural)]
pub enum AlgorithmName {
    EmaSmaCrossover,
    RsiEmaSma,
    SimpleMovingAverage,
    ThreeMaCrossover,
    Rsi,
    BollingerBands,
    Macd,
    MacdBollingerBands,
}

/// Configuration values of an algorithm; each algorithm reads some of them.
#[derive(Clone, Copy, Debug, PartialEq, Eq, Default)]
pub struct AlgorithmParams {
    pub ema_period: Option<u64>,
    pub sma_period: Option<u64>,
    pub rsi_period: Option<u64>,
    pub short_sma_period: Option<u64>,
    pub medium_sma_period: Option<u64>,
    pub long_sma_period: Option<u64>,
    pub fast_period: Option<u64>,
    pub slow_period: Option<u64>,
    pub signal_period: Option<u64>,
    pub bb_period: Option<u64>,
    pub bb_multiplier: Option<u64>,
}

/// Which configuration values an algorithm reads.
pub open spec fn uses(name: AlgorithmName) -> (bool, bool, bool, bool, bool, bool, bool, bool, bool, bool, bool) {
    // (ema, sma, rsi, short, medium, long, fast, slow, signal, bb_period, bb_multiplier)
    match name {
        AlgorithmName::EmaSmaCrossover => (true, true, false, false, false, false, false, false, false, false, false),
        AlgorithmName::RsiEmaSma => (true, false, true, true, true, true, false, false, false, false, false),
        AlgorithmName::SimpleMovingAverage => (false, true, false, false, false, false, false, false, false, false, false),
        AlgorithmName::ThreeMaCrossover => (false, false, false, true, true, true, false, false, false, false, false),
        AlgorithmName::Rsi => (false, false, true, false, false, false, false, false, false, false, false),
        AlgorithmName::BollingerBands => (false, false, false, false, false, false, false, false, false, true, true),
        AlgorithmName::Macd => (false, false, false, false, false, false, true, true, true, false, false),
        AlgorithmName::MacdBollingerBands => (false, false, false, false, false, false, true, true, true, true, true),
    }
}

fn uses_exec(name: AlgorithmName) -> (r: (bool, bool, bool, bool, bool, bool, bool, bool, bool, bool, bool))
    ensures
        r == uses(name),
{
    match name {
        AlgorithmName::EmaSmaCrossover => (true, true, false, false, false, false, false, false, false, false, false),
        AlgorithmName::RsiEmaSma => (true, false, true, true, true, true, false, false, false, false, false),
        AlgorithmName::SimpleMovingAverage => (false, true, false, false, false, false, false, false, false, false, false),
        AlgorithmName::ThreeMaCrossover => (false, false, false, true, true, true, false, false, false, false, false),
        AlgorithmName::Rsi => (false, false, true, false, false, false, false, false, false, false, false),
        AlgorithmName::BollingerBands => (false, false, false, false, false, false, false, false, false, true, true),
        AlgorithmName::Macd => (false, false, false, false, false, false, true, true, true, false, false),
        AlgorithmName::MacdBollingerBands => (false, false, false, false, false, false, true, true, true, true, true),
    }
}

/// A configuration with no value set.
pub open spec fn unset() -> AlgorithmParams {
    AlgorithmParams {
        ema_period: None, sma_period: None, rsi_period: None, short_sma_period: None,
        medium_sma_period: None, long_sma_period: None, fast_period: None, slow_period: None,
        signal_period: None, bb_period: None, bb_multiplier: None,
    }
}

fn unset_exec() -> (r: AlgorithmParams)
    ensures
        r == unset(),
{
    AlgorithmParams {
        ema_period: None, sma_period: None, rsi_period: None, short_sma_period: None,
        medium_sma_period: None, long_sma_period: None, fast_period: None, slow_period: None,
        signal_period: None, bb_period: None, bb_multiplier: None,
    }
}

/// A value the algorithm reads is the given one, else the fallback; one it does not read is dropped.
pub open spec fn resolve(used: bool, given: Option<u64>, fallback: Option<u64>) -> Option<u64> {
    if !used {
        None
    } else if given is Some {
        given
    } else {
        fallback
    }
}

fn resolve_exec(used: bool, given: Option<u64>, fallback: Option<u64>) -> (r: Option<u64>)
    ensures
        r == resolve(used, given, fallback),
{
    if !used {
        None
    } else if given.is_some() {
        given
    } else {
        fallback
    }
}

/// The configuration that results from `given` over `fallback`.
pub open spec fn effective(name: AlgorithmName, given: AlgorithmParams, fallback: AlgorithmParams) -> AlgorithmParams {
    let u = uses(name);
    AlgorithmParams {
        ema_period: resolve(u.0, given.ema_period, fallback.ema_period),
        sma_period: resolve(u.1, given.sma_period, fallback.sma_period),
        rsi_period: resolve(u.2, given.rsi_period, fallback.rsi_period),
        short_sma_period: resolve(u.3, given.short_sma_period, fallback.short_sma_period),
        medium_sma_period: resolve(u.4, given.medium_sma_period, fallback.medium_sma_period),
        long_sma_period: resolve(u.5, given.long_sma_period, fallback.long_sma_period),
        fast_period: resolve(u.6, given.fast_period, fallback.fast_period),
        slow_period: resolve(u.7, given.slow_period, fallback.slow_period),
        signal_period: resolve(u.8, given.signal_period, fallback.signal_period),
        bb_period: resolve(u.9, given.bb_period, fallback.bb_period),
        bb_multiplier: resolve(u.10, given.bb_multiplier, fallback.bb_multiplier),
    }
}

fn effective_exec(name: AlgorithmName, given: &AlgorithmParams, fallback: &AlgorithmParams) -> (r: AlgorithmParams)
    ensures
        r == effective(name, *given, *fallback),
{
    let u = uses_exec(name);
    AlgorithmParams {
        ema_period: resolve_exec(u.0, given.ema_period, fallback.ema_period),
        sma_period: resolve_exec(u.1, given.sma_period, fallback.sma_period),
        rsi_period: resolve_exec(u.2, given.rsi_period, fallback.rsi_period),
        short_sma_period: resolve_exec(u.3, given.short_sma_period, fallback.short_sma_period),
        medium_sma_period: resolve_exec(u.4, given.medium_sma_period, fallback.medium_sma_period),
        long_sma_period: resolve_exec(u.5, given.long_sma_period, fallback.long_sma_period),
        fast_period: resolve_exec(u.6, given.fast_period, fallback.fast_period),
        slow_period: resolve_exec(u.7, given.slow_period, fallback.slow_period),
        signal_period: resolve_exec(u.8, given.signal_period, fallback.signal_period),
        bb_period: resolve_exec(u.9, given.bb_period, fallback.bb_period),
        bb_multiplier: resolve_exec(u.10, given.bb_multiplier, fallback.bb_multiplier),
    }
}

/// A value the algorithm reads is present and within `1..=limit`.
pub open spec fn value_ok(used: bool, v: Option<u64>, limit: u64) -> bool {
    !used || (v is Some && 1 <= v.unwrap() <= limit)
}

fn value_ok_exec(used: bool, v: Option<u64>, limit: u64) -> (r: bool)
    ensures
        r == value_ok(used, v, limit),
{
    if !used {
        true
    } else {
        match v {
            Some(x) => 1 <= x && x <= limit,
            None => false,
        }
    }
}

/// Every value the algorithm reads is present and in range.
pub open spec fn params_ok(name: AlgorithmName, p: AlgorithmParams) -> bool {
    let u = uses(name);
    &&& value_ok(u.0, p.ema_period, MAX_PERIOD)
    &&& value_ok(u.1, p.sma_period, MAX_PERIOD)
    &&& value_ok(u.2, p.rsi_period, MAX_PERIOD)
    &&& value_ok(u.3, p.short_sma_period, MAX_PERIOD)
    &&& value_ok(u.4, p.medium_sma_period, MAX_PERIOD)
    &&& value_ok(u.5, p.long_sma_period, MAX_PERIOD)
    &&& value_ok(u.6, p.fast_period, MAX_PERIOD)
    &&& value_ok(u.7, p.slow_period, MAX_PERIOD)
    &&& value_ok(u.8, p.signal_period, MAX_PERIOD)
    &&& value_ok(u.9, p.bb_period, MAX_PERIOD)
    &&& value_ok(u.10, p.bb_multiplier, MAX_MULTIPLIER)
}

fn params_ok_exec(name: AlgorithmName, p: &AlgorithmParams) -> (r: bool)
    ensures
        r == params_ok(name, *p),
{
    let u = uses_exec(name);
    value_ok_exec(u.0, p.ema_period, MAX_PERIOD)
        && value_ok_exec(u.1, p.sma_period, MAX_PERIOD)
        && value_ok_exec(u.2, p.rsi_period, MAX_PERIOD)
        && value_ok_exec(u.3, p.short_sma_period, MAX_PERIOD)
        && value_ok_exec(u.4, p.medium_sma_period, MAX_PERIOD)
        && value_ok_exec(u.5, p.long_sma_period, MAX_PERIOD)
        && value_ok_exec(u.6, p.fast_period, MAX_PERIOD)
        && value_ok_exec(u.7, p.slow_period, MAX_PERIOD)
        && value_ok_exec(u.8, p.signal_period, MAX_PERIOD)
        && value_ok_exec(u.9, p.bb_period, MAX_PERIOD)
        && value_ok_exec(u.10, p.bb_multiplier, MAX_MULTIPLIER)
}

/// Period of the EMA of closes that the algorithm tracks first (1 when it tracks none).
pub open spec fn fast_period_of(name: AlgorithmName, p: AlgorithmParams) -> u64 {
    match name {
        AlgorithmName::EmaSmaCrossover | AlgorithmName::RsiEmaSma => p.ema_period.unwrap(),
        AlgorithmName::Macd | AlgorithmName::MacdBollingerBands => p.fast_period.unwrap(),
        _ => 1,
    }
}

/// Period of the second EMA of closes (1 when the algorithm tracks none).
pub open spec fn slow_period_of(name: AlgorithmName, p: AlgorithmParams) -> u64 {
    match name {
        AlgorithmName::Macd | AlgorithmName::MacdBollingerBands => p.slow_period.unwrap(),
        _ => 1,
    }
}

/// Period of the EMA of the difference of the two EMAs (1 when unused).
pub open spec fn signal_period_of(name: AlgorithmName, p: AlgorithmParams) -> u64 {
    match name {
        AlgorithmName::Macd | AlgorithmName::MacdBollingerBands => p.signal_period.unwrap(),
        _ => 1,
    }
}

pub open spec fn max2(a: int, b: int) -> int {
    if a >= b { a } else { b }
}

/// Buffered bars the algorithm needs before it decides anything.
pub open spec fn lookback(name: AlgorithmName, p: AlgorithmParams) -> int {
    match name {
        AlgorithmName::EmaSmaCrossover => p.sma_period.unwrap() as int,
        AlgorithmName::RsiEmaSma => max2(
            max2(p.rsi_period.unwrap() + 1, p.short_sma_period.unwrap() as int),
            max2(p.medium_sma_period.unwrap() as int, p.long_sma_period.unwrap() as int),
        ),
        AlgorithmName::SimpleMovingAverage => p.sma_period.unwrap() as int,
        AlgorithmName::ThreeMaCrossover => max2(
            p.short_sma_period.unwrap() as int,
            max2(p.medium_sma_period.unwrap() as int, p.long_sma_period.unwrap() as int),
        ),
        AlgorithmName::Rsi => p.rsi_period.unwrap() + 1,
        AlgorithmName::BollingerBands => p.bb_period.unwrap() as int,
        AlgorithmName::Macd => p.slow_period.unwrap() as int,
        AlgorithmName::MacdBollingerBands => max2(p.slow_period.unwrap() as int, p.bb_period.unwrap() as int),
    }
}

/// The decision over buffered closes `s` and the tracked EMAs.
pub open spec fn decision(
    name: AlgorithmName,
    p: AlgorithmParams,
    s: Seq<u64>,
    fast: int,
    slow: int,
    signal: int,
) -> AlgorithmEvalResult {
    if s.len() < lookback(name, p) {
        AlgorithmEvalResult::Ignore
    } else {
        match name {
            AlgorithmName::EmaSmaCrossover => ema_sma_rule(s, p.sma_period.unwrap() as int, fast),
            AlgorithmName::RsiEmaSma => rsi_ema_sma_rule(
                s,
                p.rsi_period.unwrap() as int,
                p.short_sma_period.unwrap() as int,
                p.medium_sma_period.unwrap() as int,
                p.long_sma_period.unwrap() as int,
                fast,
            ),
            AlgorithmName::SimpleMovingAverage => sma_rule(s, p.sma_period.unwrap() as int),
            AlgorithmName::ThreeMaCrossover => three_ma_rule(
                s,
                p.short_sma_period.unwrap() as int,
                p.medium_sma_period.unwrap() as int,
                p.long_sma_period.unwrap() as int,
            ),
            AlgorithmName::Rsi => rsi_rule(s, p.rsi_period.unwrap() as int),
            AlgorithmName::BollingerBands => bollinger_rule(s, p.bb_period.unwrap() as int, p.bb_multiplier.unwrap() as int),
            AlgorithmName::Macd => macd_rule(fast, slow, signal),
            AlgorithmName::MacdBollingerBands => both(
                macd_rule(fast, slow, signal),
                bollinger_rule(s, p.bb_period.unwrap() as int, p.bb_multiplier.unwrap() as int),
            ),
        }
    }
}

/// Drops the oldest week of bars once the buffer passes the threshold.
pub open spec fn prune(s: Seq<Kline>) -> Seq<Kline> {
    if s.len() > PRUNE_THRESHOLD {
        s.subrange(RETAINED_POINTS as int, s.len() as int)
    } else {
        s
    }
}

/// Abstract state of an algorithm.
pub ghost struct AlgorithmModel {
    pub name: AlgorithmName,
    pub interval_ms: u64,
    pub params: AlgorithmParams,
    pub points: Seq<Kline>,
    pub ema_fast: int,
    pub ema_slow: int,
    pub signal_line: int,
}

impl AlgorithmModel {
    pub open spec fn wf(self) -> bool {
        &&& params_ok(self.name, self.params)
        &&& closes_ok(self.points)
        &&& self.points.len() <= PRUNE_THRESHOLD
        &&& 0 <= self.ema_fast <= MAX_PRICE
        &&& 0 <= self.ema_slow <= MAX_PRICE
        &&& -(MAX_PRICE as int) <= self.signal_line <= MAX_PRICE
    }
}

/// A freshly built algorithm.
pub open spec fn fresh(name: AlgorithmName, interval_ms: u64, params: AlgorithmParams) -> AlgorithmModel {
    AlgorithmModel { name, interval_ms, params, points: Seq::empty(), ema_fast: 0, ema_slow: 0, signal_line: 0 }
}

/// One evaluation: the new state and the decision. A bar whose close the ledger
/// cannot trade at is ignored and not buffered.
pub open spec fn step(m: AlgorithmModel, k: Kline) -> (AlgorithmModel, AlgorithmEvalResult) {
    if !price_ok(k.close) {
        (m, AlgorithmEvalResult::Ignore)
    } else {
        let first = m.points.len() == 0;
        let x = k.close as int;
        let fast = if first { x } else { ema_step(m.ema_fast, x, fast_period_of(m.name, m.params) as int) };
        let slow = if first { x } else { ema_step(m.ema_slow, x, slow_period_of(m.name, m.params) as int) };
        let signal = if first {
            fast - slow
        } else {
            ema_step(m.signal_line, fast - slow, signal_period_of(m.name, m.params) as int)
        };
        let points = m.points.push(k);
        (
            AlgorithmModel {
                name: m.name,
                interval_ms: m.interval_ms,
                params: m.params,
                points: prune(points),
                ema_fast: fast,
                ema_slow: slow,
                signal_line: signal,
            },
            decision(m.name, m.params, closes(points), fast, slow, signal),
        )
    }
}

/// State of an algorithm built from a name and an interval as written, when both parse.
pub open spec fn fresh_for(name: Seq<char>, interval: Seq<char>, params: AlgorithmParams) -> AlgorithmModel {
    fresh(
        name_from(name).unwrap(),
        interval_ms(interval).unwrap() as u64,
        effective(name_from(name).unwrap(), params, unset()),
    )
}

/// Evaluations of `ks` in order: the final state and every decision.
pub open spec fn run(m: AlgorithmModel, ks: Seq<Kline>) -> (AlgorithmModel, Seq<AlgorithmEvalResult>)
    decreases ks.len(),
{
    if ks.len() == 0 {
        (m, Seq::empty())
    } else {
        let (m1, rs) = run(m, ks.drop_last());
        let (m2, r) = step(m1, ks.last());
        (m2, rs.push(r))
    }
}

/// An algorithm name as written by a caller.
pub open spec fn name_from(s: Seq<char>) -> Option<AlgorithmName> {
    if s == "EmaSmaCrossover"@ {
        Some(AlgorithmName::EmaSmaCrossover)
    } else if s == "RsiEmaSma"@ {
        Some(AlgorithmName::RsiEmaSma)
    } else if s == "SimpleMovingAverage"@ {
        Some(AlgorithmName::SimpleMovingAverage)
    } else if s == "ThreeMaCrossover"@ {
        Some(AlgorithmName::ThreeMaCrossover)
    } else if s == "Rsi"@ {
        Some(AlgorithmName::Rsi)
    } else if s == "BollingerBands"@ {
        Some(AlgorithmName::BollingerBands)
    } else if s == "Macd"@ {
        Some(AlgorithmName::Macd)
    } else if s == "MacdBollingerBands"@ {
        Some(AlgorithmName::MacdBollingerBands)
    } else {
        None
    }
}

/// Looks up an algorithm by its name.
pub fn parse_algorithm_name(s: &str) -> (r: Option<AlgorithmName>)
    ensures
        r == name_from(s@),
{
    if same_text(s, "EmaSmaCrossover") {
        Some(AlgorithmName::EmaSmaCrossover)
    } else if same_text(s, "RsiEmaSma") {
        Some(AlgorithmName::RsiEmaSma)
    } else if same_text(s, "SimpleMovingAverage") {
        Some(AlgorithmName::SimpleMovingAverage)
    } else if same_text(s, "ThreeMaCrossover") {
        Some(AlgorithmName::ThreeMaCrossover)
    } else if same_text(s, "Rsi") {
        Some(AlgorithmName::Rsi)
    } else if same_text(s, "BollingerBands") {
        Some(AlgorithmName::BollingerBands)
    } else if same_text(s, "Macd") {
        Some(AlgorithmName::Macd)
    } else if same_text(s, "MacdBollingerBands") {
        Some(AlgorithmName::MacdBollingerBands)
    } else {
        None
    }
}


/// A stateful indicator algorithm bound to one bar interval.
pub struct Algorithm {
    name: AlgorithmName,
    interval_ms: u64,
    params: AlgorithmParams,
    data_points: Vec<Kline>,
    ema_fast: u64,
    ema_slow: u64,
    signal_line: i64,
    w_sma: WindowSums,
    w_short: WindowSums,
    w_medium: WindowSums,
    w_long: WindowSums,
    w_bb: WindowSums,
    w_rsi: WindowSums,
}

/// Window lengths of the running statistics: (sma, short, medium, long, bollinger,
/// rsi), 1 for a window the algorithm does not read.
pub open spec fn window_periods(name: AlgorithmName, p: AlgorithmParams) -> (u64, u64, u64, u64, u64, u64) {
    let u = uses(name);
    (
        if u.1 { p.sma_period.unwrap() } else { 1 },
        if u.3 { p.short_sma_period.unwrap() } else { 1 },
        if u.4 { p.medium_sma_period.unwrap() } else { 1 },
        if u.5 { p.long_sma_period.unwrap() } else { 1 },
        if u.9 { p.bb_period.unwrap() } else { 1 },
        if u.2 { p.rsi_period.unwrap() } else { 1 },
    )
}

fn window_periods_exec(name: AlgorithmName, p: &AlgorithmParams) -> (r: (usize, usize, usize, usize, usize, usize))
    requires
        params_ok(name, *p),
    ensures
        r.0 == window_periods(name, *p).0,
        r.1 == window_periods(name, *p).1,
        r.2 == window_periods(name, *p).2,
        r.3 == window_periods(name, *p).3,
        r.4 == window_periods(name, *p).4,
        r.5 == window_periods(name, *p).5,
        1 <= r.0 <= MAX_PERIOD,
        1 <= r.1 <= MAX_PERIOD,
        1 <= r.2 <= MAX_PERIOD,
        1 <= r.3 <= MAX_PERIOD,
        1 <= r.4 <= MAX_PERIOD,
        1 <= r.5 <= MAX_PERIOD,
{
    let u = uses_exec(name);
    (
        if u.1 { p.sma_period.unwrap() as usize } else { 1 },
        if u.3 { p.short_sma_period.unwrap() as usize } else { 1 },
        if u.4 { p.medium_sma_period.unwrap() as usize } else { 1 },
        if u.5 { p.long_sma_period.unwrap() as usize } else { 1 },
        if u.9 { p.bb_period.unwrap() as usize } else { 1 },
        if u.2 { p.rsi_period.unwrap() as usize } else { 1 },
    )
}

/// Pruning keeps every window the statistics read.
proof fn lemma_window_after_prune(s: Seq<Kline>, n: int)
    requires
        s.len() > PRUNE_THRESHOLD,
        1 <= n <= MAX_PERIOD + 1,
    ensures
        window(closes(prune(s)), n) == window(closes(s), n),
{
    let c = closes(s);
    let p = closes(prune(s));
    assert(p =~= c.subrange(RETAINED_POINTS as int, c.len() as int));
    assert(window(p, n) =~= window(c, n));
}

impl View for Algorithm {
    type V = AlgorithmModel;

    closed spec fn view(&self) -> AlgorithmModel {
        AlgorithmModel {
            name: self.name,
            interval_ms: self.interval_ms,
            params: self.params,
            points: self.data_points@,
            ema_fast: self.ema_fast as int,
            ema_slow: self.ema_slow as int,
            signal_line: self.signal_line as int,
        }
    }
}

impl Algorithm {
    pub closed spec fn wf(&self) -> bool {
        &&& self@.wf()
        &&& self.windows_track()
    }

    /// The running statistics are those of the buffered closes, over the configured windows.
    closed spec fn windows_track(&self) -> bool {
        let s = closes(self.data_points@);
        let w = window_periods(self.name, self.params);
        &&& self.w_sma.tracks(s) && self.w_sma.n == w.0
        &&& self.w_short.tracks(s) && self.w_short.n == w.1
        &&& self.w_medium.tracks(s) && self.w_medium.n == w.2
        &&& self.w_long.tracks(s) && self.w_long.n == w.3
        &&& self.w_bb.tracks(s) && self.w_bb.n == w.4
        &&& self.w_rsi.tracks(s) && self.w_rsi.n == w.5
    }

    /// Recomputes the running statistics for the configured windows.
    fn rebuild_windows(&mut self)
        requires
            old(self)@.wf(),
        ensures
            final(self).wf(),
            final(self)@ == old(self)@,
    {
        let w = window_periods_exec(self.name, &self.params);
        self.w_sma = WindowSums::build(&self.data_points, w.0);
        self.w_short = WindowSums::build(&self.data_points, w.1);
        self.w_medium = WindowSums::build(&self.data_points, w.2);
        self.w_long = WindowSums::build(&self.data_points, w.3);
        self.w_bb = WindowSums::build(&self.data_points, w.4);
        self.w_rsi = WindowSums::build(&self.data_points, w.5);
    }

    /// Builds an algorithm from the given configuration values. Fails with
    /// `InvalidParams` when a value it reads is missing or out of range; nothing is
    /// filled in.
    pub fn new(name: AlgorithmName, interval_ms: u64, params: AlgorithmParams) -> (r: Result<Algorithm, AlgorithmError>)
        ensures
            match r {
                Ok(a) => a.wf() && a@.wf() && a@ == fresh(name, interval_ms, effective(name, params, unset())),
                Err(e) => e is InvalidParams && !params_ok(name, effective(name, params, unset())),
            },
    {
        let base = unset_exec();
        let p = effective_exec(name, &params, &base);
        if !params_ok_exec(name, &p) {
            return Err(AlgorithmError::InvalidParams("missing or out-of-range algorithm parameter".to_string()));
        }
        let empty = WindowSums { n: 1, sum: 0, sum_sq: 0, gains: 0, losses: 0 };
        let mut a = Algorithm {
            name,
            interval_ms,
            params: p,
            data_points: Vec::new(),
            ema_fast: 0,
            ema_slow: 0,
            signal_line: 0,
            w_sma: WindowSums { ..empty },
            w_short: WindowSums { ..empty },
            w_medium: WindowSums { ..empty },
            w_long: WindowSums { ..empty },
            w_bb: WindowSums { ..empty },
            w_rsi: WindowSums { ..empty },
        };
        a.rebuild_windows();
        Ok(a)
    }

    pub fn name(&self) -> (r: AlgorithmName)
        ensures
            r == self@.name,
    {
        self.name
    }

    /// Length of one bar, in milliseconds.
    pub fn interval(&self) -> (r: u64)
        ensures
            r == self@.interval_ms,
    {
        self.interval_ms
    }

    /// The configuration in force.
    pub fn get_params(&self) -> (r: AlgorithmParams)
        ensures
            r == self@.params,
    {
        self.params
    }

    /// Copies of the buffered bars, oldest first.
    pub fn data_points(&self) -> (r: Vec<Kline>)
        ensures
            r@ == self@.points,
    {
        let mut r: Vec<Kline> = Vec::new();
        let mut i: usize = 0;
        while i < self.data_points.len()
            invariant
                i <= self.data_points.len(),
                r@ == self.data_points@.subrange(0, i as int),
            decreases self.data_points.len() - i,
        {
            r.push(self.data_points[i].duplicate());
            i = i + 1;
        }
        r
    }

    /// Updates the configuration: each value read is the given one, else the one in
    /// force. On `InvalidParams` nothing changes.
    pub fn set_params(&mut self, params: AlgorithmParams) -> (r: Result<(), AlgorithmError>)
        requires
            old(self).wf(),
        ensures
            final(self).wf(),
            ({
                let p = effective(old(self)@.name, params, old(self)@.params);
                match r {
                    Ok(_) => params_ok(old(self)@.name, p) && final(self)@ == (AlgorithmModel { params: p, ..old(self)@ }),
                    Err(e) => e is InvalidParams && !params_ok(old(self)@.name, p) && final(self)@ == old(self)@,
                }
            }),
    {
        let p = effective_exec(self.name, &params, &self.params);
        if !params_ok_exec(self.name, &p) {
            return Err(AlgorithmError::InvalidParams("missing or out-of-range algorithm parameter".to_string()));
        }
        self.params = p;
        self.rebuild_windows();
        Ok(())
    }

    /// Bounds memory: drops the oldest week of bars once the buffer passes the threshold.
    pub fn clean_data_points(&mut self)
        requires
            old(self).wf(),
        ensures
            final(self).wf(),
            final(self)@ == (AlgorithmModel { points: prune(old(self)@.points), ..old(self)@ }),
    {
        self.prune_points();
        assert(self@.points == old(self)@.points);
    }

    fn prune_points(&mut self)
        requires
            closes_ok(old(self)@.points),
            old(self).windows_track(),
            params_ok(old(self)@.name, old(self)@.params),
        ensures
            final(self)@ == (AlgorithmModel { points: prune(old(self)@.points), ..old(self)@ }),
            closes_ok(final(self)@.points),
            final(self).windows_track(),
            old(self)@.points.len() <= PRUNE_THRESHOLD + 1 ==> final(self)@.points.len() <= PRUNE_THRESHOLD,
    {
        if self.data_points.len() > PRUNE_THRESHOLD {
            let ghost before = self.data_points@;
            self.data_points = self.data_points.split_off(RETAINED_POINTS);
            assert forall|i: int| 0 <= i < self.data_points@.len() implies price_ok(#[trigger] self.data_points@[i].close) by {
                assert(self.data_points@[i] == before[i + RETAINED_POINTS]);
            }
            proof {
                assert(self.data_points@ == prune(before));
                let w = window_periods(self.name, self.params);
                lemma_window_after_prune(before, w.0 as int);
                lemma_window_after_prune(before, w.0 + 1);
                lemma_window_after_prune(before, w.1 as int);
                lemma_window_after_prune(before, w.1 + 1);
                lemma_window_after_prune(before, w.2 as int);
                lemma_window_after_prune(before, w.2 + 1);
                lemma_window_after_prune(before, w.3 as int);
                lemma_window_after_prune(before, w.3 + 1);
                lemma_window_after_prune(before, w.4 as int);
                lemma_window_after_prune(before, w.4 + 1);
                lemma_window_after_prune(before, w.5 as int);
                lemma_window_after_prune(before, w.5 + 1);
            }
        }
    }

    fn period_values(&self) -> (r: (u64, u64, u64))
        requires
            self.wf(),
        ensures
            r.0 == fast_period_of(self@.name, self@.params),
            r.1 == slow_period_of(self@.name, self@.params),
            r.2 == signal_period_of(self@.name, self@.params),
            1 <= r.0 <= MAX_PERIOD,
            1 <= r.1 <= MAX_PERIOD,
            1 <= r.2 <= MAX_PERIOD,
    {
        let p = &self.params;
        match self.name {
            AlgorithmName::EmaSmaCrossover | AlgorithmName::RsiEmaSma => (p.ema_period.unwrap(), 1, 1),
            AlgorithmName::Macd | AlgorithmName::MacdBollingerBands => (
                p.fast_period.unwrap(),
                p.slow_period.unwrap(),
                p.signal_period.unwrap(),
            ),
            _ => (1, 1, 1),
        }
    }

    fn lookback_exec(&self) -> (r: u64)
        requires
            params_ok(self@.name, self@.params),
        ensures
            r == lookback(self@.name, self@.params),
    {
        let p = &self.params;
        match self.name {
            AlgorithmName::EmaSmaCrossover => p.sma_period.unwrap(),
            AlgorithmName::RsiEmaSma => max_u64(
                max_u64(p.rsi_period.unwrap() + 1, p.short_sma_period.unwrap()),
                max_u64(p.medium_sma_period.unwrap(), p.long_sma_period.unwrap()),
            ),
            AlgorithmName::SimpleMovingAverage => p.sma_period.unwrap(),
            AlgorithmName::ThreeMaCrossover => max_u64(
                p.short_sma_period.unwrap(),
                max_u64(p.medium_sma_period.unwrap(), p.long_sma_period.unwrap()),
            ),
            AlgorithmName::Rsi => p.rsi_period.unwrap() + 1,
            AlgorithmName::BollingerBands => p.bb_period.unwrap(),
            AlgorithmName::Macd => p.slow_period.unwrap(),
            AlgorithmName::MacdBollingerBands => max_u64(p.slow_period.unwrap(), p.bb_period.unwrap()),
        }
    }

    /// The decision over the buffered bars and the given EMA values.
    fn decide(&self, fast: u64, slow: u64, signal: i64) -> (r: AlgorithmEvalResult)
        requires
            params_ok(self@.name, self@.params),
            closes_ok(self@.points),
            self.windows_track(),
            fast <= MAX_PRICE,
            slow <= MAX_PRICE,
            -(MAX_PRICE as int) <= signal <= MAX_PRICE,
        ensures
            r == decision(self@.name, self@.params, closes(self@.points), fast as int, slow as int, signal as int),
    {
        let p = &self.params;
        let n = self.data_points.len();
        let need = self.lookback_exec();
        assert(need == lookback(self@.name, self@.params));
        assert(closes(self@.points).len() == n);
        if (n as u64) < need {
            return AlgorithmEvalResult::Ignore;
        }
        let macd = fast as i64 - slow as i64;
        match self.name {
            AlgorithmName::EmaSmaCrossover => ema_sma_exec(&self.data_points, p.sma_period.unwrap(), fast, self.w_sma.sum),
            AlgorithmName::RsiEmaSma => rsi_ema_sma_exec(
                &self.data_points,
                p.rsi_period.unwrap(),
                p.short_sma_period.unwrap(),
                p.medium_sma_period.unwrap(),
                p.long_sma_period.unwrap(),
                fast,
                (self.w_short.sum, self.w_medium.sum, self.w_long.sum),
                (self.w_rsi.gains, self.w_rsi.losses),
            ),
            AlgorithmName::SimpleMovingAverage => sma_exec(&self.data_points, p.sma_period.unwrap(), self.w_sma.sum),
            AlgorithmName::ThreeMaCrossover => three_ma_exec(
                &self.data_points,
                p.short_sma_period.unwrap(),
                p.medium_sma_period.unwrap(),
                p.long_sma_period.unwrap(),
                self.w_short.sum,
                self.w_medium.sum,
                self.w_long.sum,
            ),
            AlgorithmName::Rsi => rsi_exec(&self.data_points, p.rsi_period.unwrap(), self.w_rsi.gains, self.w_rsi.losses),
            AlgorithmName::BollingerBands => bollinger_exec(
                &self.data_points,
                p.bb_period.unwrap(),
                p.bb_multiplier.unwrap(),
                self.w_bb.sum,
                self.w_bb.sum_sq,
            ),
            AlgorithmName::Macd => compare_exec(macd as i128, signal as i128),
            AlgorithmName::MacdBollingerBands => both_exec(
                compare_exec(macd as i128, signal as i128),
                bollinger_exec(&self.data_points, p.bb_period.unwrap(), p.bb_multiplier.unwrap(), self.w_bb.sum, self.w_bb.sum_sq),
            ),
        }
    }

    /// Buffers one bar, updates the tracked averages and returns the decision.
    /// A bar whose close the ledger cannot trade at is ignored and not buffered.
    pub fn evaluate(&mut self, kline: Kline) -> (r: AlgorithmEvalResult)
        requires
            old(self).wf(),
        ensures
            final(self).wf(),
            (final(self)@, r) == step(old(self)@, kline),
    {
        if kline.close == 0 || kline.close > MAX_PRICE {
            return AlgorithmEvalResult::Ignore;
        }
        let (fp, sp, gp) = self.period_values();
        let first = self.data_points.len() == 0;
        let x = kline.close;
        let fast = if first { x } else { next_ema(self.ema_fast, x, fp) };
        let slow = if first { x } else { next_ema(self.ema_slow, x, sp) };
        let macd = fast as i64 - slow as i64;
        let signal = if first { macd } else { next_ema_signed(self.signal_line, macd, gp) };
        let ghost before = self.data_points@;
        self.w_sma.push(&self.data_points, x);
        self.w_short.push(&self.data_points, x);
        self.w_medium.push(&self.data_points, x);
        self.w_long.push(&self.data_points, x);
        self.w_bb.push(&self.data_points, x);
        self.w_rsi.push(&self.data_points, x);
        self.data_points.push(kline);
        proof {
            assert forall|i: int| 0 <= i < self.data_points@.len() implies price_ok(#[trigger] self.data_points@[i].close) by {
                if i < before.len() {
                    assert(self.data_points@[i] == before[i]);
                }
            }
            assert(closes(self.data_points@) =~= closes(before).push(x));
        }
        let r = self.decide(fast, slow, signal);
        self.ema_fast = fast;
        self.ema_slow = slow;
        self.signal_line = signal;
        self.prune_points();
        r
    }

    /// Evaluates bars in order and returns every decision.
    pub fn evaluate_all(&mut self, klines: &Vec<Kline>) -> (r: Vec<AlgorithmEvalResult>)
        requires
            old(self).wf(),
        ensures
            final(self).wf(),
            (final(self)@, r@) == run(old(self)@, klines@),
    {
        let mut r: Vec<AlgorithmEvalResult> = Vec::new();
        let mut i: usize = 0;
        while i < klines.len()
            invariant
                self.wf(),
                i <= klines.len(),
                (self@, r@) == run(old(self)@, klines@.take(i as int)),
            decreases klines.len() - i,
        {
            proof {
                assert(klines@.take(i + 1).drop_last() =~= klines@.take(i as int));
            }
            let d = self.evaluate(klines[i].duplicate());
            r.push(d);
            i = i + 1;
        }
        proof {
            assert(klines@.take(klines@.len() as int) =~= klines@);
        }
        r
    }
}

fn max_u64(a: u64, b: u64) -> (r: u64)
    ensures
        r == max2(a as int, b as int),
{
    if a >= b { a } else { b }
}

/// Name-keyed factory of algorithms.
pub struct AlgorithmBuilder {}

impl AlgorithmBuilder {
    /// Builds the algorithm registered under `algorithm_name`, evaluating bars of
    /// `interval`. All or nothing: `UnknownInterval` when the interval does not parse,
    /// else `UnknownName` for an unregistered name, else `InvalidParams` when a value it
    /// needs is missing or out of range.
    pub fn build_algorithm(algorithm_name: &str, interval: &str, params: AlgorithmParams) -> (r: Result<Algorithm, AlgorithmError>)
        ensures
            match r {
                Ok(a) => {
                    &&& a.wf()
                    &&& a@.wf()
                    &&& interval_ms(interval@) is Some
                    &&& name_from(algorithm_name@) is Some
                    &&& a@ == fresh(
                        name_from(algorithm_name@).unwrap(),
                        interval_ms(interval@).unwrap() as u64,
                        effective(name_from(algorithm_name@).unwrap(), params, unset()),
                    )
                },
                Err(AlgorithmError::UnknownInterval(_)) => interval_ms(interval@) is None,
                Err(AlgorithmError::UnknownName(_)) => interval_ms(interval@) is Some && name_from(algorithm_name@) is None,
                Err(AlgorithmError::InvalidParams(_)) => {
                    &&& interval_ms(interval@) is Some
                    &&& name_from(algorithm_name@) is Some
                    &&& !params_ok(
                        name_from(algorithm_name@).unwrap(),
                        effective(name_from(algorithm_name@).unwrap(), params, unset()),
                    )
                },
            },
    {
        let interval_ms = match build_interval(interval) {
            Ok(v) => v,
            Err(e) => return Err(AlgorithmError::UnknownInterval(e)),
        };
        let name = match parse_algorithm_name(algorithm_name) {
            Some(n) => n,
            None => return Err(AlgorithmError::UnknownName("unknown algorithm name".to_string())),
        };
        Algorithm::new(name, interval_ms, params)
    }
}

/// Two states that differ at most in their interval evolve alike.
pub open spec fn same_state(a: AlgorithmModel, b: AlgorithmModel) -> bool {
    &&& a.name == b.name
    &&& a.params == b.params
    &&& a.points == b.points
    &&& a.ema_fast == b.ema_fast
    &&& a.ema_slow == b.ema_slow
    &&& a.signal_line == b.signal_line
}

/// Determinism: evaluation is a function of the algorithm's accumulated state and
/// the new bars alone, so two runs from the same state over the same bars decide
/// identically, whatever interval each is labelled with.
pub proof fn lemma_deterministic(a: AlgorithmModel, b: AlgorithmModel, ks: Seq<Kline>)
    requires
        same_state(a, b),
    ensures
        same_state(run(a, ks).0, run(b, ks).0),
        run(a, ks).1 == run(b, ks).1,
    decreases ks.len(),
{
    if ks.len() > 0 {
        lemma_deterministic(a, b, ks.drop_last());
    }
}

/// Warm-up: while fewer bars than the lookback are buffered, evaluation decides nothing.
pub proof fn lemma_warm_up(m: AlgorithmModel, k: Kline)
    requires
        m.points.len() + 1 < lookback(m.name, m.params),
    ensures
        step(m, k).1 == AlgorithmEvalResult::Ignore,
{
}

/// Crossover on rising prices: once warmed up over strictly increasing closes, the
/// triple moving-average crossover with short < medium < long periods decides Long,
/// so it never decides Short while the series keeps rising.
pub proof fn lemma_rising_closes_go_long(m: AlgorithmModel, k: Kline)
    requires
        m.wf(),
        m.name == AlgorithmName::ThreeMaCrossover,
        m.params.short_sma_period.unwrap() < m.params.medium_sma_period.unwrap(),
        m.params.medium_sma_period.unwrap() < m.params.long_sma_period.unwrap(),
        price_ok(k.close),
        strictly_increasing(closes(m.points.push(k))),
        m.points.len() + 1 >= lookback(m.name, m.params),
    ensures
        step(m, k).1 == AlgorithmEvalResult::Long,
{
    let s = closes(m.points.push(k));
    let a = m.params.short_sma_period.unwrap() as int;
    let b = m.params.medium_sma_period.unwrap() as int;
    let c = m.params.long_sma_period.unwrap() as int;
    lemma_shorter_window_higher_mean(s, a, b);
    lemma_shorter_window_higher_mean(s, b, c);
    assert(sum_u(last_n(s, b)) * a == sum_u(last_n(s, b)) * a);
}

/// EMA over SMA crossover: once warmed up, whenever the fast EMA after this bar is
/// above the slow SMA of the last `sma_period` closes, evaluation decides Long (and
/// Short whenever it is below).
pub proof fn lemma_ema_above_sma_goes_long(m: AlgorithmModel, k: Kline)
    requires
        m.name == AlgorithmName::EmaSmaCrossover,
        price_ok(k.close),
        m.points.len() + 1 >= lookback(m.name, m.params),
    ensures
        ({
            let n = m.params.sma_period.unwrap() as int;
            let s = closes(m.points.push(k));
            let fast = step(m, k).0.ema_fast;
            &&& fast * n > sum_u(last_n(s, n)) ==> step(m, k).1 == AlgorithmEvalResult::Long
            &&& fast * n < sum_u(last_n(s, n)) ==> step(m, k).1 == AlgorithmEvalResult::Short
        }),
{
}

/// Crossover on rising prices for the simple average rule: once warmed up over
/// strictly increasing closes with a period of at least two, the last close is
/// above its average and the rule decides Long.
pub proof fn lemma_rising_closes_above_average(m: AlgorithmModel, k: Kline)
    requires
        m.wf(),
        m.name == AlgorithmName::SimpleMovingAverage,
        m.params.sma_period.unwrap() >= 2,
        price_ok(k.close),
        strictly_increasing(closes(m.points.push(k))),
        m.points.len() + 1 >= lookback(m.name, m.params),
    ensures
        step(m, k).1 == AlgorithmEvalResult::Long,
{
    let s = closes(m.points.push(k));
    let n = m.params.sma_period.unwrap() as int;
    lemma_shorter_window_higher_mean(s, 1, n);
    let l1 = last_n(s, 1);
    assert(l1.len() == 1);
    assert(l1.drop_last() =~= Seq::<u64>::empty());
    assert(sum_u(l1.drop_last()) == 0);
    assert(l1.last() == s.last());
    assert(sum_u(l1) == s.last() as int);
    assert(sum_u(last_n(s, n)) * 1 == sum_u(last_n(s, n)));
    assert(s.last() * n == (s.last() as int) * n);
}

} // verus!
