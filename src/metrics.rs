use vstd::prelude::*;

verus! {

/// Realized profits as mathematical integers.
pub open spec fn ints(s: Seq<i128>) -> Seq<int> {
    s.map_values(|x: i128| x as int)
}

/// Sum of a sequence of profits.
pub open spec fn sum_of(s: Seq<int>) -> int
    decreases s.len(),
{
    if s.len() == 0 {
        0
    } else {
        sum_of(s.drop_last()) + s.last()
    }
}

/// Highest value the running cumulative sum reaches, starting from a zero baseline.
pub open spec fn peak(s: Seq<int>) -> int
    decreases s.len(),
{
    if s.len() == 0 {
        0
    } else {
        let p = peak(s.drop_last());
        let c = sum_of(s);
        if c > p { c } else { p }
    }
}

/// Lowest value the running cumulative sum reaches, starting from a zero baseline.
pub open spec fn trough(s: Seq<int>) -> int
    decreases s.len(),
{
    if s.len() == 0 {
        0
    } else {
        let t = trough(s.drop_last());
        let c = sum_of(s);
        if c < t { c } else { t }
    }
}

/// Every running cumulative sum fits in an `i128`.
pub open spec fn sums_fit(s: Seq<int>) -> bool {
    forall|k: int| 0 <= k <= s.len() ==> i128::MIN <= #[trigger] sum_of(s.take(k)) <= i128::MAX
}

proof fn lemma_take_step(s: Seq<int>, i: int)
    requires
        0 <= i < s.len(),
    ensures
        s.take(i + 1).drop_last() == s.take(i),
        s.take(i + 1).last() == s[i],
{
    assert(s.take(i + 1).drop_last() =~= s.take(i));
}

proof fn lemma_take_all(s: Seq<int>)
    ensures
        s.take(s.len() as int) == s,
{
    assert(s.take(s.len() as int) =~= s);
}

/// Total of the profits.
pub fn total_profit_of(profits: &Vec<i128>) -> (r: i128)
    requires
        sums_fit(ints(profits@)),
    ensures
        r as int == sum_of(ints(profits@)),
{
    let ghost s = ints(profits@);
    let mut cur: i128 = 0;
    let mut i: usize = 0;
    while i < profits.len()
        invariant
            s == ints(profits@),
            sums_fit(s),
            i <= profits.len(),
            cur as int == sum_of(s.take(i as int)),
        decreases profits.len() - i,
    {
        proof {
            lemma_take_step(s, i as int);
            assert(i128::MIN <= sum_of(s.take(i + 1)) <= i128::MAX);
        }
        cur = cur + profits[i];
        i = i + 1;
    }
    proof { lemma_take_all(s); }
    cur
}

/// Highest running cumulative profit, from a zero baseline.
pub fn max_profit_of(profits: &Vec<i128>) -> (r: i128)
    requires
        sums_fit(ints(profits@)),
    ensures
        r as int == peak(ints(profits@)),
{
    let ghost s = ints(profits@);
    let mut cur: i128 = 0;
    let mut best: i128 = 0;
    let mut i: usize = 0;
    while i < profits.len()
        invariant
            s == ints(profits@),
            sums_fit(s),
            i <= profits.len(),
            cur as int == sum_of(s.take(i as int)),
            best as int == peak(s.take(i as int)),
        decreases profits.len() - i,
    {
        proof {
            lemma_take_step(s, i as int);
            assert(i128::MIN <= sum_of(s.take(i + 1)) <= i128::MAX);
        }
        cur = cur + profits[i];
        if cur > best {
            best = cur;
        }
        i = i + 1;
    }
    proof { lemma_take_all(s); }
    best
}

/// Lowest running cumulative profit, from a zero baseline.
pub fn max_drawdown_of(profits: &Vec<i128>) -> (r: i128)
    requires
        sums_fit(ints(profits@)),
    ensures
        r as int == trough(ints(profits@)),
{
    let ghost s = ints(profits@);
    let mut cur: i128 = 0;
    let mut worst: i128 = 0;
    let mut i: usize = 0;
    while i < profits.len()
        invariant
            s == ints(profits@),
            sums_fit(s),
            i <= profits.len(),
            cur as int == sum_of(s.take(i as int)),
            worst as int == trough(s.take(i as int)),
        decreases profits.len() - i,
    {
        proof {
            lemma_take_step(s, i as int);
            assert(i128::MIN <= sum_of(s.take(i + 1)) <= i128::MAX);
        }
        cur = cur + profits[i];
        if cur < worst {
            worst = cur;
        }
        i = i + 1;
    }
    proof { lemma_take_all(s); }
    worst
}

/// Whether every running cumulative sum of the profits fits in an `i128`.
pub fn profits_fit(profits: &Vec<i128>) -> (r: bool)
    ensures
        r == sums_fit(ints(profits@)),
{
    let ghost s = ints(profits@);
    let mut cur: i128 = 0;
    let mut i: usize = 0;
    proof {
        assert(s.take(0) =~= Seq::<int>::empty());
    }
    while i < profits.len()
        invariant
            s == ints(profits@),
            i <= profits.len(),
            cur as int == sum_of(s.take(i as int)),
            forall|k: int| 0 <= k <= i ==> i128::MIN <= #[trigger] sum_of(s.take(k)) <= i128::MAX,
        decreases profits.len() - i,
    {
        proof { lemma_take_step(s, i as int); }
        let p = profits[i];
        if (p > 0 && cur > i128::MAX - p) || (p < 0 && cur < i128::MIN - p) {
            assert(!(i128::MIN <= sum_of(s.take(i + 1)) <= i128::MAX));
            return false;
        }
        cur = cur + p;
        i = i + 1;
    }
    proof { lemma_take_all(s); }
    true
}

} // verus!
