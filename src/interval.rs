use vstd::prelude::*;
use vstd::string::StrSliceExecFns;

verus! {

/// Whether two strings hold the same characters.
pub fn same_text(a: &str, b: &str) -> (r: bool)
    ensures
        r == (a@ == b@),
{
    let n = a.unicode_len();
    if n != b.unicode_len() {
        return false;
    }
    let mut i: usize = 0;
    while i < n
        invariant
            n == a@.len(),
            n == b@.len(),
            i <= n,
            forall|j: int| 0 <= j < i ==> a@[j] == b@[j],
        decreases n - i,
    {
        if a.get_char(i) != b.get_char(i) {
            return false;
        }
        i = i + 1;
    }
    assert(a@ =~= b@);
    true
}

pub open spec fn is_digit(c: char) -> bool {
    '0' <= c && c <= '9'
}

pub open spec fn digit_value(c: char) -> nat {
    (c as u32 - '0' as u32) as nat
}

/// The number that a run of decimal digits spells.
pub open spec fn decimal(s: Seq<char>) -> nat
    decreases s.len(),
{
    if s.len() == 0 {
        0
    } else {
        decimal(s.drop_last()) * 10 + digit_value(s.last())
    }
}

/// Milliseconds in one unit of an interval suffix.
pub open spec fn unit_ms(c: char) -> Option<nat> {
    if c == 's' {
        Some(1_000)
    } else if c == 'm' {
        Some(60_000)
    } else if c == 'h' {
        Some(3_600_000)
    } else if c == 'd' {
        Some(86_400_000)
    } else if c == 'w' {
        Some(604_800_000)
    } else {
        None
    }
}

/// Length in milliseconds of an interval written as a positive count followed by
/// one unit letter (`s`, `m`, `h`, `d` or `w`), e.g. `15m` or `4h`.
pub open spec fn interval_ms(s: Seq<char>) -> Option<nat> {
    if s.len() < 2 {
        None
    } else {
        let digits = s.drop_last();
        if !(forall|i: int| 0 <= i < digits.len() ==> is_digit(#[trigger] digits[i])) {
            None
        } else if unit_ms(s.last()) is None {
            None
        } else {
            let v = decimal(digits) * unit_ms(s.last()).unwrap();
            if v == 0 || v > u64::MAX {
                None
            } else {
                Some(v)
            }
        }
    }
}

proof fn lemma_decimal_grows(s: Seq<char>, i: int)
    requires
        0 <= i <= s.len(),
    ensures
        decimal(s.take(i)) <= decimal(s),
    decreases s.len() - i,
{
    if i < s.len() {
        lemma_decimal_grows(s, i + 1);
        assert(s.take(i + 1).drop_last() =~= s.take(i));
    } else {
        assert(s.take(i) =~= s);
    }
}

fn unit_of(c: char) -> (r: Option<u64>)
    ensures
        match r {
            Some(v) => unit_ms(c) == Some(v as nat),
            None => unit_ms(c) is None,
        },
{
    if c == 's' {
        Some(1_000)
    } else if c == 'm' {
        Some(60_000)
    } else if c == 'h' {
        Some(3_600_000)
    } else if c == 'd' {
        Some(86_400_000)
    } else if c == 'w' {
        Some(604_800_000)
    } else {
        None
    }
}

/// Parses an interval such as `1m`, `15m`, `4h` or `1d` into milliseconds.
pub fn build_interval(interval: &str) -> (r: Result<u64, String>)
    ensures
        match r {
            Ok(v) => interval_ms(interval@) == Some(v as nat),
            Err(_) => interval_ms(interval@) is None,
        },
{
    let n = interval.unicode_len();
    if n < 2 {
        return Err("interval needs a count and a unit".to_string());
    }
    let last = interval.get_char(n - 1);
    let ghost s = interval@;
    assert(s.last() == last);
    let unit = match unit_of(last) {
        Some(u) => u,
        None => return Err("unknown interval unit".to_string()),
    };
    let ghost digits = s.drop_last();
    let mut value: u64 = 0;
    let mut i: usize = 0;
    while i < n - 1
        invariant
            n == s.len(),
            s == interval@,
            digits == s.drop_last(),
            unit_ms(s.last()) == Some(unit as nat),
            unit >= 1000,
            i <= n - 1,
            forall|j: int| 0 <= j < i ==> is_digit(#[trigger] digits[j]),
            value as nat == decimal(digits.take(i as int)),
        decreases n - 1 - i,
    {
        let c = interval.get_char(i);
        proof {
            assert(digits.take(i + 1).drop_last() =~= digits.take(i as int));
            assert(digits[i as int] == c);
        }
        if !('0' <= c && c <= '9') {
            return Err("interval count is not a number".to_string());
        }
        let d = (c as u32 - '0' as u32) as u64;
        if value > (u64::MAX - d) / 10 {
            proof {
                lemma_decimal_grows(digits, i + 1);
                assert(decimal(digits.take(i + 1)) > u64::MAX);
                assert(decimal(digits) * unit_ms(s.last()).unwrap() >= decimal(digits)) by (nonlinear_arith)
                    requires unit_ms(s.last()).unwrap() >= 1;
                assert(forall|j: int| 0 <= j < digits.len() ==> is_digit(#[trigger] digits[j]) ==> true);
            }
            return Err("interval is too long".to_string());
        }
        value = value * 10 + d;
        i = i + 1;
    }
    proof {
        assert(digits.take(digits.len() as int) =~= digits);
    }
    if value == 0 || value > u64::MAX / unit {
        proof {
            if value > 0 {
                assert(value * unit > u64::MAX) by (nonlinear_arith)
                    requires value > u64::MAX / unit, unit > 0;
            }
        }
        return Err("interval is out of range".to_string());
    }
    proof {
        assert(value * unit <= u64::MAX) by (nonlinear_arith)
            requires value <= u64::MAX / unit, unit > 0;
        assert(decimal(digits) == value as nat);
        assert(forall|j: int| 0 <= j < digits.len() ==> is_digit(#[trigger] digits[j]));
        assert(unit_ms(s.last()).unwrap() == unit as nat);
        assert(decimal(digits) * unit_ms(s.last()).unwrap() == (value * unit) as nat);
        assert(interval_ms(s) == Some((value * unit) as nat));
    }
    Ok(value * unit)
}

} // verus!
