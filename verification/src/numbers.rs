//! Decimal integers typed into fields, read as `str::parse` reads them: an
//! optional sign (`-` only for signed types), then one or more ASCII
//! digits, and a value within the type's range.
use vstd::prelude::*;

verus! {

pub open spec fn is_digit(c: char) -> bool {
    '0' <= c && c <= '9'
}

pub open spec fn all_digits(s: Seq<char>) -> bool {
    forall|i: int| 0 <= i < s.len() ==> #[trigger] is_digit(s[i])
}

/// The value of a run of decimal digits.
pub open spec fn digits_value(s: Seq<char>) -> int
    decreases s.len(),
{
    if s.len() == 0 {
        0
    } else {
        10 * digits_value(s.drop_last()) + (s.last() as int - '0' as int)
    }
}

/// Sign and magnitude of a decimal integer, if `s` is one; `signed` says
/// whether a leading `-` is allowed.
pub open spec fn spec_decimal(s: Seq<char>, signed: bool) -> Option<(bool, int)> {
    let (neg, body) = if s.len() > 0 && s[0] == '+' {
        (false, s.drop_first())
    } else if signed && s.len() > 0 && s[0] == '-' {
        (true, s.drop_first())
    } else {
        (false, s)
    };
    if body.len() == 0 || !all_digits(body) {
        None
    } else {
        Some((neg, digits_value(body)))
    }
}

/// What `str::parse::<i64>` gives.
pub open spec fn spec_parse_i64(s: Seq<char>) -> Option<i64> {
    match spec_decimal(s, true) {
        Some((neg, m)) => {
            let v = if neg { -m } else { m };
            if i64::MIN <= v <= i64::MAX { Some(v as i64) } else { None }
        },
        None => None,
    }
}

/// What `str::parse::<u32>` gives.
pub open spec fn spec_parse_u32(s: Seq<char>) -> Option<u32> {
    match spec_decimal(s, false) {
        Some((_, m)) => if m <= u32::MAX { Some(m as u32) } else { None },
        None => None,
    }
}

/// What `str::parse::<u8>` gives.
pub open spec fn spec_parse_u8(s: Seq<char>) -> Option<u8> {
    match spec_decimal(s, false) {
        Some((_, m)) => if m <= u8::MAX { Some(m as u8) } else { None },
        None => None,
    }
}

proof fn lemma_digits_value_nonneg(s: Seq<char>)
    requires
        all_digits(s),
    ensures
        digits_value(s) >= 0,
    decreases s.len(),
{
    if s.len() > 0 {
        assert(all_digits(s.drop_last())) by {
            assert forall|i: int| 0 <= i < s.drop_last().len() implies #[trigger] is_digit(s.drop_last()[i]) by {
                assert(is_digit(s[i]));
            }
        }
        lemma_digits_value_nonneg(s.drop_last());
        assert(is_digit(s[s.len() - 1]));
    }
}

/// A longer run of digits is worth at least as much as its prefix.
proof fn lemma_digits_value_mono(s: Seq<char>, k: int)
    requires
        all_digits(s),
        0 <= k <= s.len(),
    ensures
        digits_value(s.take(k)) <= digits_value(s),
    decreases s.len() - k,
{
    if k < s.len() {
        let d = s.drop_last();
        assert(all_digits(d)) by {
            assert forall|i: int| 0 <= i < d.len() implies #[trigger] is_digit(d[i]) by {
                assert(is_digit(s[i]));
            }
        }
        assert(d.take(k) =~= s.take(k));
        lemma_digits_value_mono(d, k);
        lemma_digits_value_nonneg(d);
        assert(is_digit(s[s.len() - 1]));
    } else {
        assert(s.take(k) =~= s);
    }
}

/// Sign and magnitude of the decimal integer `s`, when it is one whose
/// magnitude is at most `cap`; `None` when it is not one, or its magnitude
/// exceeds `cap`.
fn decimal(s: &[char], signed: bool, cap: u64) -> (r: Option<(bool, u64)>)
    requires
        cap >= 9,
    ensures
        match r {
            Some((neg, m)) => spec_decimal(s@, signed) == Some((neg, m as int)) && m <= cap,
            None => match spec_decimal(s@, signed) {
                Some((_, m)) => m > cap,
                None => true,
            },
        },
{
    let n = s.len();
    let mut start: usize = 0;
    let mut neg = false;
    if n > 0 && s[0] == '+' {
        start = 1;
    } else if signed && n > 0 && s[0] == '-' {
        start = 1;
        neg = true;
    }
    let ghost body = s@.subrange(start as int, n as int);
    assert(start == 1 ==> body =~= s@.drop_first());
    assert(start == 0 ==> body =~= s@);
    if start == n {
        return None;
    }
    let mut v: u64 = 0;
    let mut i: usize = start;
    assert(spec_decimal(s@, signed) == (if body.len() == 0 || !all_digits(body) {
        None
    } else {
        Some((neg, digits_value(body)))
    }));
    while i < n
        invariant
            spec_decimal(s@, signed) == (if body.len() == 0 || !all_digits(body) {
                None
            } else {
                Some((neg, digits_value(body)))
            }),
            start < n,
            n == s@.len(),
            body == s@.subrange(start as int, n as int),
            start <= i <= n,
            cap >= 9,
            all_digits(body.take(i - start)),
            v as int == digits_value(body.take(i - start)),
            v <= cap,
        decreases n - i,
    {
        let c = s[i];
        if !('0' <= c && c <= '9') {
            proof {
                assert(body[i - start] == c);
                assert(!is_digit(body[i - start]));
            }
            return None;
        }
        let d: u64 = (c as u32 - '0' as u32) as u64;
        proof {
            assert(body.take(i - start + 1).drop_last() =~= body.take(i - start));
            assert(body.take(i - start + 1).last() == c);
            assert(all_digits(body.take(i - start + 1))) by {
                assert forall|j: int| 0 <= j < body.take(i - start + 1).len() implies #[trigger] is_digit(body.take(i - start + 1)[j]) by {
                    if j < i - start {
                        assert(body.take(i - start + 1)[j] == body.take(i - start)[j]);
                    }
                }
            }
        }
        if v > (cap - d) / 10 {
            proof {
                assert(10 * v + d > cap) by (nonlinear_arith)
                    requires
                        v > (cap - d) / 10,
                        d <= 9,
                        cap >= 9,
                ;
                assert(digits_value(body.take(i - start + 1)) == 10 * v + d);
                if all_digits(body) {
                    lemma_digits_value_mono(body, i - start + 1);
                }
            }
            return None;
        }
        v = v * 10 + d;
        i = i + 1;
    }
    proof {
        assert(body.take(n - start) =~= body);
    }
    Some((neg, v))
}

/// `s.parse::<i64>()`, as an option.
pub fn parse_i64(s: &[char]) -> (r: Option<i64>)
    ensures
        r == spec_parse_i64(s@),
{
    match decimal(s, true, 9223372036854775808u64) {
        None => None,
        Some((neg, m)) => {
            if neg {
                if m == 9223372036854775808u64 {
                    Some(i64::MIN)
                } else {
                    Some(-(m as i64))
                }
            } else if m <= 9223372036854775807u64 {
                Some(m as i64)
            } else {
                None
            }
        },
    }
}

/// `s.parse::<u32>()`, as an option.
pub fn parse_u32(s: &[char]) -> (r: Option<u32>)
    ensures
        r == spec_parse_u32(s@),
{
    match decimal(s, false, 4294967295u64) {
        None => None,
        Some((_, m)) => Some(m as u32),
    }
}

/// `s.parse::<u8>()`, as an option.
pub fn parse_u8(s: &[char]) -> (r: Option<u8>)
    ensures
        r == spec_parse_u8(s@),
{
    match decimal(s, false, 255u64) {
        None => None,
        Some((_, m)) => Some(m as u8),
    }
}

} // verus!
