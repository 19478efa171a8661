//! Reading integers from text as `str::parse` reads them: an optional sign,
//! then decimal digits only, within the range of the integer type.
use vstd::prelude::*;

verus! {

/// `c` is an ASCII decimal digit.
pub open spec fn is_digit(c: char) -> bool {
    '0' <= c && c <= '9'
}

/// `s` is a non-empty run of decimal digits.
pub open spec fn all_digits(s: Seq<char>) -> bool {
    s.len() > 0 && forall|i: int| 0 <= i < s.len() ==> is_digit(#[trigger] s[i])
}

/// Value of a run of decimal digits.
pub open spec fn digits_value(s: Seq<char>) -> int
    decreases s.len(),
{
    if s.len() == 0 {
        0
    } else {
        digits_value(s.drop_last()) * 10 + (s.last() as int - 48)
    }
}

/// The integer that `s` spells (sign allowed only for signed types),
/// regardless of range.
pub open spec fn parse_int_spec(s: Seq<char>, signed: bool) -> Option<int> {
    if s.len() == 0 {
        None
    } else if (s[0] == '+' || s[0] == '-') && s.len() == 1 {
        None
    } else if s[0] == '+' {
        if all_digits(s.drop_first()) { Some(digits_value(s.drop_first())) } else { None }
    } else if s[0] == '-' && signed {
        if all_digits(s.drop_first()) { Some(-digits_value(s.drop_first())) } else { None }
    } else if all_digits(s) {
        Some(digits_value(s))
    } else {
        None
    }
}

/// The integer that `s` spells, if it lies within `lo..=hi`.
pub open spec fn parse_bounded(s: Seq<char>, signed: bool, lo: int, hi: int) -> Option<int> {
    match parse_int_spec(s, signed) {
        Some(v) => if lo <= v && v <= hi { Some(v) } else { None },
        None => None,
    }
}

proof fn lemma_digits_value_grows(s: Seq<char>, k: int)
    requires
        0 <= k <= s.len(),
        forall|i: int| 0 <= i < s.len() ==> is_digit(#[trigger] s[i]),
    ensures
        digits_value(s.take(k)) <= digits_value(s),
        digits_value(s.take(k)) >= 0,
    decreases s.len() - k,
{
    if k < s.len() {
        lemma_digits_value_grows(s, k + 1);
        assert(s.take(k + 1).drop_last() =~= s.take(k));
        assert(s.take(k + 1).last() == s[k]);
    } else {
        assert(s.take(k) =~= s);
        lemma_digits_nonneg(s);
    }
}

proof fn lemma_digits_nonneg(s: Seq<char>)
    requires
        forall|i: int| 0 <= i < s.len() ==> is_digit(#[trigger] s[i]),
    ensures
        digits_value(s) >= 0,
    decreases s.len(),
{
    if s.len() > 0 {
        lemma_digits_nonneg(s.drop_last());
        assert(is_digit(s[s.len() - 1]));
    }
}

/// Reads the digits of `s` from `start` on, negated when `negative`, if
/// they lie within `lo..=hi`.
fn parse_digits(s: &[char], start: usize, negative: bool, lo: i128, hi: i128) -> (r: Option<i128>)
    requires
        start < s@.len(),
        lo <= 0 <= hi,
        hi <= 0x1_0000_0000_0000_0000,
        -0x1_0000_0000_0000_0000 <= lo,
    ensures
        ({
            let d = s@.skip(start as int);
            let v = if negative { -digits_value(d) } else { digits_value(d) };
            r == if all_digits(d) && lo <= v && v <= hi { Some(v as i128) } else { None::<i128> }
        }),
{
    let ghost d = s@.skip(start as int);
    let mut acc: i128 = 0;
    let mut i: usize = start;
    while i < s.len()
        invariant
            start <= i <= s@.len(),
            start < s@.len(),
            d == s@.skip(start as int),
            lo <= 0 <= hi,
            hi <= 0x1_0000_0000_0000_0000,
            -0x1_0000_0000_0000_0000 <= lo,
            forall|j: int| 0 <= j < i - start ==> is_digit(#[trigger] d[j]),
            acc == digits_value(d.take(i - start)),
            0 <= acc,
            acc <= if negative { -lo } else { hi as int },
        decreases s@.len() - i,
    {
        let c = s[i];
        assert(d[i - start] == c);
        if !('0' <= c && c <= '9') {
            return None;
        }
        assert(d.take(i - start + 1).drop_last() =~= d.take(i - start));
        let digit = (c as u32 - 48) as i128;
        assert(acc * 10 <= 0x1_0000_0000_0000_0000 * 10) by (nonlinear_arith)
            requires
                0 <= acc <= 0x1_0000_0000_0000_0000,
        ;
        proof {
            lemma_digits_nonneg(d.take(i - start));
        }
        acc = acc * 10 + digit;
        i += 1;
        let bound: i128 = if negative { -lo } else { hi };
        if acc > bound {
            proof {
                let k = i - start;
                assert forall|j: int| 0 <= j < k implies is_digit(#[trigger] d[j]) by {}
                if all_digits(d) {
                    lemma_digits_value_grows(d, k);
                }
            }
            return None;
        }
    }
    assert(d.take(d.len() as int) =~= d);
    proof {
        lemma_digits_nonneg(d);
    }
    if negative { Some(-acc) } else { Some(acc) }
}

/// Reads an integer (`str::parse`): `signed` allows a leading `-`; the
/// result must lie within `lo..=hi`.
pub fn parse_integer(s: &[char], signed: bool, lo: i128, hi: i128) -> (r: Option<i128>)
    requires
        lo <= 0 <= hi,
        hi <= 0x1_0000_0000_0000_0000,
        -0x1_0000_0000_0000_0000 <= lo,
    ensures
        match r {
            Some(v) => parse_bounded(s@, signed, lo as int, hi as int) == Some(v as int),
            None => parse_bounded(s@, signed, lo as int, hi as int) is None,
        },
{
    if s.len() == 0 {
        return None;
    }
    if (s[0] == '+' || s[0] == '-') && s.len() == 1 {
        return None;
    }
    assert(s@.drop_first() =~= s@.skip(1));
    assert(s@.skip(0) =~= s@);
    if s[0] == '+' {
        parse_digits(s, 1, false, lo, hi)
    } else if s[0] == '-' && signed {
        parse_digits(s, 1, true, lo, hi)
    } else {
        parse_digits(s, 0, false, lo, hi)
    }
}

/// Reads an `i64` (`str::parse::<i64>`).
pub fn parse_i64(s: &[char]) -> (r: Option<i64>)
    ensures
        match r {
            Some(v) => parse_bounded(s@, true, i64::MIN as int, i64::MAX as int) == Some(v as int),
            None => parse_bounded(s@, true, i64::MIN as int, i64::MAX as int) is None,
        },
{
    match parse_integer(s, true, i64::MIN as i128, i64::MAX as i128) {
        Some(v) => Some(v as i64),
        None => None,
    }
}

/// Reads an `i32` (`str::parse::<i32>`).
pub fn parse_i32(s: &[char]) -> (r: Option<i32>)
    ensures
        match r {
            Some(v) => parse_bounded(s@, true, i32::MIN as int, i32::MAX as int) == Some(v as int),
            None => parse_bounded(s@, true, i32::MIN as int, i32::MAX as int) is None,
        },
{
    match parse_integer(s, true, i32::MIN as i128, i32::MAX as i128) {
        Some(v) => Some(v as i32),
        None => None,
    }
}

/// Reads a `u32` (`str::parse::<u32>`).
pub fn parse_u32(s: &[char]) -> (r: Option<u32>)
    ensures
        match r {
            Some(v) => parse_bounded(s@, false, 0, u32::MAX as int) == Some(v as int),
            None => parse_bounded(s@, false, 0, u32::MAX as int) is None,
        },
{
    match parse_integer(s, false, 0, u32::MAX as i128) {
        Some(v) => Some(v as u32),
        None => None,
    }
}

} // verus!
