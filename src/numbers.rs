//! Reading a signed 64-bit integer from text, as `str::parse::<i64>` does.
use vstd::prelude::*;

verus! {

pub open spec fn is_digit(c: char) -> bool {
    '0' <= c && c <= '9'
}

pub open spec fn all_digits(s: Seq<char>) -> bool {
    forall|i: int| 0 <= i < s.len() ==> is_digit(s[i])
}

/// The value of a run of decimal digits.
pub open spec fn digits_value(s: Seq<char>) -> int
    decreases s.len(),
{
    if s.len() == 0 {
        0
    } else {
        digits_value(s.drop_last()) * 10 + (s.last() as int - '0' as int)
    }
}

/// The integer that `s` spells: an optional `+` or `-`, then one or more digits.
pub open spec fn int_text(s: Seq<char>) -> Option<int> {
    if s.len() > 0 && (s[0] == '-' || s[0] == '+') {
        let d = s.skip(1);
        if d.len() > 0 && all_digits(d) {
            Some(if s[0] == '-' { -digits_value(d) } else { digits_value(d) })
        } else {
            None
        }
    } else if s.len() > 0 && all_digits(s) {
        Some(digits_value(s))
    } else {
        None
    }
}

/// What `str::parse::<i64>` gives: the integer, when it spells one in range.
pub open spec fn i64_of(s: Seq<char>) -> Option<int> {
    match int_text(s) {
        Some(v) => if i64::MIN <= v <= i64::MAX {
            Some(v)
        } else {
            None
        },
        None => None,
    }
}

proof fn lemma_digits_grow(s: Seq<char>, i: int, j: int)
    requires
        0 <= i <= j <= s.len(),
        all_digits(s),
    ensures
        digits_value(s.take(i)) <= digits_value(s.take(j)),
        0 <= digits_value(s.take(i)),
    decreases j,
{
    if j > i {
        lemma_digits_grow(s, i, j - 1);
        assert(s.take(j).drop_last() =~= s.take(j - 1));
        assert(is_digit(s[j - 1]));
    } else {
        lemma_digits_nonneg(s.take(i));
    }
}

proof fn lemma_digits_nonneg(s: Seq<char>)
    requires
        all_digits(s),
    ensures
        0 <= digits_value(s),
    decreases s.len(),
{
    if s.len() > 0 {
        lemma_digits_nonneg(s.drop_last());
    }
}

/// Reads `s` as a decimal `i64`; `None` when it is not one or is out of range.
pub fn parse_i64(s: &[char]) -> (r: Option<i64>)
    ensures
        match i64_of(s@) {
            Some(v) => r == Some(v as i64),
            None => r is None,
        },
{
    let n = s.len();
    if n == 0 {
        return None;
    }
    let neg = s[0] == '-';
    let start: usize = if s[0] == '-' || s[0] == '+' { 1 } else { 0 };
    let ghost d = s@.skip(start as int);
    if start == n {
        return None;
    }
    let limit: u64 = 9223372036854775808;
    let mut acc: u64 = 0;
    let mut i: usize = start;
    while i < n
        invariant
            start <= i <= n,
            n == s@.len(),
            0 < n,
            start < n,
            d == s@.skip(start as int),
            all_digits(d.take(i - start)),
            acc as int == digits_value(d.take(i - start)),
            acc <= limit,
            limit == 9223372036854775808u64,
            start <= 1,
            start == 1 <==> (s@[0] == '-' || s@[0] == '+'),
            neg == (s@[0] == '-'),
        decreases n - i,
    {
        let c = s[i];
        if !('0' <= c && c <= '9') {
            assert(d[i - start] == c);
            assert(!all_digits(d));
            if start == 0 {
                assert(d =~= s@);
            }
            assert(int_text(s@) is None);
            return None;
        }
        let digit: u64 = (c as u64) - ('0' as u64);
        assert(digit <= 9);
        assert(digit as int == c as int - '0' as int);
        assert(d.take(i + 1 - start).drop_last() =~= d.take(i - start));
        assert(d.take(i + 1 - start).last() == c);
        assert(all_digits(d.take(i + 1 - start)));
        assert(digits_value(d.take(i + 1 - start)) == acc * 10 + digit);
        if acc > (limit - digit) / 10 {
            assert(digits_value(d.take(i + 1 - start)) > limit) by (nonlinear_arith)
                requires
                    digits_value(d.take(i + 1 - start)) == acc * 10 + digit,
                    acc > (limit - digit) / 10,
                    digit <= 9,
            ;
            proof {
                if all_digits(d) {
                    lemma_digits_grow(d, i + 1 - start, d.len() as int);
                    assert(d.take(d.len() as int) =~= d);
                    assert(digits_value(d) > 9223372036854775808);
                }
                if start == 0 {
                    assert(d =~= s@);
                }
                match int_text(s@) {
                    Some(v) => {
                        assert(all_digits(d));
                        if start == 1 && s@[0] == '-' {
                            assert(v == -digits_value(d));
                        } else if start == 1 {
                            assert(s@.skip(1) == d);
                            assert(v == digits_value(d));
                        } else {
                            assert(s@ == d);
                            assert(v == digits_value(s@));
                        }
                    },
                    None => {},
                }
            }
            return None;
        }
        assert(acc * 10 + digit <= limit) by (nonlinear_arith)
            requires
                acc <= (limit - digit) / 10,
                digit <= 9,
                limit == 9223372036854775808u64,
        ;
        acc = acc * 10 + digit;
        i = i + 1;
    }
    assert(d.take(n - start) =~= d);
    if start == 0 {
        assert(d =~= s@);
    }
    if neg {
        if acc == limit {
            Some(-9223372036854775807i64 - 1)
        } else {
            Some(-(acc as i64))
        }
    } else if acc == limit {
        None
    } else {
        Some(acc as i64)
    }
}

/// The index just past the run of decimal digits that starts at `i`.
pub open spec fn digits_end(s: Seq<char>, i: int) -> int
    decreases s.len() - i,
{
    if 0 <= i < s.len() && is_digit(s[i]) {
        digits_end(s, i + 1)
    } else {
        i
    }
}

/// A finite decimal number as Rust's float parsing reads it: an optional sign,
/// digits with at most one `.` (at least one digit in all), then optionally `e`
/// or `E`, an optional sign and one or more digits. `inf`, `nan` and other
/// bases are not of this form.
pub open spec fn decimal_number(s: Seq<char>) -> bool {
    let a: int = if s.len() > 0 && (s[0] == '+' || s[0] == '-') { 1 } else { 0 };
    let b = digits_end(s, a);
    let c = if b < s.len() && s[b] == '.' { digits_end(s, b + 1) } else { b };
    let frac = if b < s.len() && s[b] == '.' { c - (b + 1) } else { 0 };
    (b - a) + frac > 0 && (c == s.len() || (c < s.len() && (s[c] == 'e' || s[c] == 'E') && {
        let d = if c + 1 < s.len() && (s[c + 1] == '+' || s[c + 1] == '-') {
            c + 2
        } else {
            c + 1
        };
        let e = digits_end(s, d);
        e > d && e == s.len()
    }))
}

fn digits_end_exec(s: &[char], i: usize) -> (r: usize)
    requires
        i <= s@.len(),
    ensures
        r as int == digits_end(s@, i as int),
        i <= r <= s@.len(),
{
    let mut j = i;
    while j < s.len() && '0' <= s[j] && s[j] <= '9'
        invariant
            i <= j <= s@.len(),
            digits_end(s@, j as int) == digits_end(s@, i as int),
        decreases s@.len() - j,
    {
        j = j + 1;
    }
    j
}

/// Whether `s` is a finite decimal number (see [`decimal_number`]).
pub fn is_decimal_number(s: &[char]) -> (r: bool)
    ensures
        r == decimal_number(s@),
{
    let n = s.len();
    let a: usize = if n > 0 && (s[0] == '+' || s[0] == '-') { 1 } else { 0 };
    let b = digits_end_exec(s, a);
    let dot = b < n && s[b] == '.';
    let c = if dot { digits_end_exec(s, b + 1) } else { b };
    let frac = if dot { c - (b + 1) } else { 0 };
    if (b - a) + frac == 0 {
        return false;
    }
    if c == n {
        return true;
    }
    if !(s[c] == 'e' || s[c] == 'E') {
        return false;
    }
    let d = if c + 1 < n && (s[c + 1] == '+' || s[c + 1] == '-') { c + 2 } else { c + 1 };
    let e = digits_end_exec(s, d);
    e > d && e == n
}

} // verus!
