//! Decimal numbers in text.
use crate::text::chars_of;
use vstd::prelude::*;

verus! {

/// The decimal digit of `d`.
pub open spec fn digit(d: int) -> char {
    (48 + d) as char
}

/// `n` in decimal digits, without leading zeros.
pub open spec fn decimal(n: nat) -> Seq<char>
    decreases n,
{
    if n < 10 {
        seq![digit(n as int)]
    } else {
        decimal(n / 10).push(digit((n % 10) as int))
    }
}

/// `c` is a decimal digit.
pub open spec fn is_digit(c: char) -> bool {
    '0' <= c <= '9'
}

/// All characters of `s` are decimal digits.
pub open spec fn all_digits(s: Seq<char>) -> bool {
    forall|i: int| 0 <= i < s.len() ==> is_digit(#[trigger] s[i])
}

/// The number that the decimal digits of `s` stand for.
pub open spec fn digits_value(s: Seq<char>) -> int
    decreases s.len(),
{
    if s.len() == 0 {
        0
    } else {
        digits_value(s.drop_last()) * 10 + (s.last() as int - 48)
    }
}

/// `s` without one plus sign at its start.
pub open spec fn strip_plus(s: Seq<char>) -> Seq<char> {
    if s.len() > 0 && s[0] == '+' {
        s.drop_first()
    } else {
        s
    }
}

/// The number that `s` stands for: one or more decimal digits, after a plus sign or none, of a
/// number that fits in 64 bits.
pub open spec fn u64_value(s: Seq<char>) -> Option<u64> {
    let d = strip_plus(s);
    if d.len() > 0 && all_digits(d) && digits_value(d) <= u64::MAX {
        Some(digits_value(d) as u64)
    } else {
        None
    }
}

/// Appends the decimal digits of `n` to `s`.
pub fn push_decimal(s: &mut String, n: u64)
    ensures
        final(s)@ == old(s)@ + decimal(n as nat),
    decreases n,
{
    if n >= 10 {
        push_decimal(s, n / 10);
    }
    let d: u8 = (n % 10) as u8;
    s.push((48u8 + d) as char);
    assert(s@ =~= old(s)@ + decimal(n as nat));
}

/// More digits stand for a number that is no smaller.
proof fn digits_value_grows(s: Seq<char>, k: int)
    requires
        0 <= k <= s.len(),
        all_digits(s),
    ensures
        0 <= digits_value(s.take(k)) <= digits_value(s),
    decreases s.len() - k, k,
{
    if k < s.len() {
        digits_value_grows(s, k + 1);
        digits_value_positive(s.take(k));
        assert(s.take(k + 1).drop_last() =~= s.take(k));
        assert(is_digit(s[k]));
    } else {
        assert(s.take(k) =~= s);
        digits_value_positive(s);
    }
}

/// Digits stand for no negative number.
pub proof fn digits_value_positive(s: Seq<char>)
    requires
        all_digits(s),
    ensures
        0 <= digits_value(s),
    decreases s.len(),
{
    if s.len() > 0 {
        assert(all_digits(s.drop_last())) by {
            assert forall|i: int| 0 <= i < s.drop_last().len() implies is_digit(#[trigger] s.drop_last()[i]) by {
                assert(is_digit(s[i]));
            }
        }
        digits_value_positive(s.drop_last());
        assert(is_digit(s.last()));
    }
}

/// The number that `s` stands for, or `None` where it stands for none that fits.
pub fn parse_u64(s: &str) -> (r: Option<u64>)
    ensures
        r == u64_value(s@),
{
    let v: Vec<char> = chars_of(s);
    let from: usize = if v.len() > 0 && v[0] == '+' {
        1
    } else {
        0
    };
    let ghost d = strip_plus(s@);
    assert(d =~= v@.skip(from as int));
    if from == v.len() {
        return None;
    }
    let mut value: u64 = 0;
    let mut i: usize = from;
    while i < v.len()
        invariant
            v@ == s@,
            d == strip_plus(s@),
            d == v@.skip(from as int),
            d.len() > 0,
            from <= i <= v@.len(),
            all_digits(d.take(i - from)),
            value == digits_value(d.take(i - from)),
        decreases v@.len() - i,
    {
        let c: char = v[i];
        assert(c == d[i - from]);
        assert(d.take(i - from + 1).drop_last() =~= d.take(i - from));
        if c < '0' || '9' < c {
            assert(!is_digit(d[i - from]));
            return None;
        }
        assert(all_digits(d.take(i - from + 1)));
        let x: u64 = (c as u32 - 48) as u64;
        if value > (u64::MAX - x) / 10 {
            proof {
                if all_digits(d) {
                    digits_value_grows(d, i - from + 1);
                }
            }
            return None;
        }
        value = value * 10 + x;
        i += 1;
    }
    assert(d.take(i - from) =~= d);
    Some(value)
}

/// The decimal digits of a number stand for that number.
pub proof fn decimal_reads_back(n: u64)
    ensures
        u64_value(decimal(n as nat)) == Some(n),
{
    decimal_digits(n as nat);
}

/// The decimal digits of `n` are digits, and stand for `n`.
pub proof fn decimal_digits(n: nat)
    ensures
        decimal(n).len() > 0,
        all_digits(decimal(n)),
        digits_value(decimal(n)) == n,
    decreases n,
{
    let s = decimal(n);
    if n < 10 {
        assert(s.drop_last() =~= Seq::<char>::empty());
        assert(digits_value(s.drop_last()) == 0);
    } else {
        decimal_digits(n / 10);
        assert(s.drop_last() =~= decimal(n / 10));
    }
}

} // verus!
