//! Names in `Content-Disposition`, names of browsers, and numbers in text.
use crate::client::{emulation_of, Emulation};
use crate::codec::{quoted_name_reads_back, text};
use crate::number::{
    all_digits, decimal, decimal_digits, decimal_reads_back, digits_value, digits_value_positive, is_digit,
    parse_u64, push_decimal, u64_value,
};
use crate::task::disposition_name;
use crate::text::before_first_at;
use vstd::prelude::*;

verus! {

/// A quoted name is read whole, and a name without quotes up to a semicolon.
pub proof fn name_is_read_from_a_disposition(s: &str, r: Option<String>, name: Seq<char>, rest: Seq<char>)
    requires
        call_ensures(disposition_name, (s,), r),
        !name.contains(';'),
        !name.contains('"'),
    ensures
        s@ == "filename="@ + seq!['"'] + name + seq!['"'] + rest ==> text(r) == Some(name),
        s@ == "filename="@ + name + rest && (rest.len() == 0 || rest[0] == ';') ==> text(r) == Some(name),
{
    quoted_name_reads_back(name, rest);
    reveal_strlit("filename=");
    let key = "filename="@;
    let plain = key + name + rest;
    if rest.len() == 0 || rest[0] == ';' {
        assert(plain.take(key.len() as int) =~= key);
        let t = name + rest;
        assert(plain.skip(key.len() as int) =~= t);
        assert forall|i: int| 0 <= i < name.len() implies t[i] != ';' && t[i] != '"' by {
            assert(name.contains(name[i]));
        }
        before_first_at(t, ';', name.len() as int);
        assert(t.take(name.len() as int) =~= name);
        assert forall|i: int| 0 <= i < name.len() implies name[i] != '"' by {
            assert(name.contains(name[i]));
        }
        before_first_at(name, '"', name.len() as int);
        assert(name.take(name.len() as int) =~= name);
    }
}

/// A number that is written is read back, with a plus sign before it or without.
pub proof fn number_reads_back(n: u64, s: &str, r: Option<u64>)
    requires
        call_ensures(parse_u64, (s,), r),
        s@ == decimal(n as nat) || s@ == seq!['+'] + decimal(n as nat),
    ensures
        r == Some(n),
{
    decimal_digits(n as nat);
    decimal_reads_back(n);
    if s@ == seq!['+'] + decimal(n as nat) {
        assert(s@.drop_first() =~= decimal(n as nat));
    }
}

/// Digits are read from left to right: one more makes ten times as much, and itself.
pub proof fn digits_are_read(s: Seq<char>, c: char, a: &str, b: &str, ra: Option<u64>, rb: Option<u64>)
    requires
        call_ensures(parse_u64, (a,), ra),
        call_ensures(parse_u64, (b,), rb),
        a@ == s,
        b@ == s.push(c),
        s.len() > 0,
        ra is Some,
    ensures
        '0' <= c <= '9' && ra->0 * 10 + (c as int - '0' as int) <= u64::MAX ==> rb == Some(
            (ra->0 * 10 + (c as int - '0' as int)) as u64,
        ),
        '0' <= c <= '9' && ra->0 * 10 + (c as int - '0' as int) > u64::MAX ==> rb is None,
        !('0' <= c <= '9') ==> rb is None,
{
    let d = crate::number::strip_plus(s);
    let e = crate::number::strip_plus(s.push(c));
    assert(e =~= d.push(c));
    assert(e.drop_last() =~= d);
    assert(digits_value(e) == digits_value(d) * 10 + (c as int - 48));
    digits_value_positive(d);
    if is_digit(c) {
        assert forall|i: int| 0 <= i < e.len() implies is_digit(#[trigger] e[i]) by {
            if i < d.len() {
                assert(is_digit(d[i]));
            }
        }
    } else {
        assert(!is_digit(e[e.len() - 1]));
    }
}

/// One character is a number exactly where it is a digit, and then that digit; no text is none.
pub proof fn digit_is_read(c: char, s: &str, r: Option<u64>)
    requires
        call_ensures(parse_u64, (s,), r),
    ensures
        s@ == seq![c] && '0' <= c <= '9' ==> r == Some((c as int - '0' as int) as u64),
        s@ == seq![c] && !('0' <= c <= '9') ==> r is None,
        s@.len() == 0 ==> r is None,
{
    if s@ == seq![c] {
        let d = crate::number::strip_plus(s@);
        if is_digit(c) {
            assert(d.drop_last() =~= Seq::<char>::empty());
            assert(digits_value(d.drop_last()) == 0);
            assert(all_digits(d));
        } else if c != '+' {
            assert(!is_digit(d[0]));
        }
    }
}

/// A number that is written behind a text leaves the text as it is, and can be read.
pub proof fn number_is_written_behind(n: u64)
    ensures
        forall|s: &mut String, r: ()| #[trigger]
            call_ensures(push_decimal, (s, n), r) ==> {
                &&& s@.is_prefix_of(final(s)@)
                &&& u64_value(final(s)@.skip(s@.len() as int)) == Some(n)
                &&& n < 10 ==> final(s)@.len() == s@.len() + 1
            },
{
    decimal_reads_back(n);
    assert forall|s: &mut String, r: ()| #[trigger] call_ensures(push_decimal, (s, n), r) implies final(s)@.skip(
        s@.len() as int,
    ) == decimal(n as nat) by {
        assert(final(s)@.skip(s@.len() as int) =~= decimal(n as nat));
    }
}

/// No number but 0 is written with a 0 at its start.
pub proof fn no_leading_zero(n: nat)
    requires
        n > 0,
    ensures
        decimal(n)[0] != '0',
    decreases n,
{
    if n >= 10 {
        no_leading_zero(n / 10);
        decimal_digits(n / 10);
    }
}

/// A browser has one name.
pub proof fn browser_has_one_name(a: &str, b: &str, ra: Option<Emulation>, rb: Option<Emulation>)
    requires
        call_ensures(emulation_of, (a,), ra),
        call_ensures(emulation_of, (b,), rb),
        ra is Some,
        ra == rb,
    ensures
        a@ == b@,
{
}

} // verus!
