//! Decimal representation of unsigned integers.
use vstd::prelude::*;
use vstd::std_specs::convert::IntoSpec;
use crate::text::push_char;

verus! {

/// The character of the decimal digit `d`.
pub open spec fn digit_char(d: nat) -> char {
    if d == 0 {
        '0'
    } else if d == 1 {
        '1'
    } else if d == 2 {
        '2'
    } else if d == 3 {
        '3'
    } else if d == 4 {
        '4'
    } else if d == 5 {
        '5'
    } else if d == 6 {
        '6'
    } else if d == 7 {
        '7'
    } else if d == 8 {
        '8'
    } else {
        '9'
    }
}

/// The decimal representation of `n`, without leading zeros (`0` for zero).
pub open spec fn decimal(n: nat) -> Seq<char>
    decreases n,
{
    if n < 10 {
        seq![digit_char(n)]
    } else {
        decimal(n / 10).push(digit_char(n % 10))
    }
}

/// Relies on `String::insert`: puts one character in front.
#[verifier::external_body]
fn prepend_char(s: &mut String, c: char)
    ensures
        final(s)@ == seq![c] + old(s)@,
{
    s.insert(0, c);
}

fn digit(d: u128) -> (c: char)
    requires
        d < 10,
    ensures
        c == digit_char(d as nat),
{
    if d == 0 {
        '0'
    } else if d == 1 {
        '1'
    } else if d == 2 {
        '2'
    } else if d == 3 {
        '3'
    } else if d == 4 {
        '4'
    } else if d == 5 {
        '5'
    } else if d == 6 {
        '6'
    } else if d == 7 {
        '7'
    } else if d == 8 {
        '8'
    } else {
        '9'
    }
}

/// Writes the decimal representation of `value` into `buf`, replacing what it held.
pub(crate) fn write_decimal(value: u128, buf: &mut String)
    ensures
        final(buf)@ == decimal(value as nat),
{
    *buf = String::new();
    let mut n = value;
    if n == 0 {
        push_char(buf, '0');
        return;
    }
    assert(decimal(n as nat) + buf@ =~= decimal(value as nat));
    while n > 0
        invariant
            n > 0 ==> decimal(n as nat) + buf@ == decimal(value as nat),
            n == 0 ==> buf@ == decimal(value as nat),
        decreases n,
    {
        let ghost prev = buf@;
        let d = digit(n % 10);
        prepend_char(buf, d);
        proof {
            if n >= 10 {
                assert(decimal((n / 10) as nat) + buf@ =~= decimal(n as nat) + prev);
            } else {
                assert(buf@ =~= decimal(n as nat) + prev);
            }
        }
        n = n / 10;
    }
}

/// The decimal representation of `value` (for the integer types that widen
/// to `u128`).
pub fn umaxtostr<T>(value: T) -> (r: String)
    where
        T: Into<u128> + Copy,
    ensures
        <T as IntoSpec<u128>>::obeys_into_spec() ==> r@ == decimal(
            <T as IntoSpec<u128>>::into_spec(value) as nat,
        ),
{
    let n: u128 = value.into();
    let mut result = String::new();
    write_decimal(n, &mut result);
    result
}

/// The decimal representation of `value`, written character by character into
/// one string.
pub fn umaxtostr_efficient<T>(value: T) -> (r: String)
    where
        T: Into<u128> + Copy,
    ensures
        <T as IntoSpec<u128>>::obeys_into_spec() ==> r@ == decimal(
            <T as IntoSpec<u128>>::into_spec(value) as nat,
        ),
{
    let n: u128 = value.into();
    let mut result = String::new();
    write_decimal(n, &mut result);
    result
}

/// Writes the decimal representation of `value` into `buf`, replacing its
/// contents, and returns it.
pub fn umaxtostr_buf<T>(value: T, buf: &mut String) -> (r: &str)
    where
        T: Into<u128> + Copy,
    ensures
        <T as IntoSpec<u128>>::obeys_into_spec() ==> final(buf)@ == decimal(
            <T as IntoSpec<u128>>::into_spec(value) as nat,
        ),
        r@ == final(buf)@,
{
    let n: u128 = value.into();
    write_decimal(n, buf);
    buf.as_str()
}

} // verus!
