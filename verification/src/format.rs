//! Decimal numbers and clock times as text.
use vstd::prelude::*;

verus! {

/// The decimal digit for `d < 10`.
pub open spec fn digit(d: nat) -> char {
    ((d + 48) as u32) as char
}

/// The decimal representation of `n`, without leading zeros.
pub open spec fn decimal(n: nat) -> Seq<char>
    decreases n,
{
    if n < 10 {
        seq![digit(n)]
    } else {
        decimal(n / 10).push(digit(n % 10))
    }
}

/// `n < 100` as two digits, with a leading zero below ten.
pub open spec fn two_digits(n: nat) -> Seq<char> {
    seq![digit(n / 10), digit(n % 10)]
}

fn digit_char(d: u64) -> (c: char)
    requires
        d < 10,
    ensures
        c == digit(d as nat),
{
    if d == 0 {
        '0'
    } else if d == 1 {
        '1'
    } else if d == 2 {
        '2'
    } else if d == 3 {
        '3'
    } else if d == 4 {
        '4'
    } else if d == 5 {
        '5'
    } else if d == 6 {
        '6'
    } else if d == 7 {
        '7'
    } else if d == 8 {
        '8'
    } else {
        '9'
    }
}

/// Appends the decimal representation of `n`.
pub fn push_decimal(out: &mut String, n: u64)
    ensures
        final(out)@ == old(out)@ + decimal(n as nat),
    decreases n,
{
    if n < 10 {
        out.push(digit_char(n));
        assert(old(out)@.push(digit(n as nat)) == old(out)@ + seq![digit(n as nat)]);
    } else {
        push_decimal(out, n / 10);
        out.push(digit_char(n % 10));
        assert(old(out)@ + decimal(n as nat / 10) + seq![digit(n as nat % 10)] == old(out)@ + (
        decimal(n as nat / 10).push(digit(n as nat % 10))));
    }
}

/// The decimal representation of `n`.
pub fn decimal_text(n: u64) -> (r: String)
    ensures
        r@ == decimal(n as nat),
{
    let mut s = String::new();
    push_decimal(&mut s, n);
    assert(Seq::<char>::empty() + decimal(n as nat) == decimal(n as nat));
    s
}

fn push_two_digits(out: &mut String, n: u64)
    requires
        n < 100,
    ensures
        final(out)@ == old(out)@ + two_digits(n as nat),
{
    out.push(digit_char(n / 10));
    out.push(digit_char(n % 10));
}

/// A playback position of `total` whole seconds: `M:SS`, or `H:MM:SS` from
/// one hour on.
pub open spec fn clock_text(total: nat) -> Seq<char> {
    if total >= 3600 {
        decimal(total / 3600) + seq![':'] + two_digits(total / 60 % 60) + seq![':'] + two_digits(
            total % 60,
        )
    } else {
        decimal(total / 60) + seq![':'] + two_digits(total % 60)
    }
}

/// The position shown by the playback panel, for whole seconds.
pub fn time_label(total: u64) -> (r: String)
    ensures
        r@ == clock_text(total as nat),
{
    let mut s = String::new();
    if total >= 3600 {
        push_decimal(&mut s, total / 3600);
        s.push(':');
        push_two_digits(&mut s, total / 60 % 60);
        s.push(':');
        push_two_digits(&mut s, total % 60);
    } else {
        push_decimal(&mut s, total / 60);
        s.push(':');
        push_two_digits(&mut s, total % 60);
    }
    s
}

} // verus!
