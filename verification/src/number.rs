//! Decimal integers: reading them the way the standard library parses an
//! unsigned integer, and writing them the way `Display` prints one.

use vstd::prelude::*;

verus! {

/// Why a string is not an unsigned integer.
#[derive(Clone, Copy, Debug, PartialEq, Eq, Structural)]
pub enum IntErrorKind {
    /// The string is empty.
    Empty,
    /// A character is not a decimal digit, or a sign stands alone.
    InvalidDigit,
    /// The number does not fit below the bound.
    PosOverflow,
}

/// Whether `c` is an ASCII decimal digit.
pub open spec fn is_digit(c: char) -> bool {
    '0' <= c <= '9'
}

/// The value of the decimal digit `c`.
pub open spec fn digit_value(c: char) -> nat {
    (c as nat - '0' as nat) as nat
}

/// The value of the digit string `d`, read left to right: the first
/// character that is not a digit, or the first digit at which the value
/// exceeds `max`, decides the error.
pub open spec fn digits_value(d: Seq<char>, max: nat) -> Result<nat, IntErrorKind>
    decreases d.len(),
{
    if d.len() == 0 {
        Ok(0)
    } else {
        match digits_value(d.drop_last(), max) {
            Err(e) => Err(e),
            Ok(v) => if !is_digit(d.last()) {
                Err(IntErrorKind::InvalidDigit)
            } else if v * 10 + digit_value(d.last()) > max {
                Err(IntErrorKind::PosOverflow)
            } else {
                Ok(v * 10 + digit_value(d.last()))
            },
        }
    }
}

/// An unsigned integer no greater than `max` written in decimal: an
/// optional `+` and then digits, as `str::parse` reads an unsigned type.
pub open spec fn parse_unsigned(s: Seq<char>, max: nat) -> Result<nat, IntErrorKind> {
    if s.len() == 0 {
        Err(IntErrorKind::Empty)
    } else if (s[0] == '+' || s[0] == '-') && s.len() == 1 {
        Err(IntErrorKind::InvalidDigit)
    } else if s[0] == '+' {
        digits_value(s.drop_first(), max)
    } else {
        digits_value(s, max)
    }
}

/// A parsed value never exceeds the bound.
pub proof fn lemma_digits_value_bound(d: Seq<char>, max: nat)
    ensures
        digits_value(d, max) matches Ok(v) ==> v <= max,
    decreases d.len(),
{
    if d.len() > 0 {
        lemma_digits_value_bound(d.drop_last(), max);
    }
}

fn digits_to_value(d: &[char], lo: usize, max: u64) -> (r: Result<u64, IntErrorKind>)
    requires
        lo <= d@.len(),
    ensures
        match digits_value(d@.skip(lo as int), max as nat) {
            Ok(v) => r == Ok::<u64, IntErrorKind>(v as u64),
            Err(e) => r == Err::<u64, IntErrorKind>(e),
        },
{
    let ghost t = d@.skip(lo as int);
    let mut v: u64 = 0;
    let mut i: usize = lo;
    assert(t.take(0) == Seq::<char>::empty());
    while i < d.len()
        invariant
            lo <= i <= d@.len(),
            t == d@.skip(lo as int),
            digits_value(t.take(i - lo), max as nat) == Ok::<nat, IntErrorKind>(v as nat),
        decreases d@.len() - i,
    {
        let c = d[i];
        let ghost k: int = i - lo;
        assert(t.take(k + 1).drop_last() == t.take(k));
        assert(t.take(k + 1).last() == c);
        if !('0' <= c && c <= '9') {
            proof {
                lemma_digits_value_prefix_err(t, k + 1, IntErrorKind::InvalidDigit, max as nat);
            }
            return Err(IntErrorKind::InvalidDigit);
        }
        let dv: u64 = (c as u32 - '0' as u32) as u64;
        if (v as u128) * 10 + (dv as u128) > max as u128 {
            proof {
                lemma_digits_value_prefix_err(t, k + 1, IntErrorKind::PosOverflow, max as nat);
            }
            return Err(IntErrorKind::PosOverflow);
        }
        v = v * 10 + dv;
        i = i + 1;
    }
    assert(t.take(i - lo) == t);
    Ok(v)
}

/// Once a prefix fails, the whole string fails the same way.
proof fn lemma_digits_value_prefix_err(t: Seq<char>, k: int, e: IntErrorKind, max: nat)
    requires
        0 <= k <= t.len(),
        digits_value(t.take(k), max) == Err::<nat, IntErrorKind>(e),
    ensures
        digits_value(t, max) == Err::<nat, IntErrorKind>(e),
    decreases t.len() - k,
{
    if k < t.len() {
        assert(t.take(k + 1).drop_last() == t.take(k));
        lemma_digits_value_prefix_err(t, k + 1, e, max);
    } else {
        assert(t.take(k) == t);
    }
}

/// Reads `s` as an unsigned integer no greater than `max`.
pub fn parse_unsigned_chars(s: &[char], max: u64) -> (r: Result<u64, IntErrorKind>)
    ensures
        match parse_unsigned(s@, max as nat) {
            Ok(v) => r == Ok::<u64, IntErrorKind>(v as u64),
            Err(e) => r == Err::<u64, IntErrorKind>(e),
        },
{
    if s.len() == 0 {
        Err(IntErrorKind::Empty)
    } else if (s[0] == '+' || s[0] == '-') && s.len() == 1 {
        Err(IntErrorKind::InvalidDigit)
    } else if s[0] == '+' {
        assert(s@.skip(1) == s@.drop_first());
        digits_to_value(s, 1, max)
    } else {
        assert(s@.skip(0) == s@);
        digits_to_value(s, 0, max)
    }
}

/// The decimal digit character for `d < 10`.
pub open spec fn digit_char(d: nat) -> char {
    (d + '0' as nat) as char
}

/// `n` written in decimal without leading zeros, as `Display` prints it.
pub open spec fn decimal(n: nat) -> Seq<char>
    decreases n,
{
    if n < 10 {
        seq![digit_char(n)]
    } else {
        decimal(n / 10).push(digit_char(n % 10))
    }
}

/// Appends `n` written in decimal to `out`.
pub fn push_decimal(out: &mut Vec<char>, n: u64)
    ensures
        final(out)@ == old(out)@ + decimal(n as nat),
    decreases n,
{
    if n >= 10 {
        push_decimal(out, n / 10);
    }
    let d = (n % 10) as u32;
    let c = char_from_digit(d);
    out.push(c);
}

/// The character of the decimal digit `d`.
fn char_from_digit(d: u32) -> (c: char)
    requires
        d < 10,
    ensures
        c == digit_char(d as nat),
{
    if d == 0 { '0' }
    else if d == 1 { '1' }
    else if d == 2 { '2' }
    else if d == 3 { '3' }
    else if d == 4 { '4' }
    else if d == 5 { '5' }
    else if d == 6 { '6' }
    else if d == 7 { '7' }
    else if d == 8 { '8' }
    else { '9' }
}


/// A decimal numeral is a non-empty run of digits.
pub proof fn lemma_decimal_shape(n: nat)
    ensures
        decimal(n).len() >= 1,
        is_digit(decimal(n)[0]),
        forall|i: int| 0 <= i < decimal(n).len() ==> is_digit(#[trigger] decimal(n)[i]),
    decreases n,
{
    if n >= 10 {
        lemma_decimal_shape(n / 10);
        let d = decimal(n / 10);
        assert forall|i: int| 0 <= i < decimal(n).len() implies is_digit(#[trigger] decimal(n)[i]) by {
            if i < d.len() {
                assert(decimal(n)[i] == d[i]);
            }
        }
    }
}

proof fn lemma_digits_of_decimal(n: nat, max: nat)
    requires
        n <= max,
    ensures
        digits_value(decimal(n), max) == Ok::<nat, IntErrorKind>(n),
    decreases n,
{
    if n < 10 {
        let d = decimal(n);
        assert(d.drop_last() == Seq::<char>::empty());
        assert(digits_value(d.drop_last(), max) == Ok::<nat, IntErrorKind>(0));
        assert(digit_value(d.last()) == n);
    } else {
        lemma_digits_of_decimal(n / 10, max);
        assert(decimal(n).drop_last() == decimal(n / 10));
        assert(digit_value(decimal(n).last()) == n % 10);
        assert((n / 10) * 10 + n % 10 == n);
    }
}

/// Reading back what `push_decimal` writes gives the number that was
/// written, whenever it lies within the bound.
pub proof fn lemma_parse_decimal_roundtrip(n: nat, max: nat)
    requires
        n <= max,
    ensures
        parse_unsigned(decimal(n), max) == Ok::<nat, IntErrorKind>(n),
{
    lemma_decimal_shape(n);
    lemma_digits_of_decimal(n, max);
}

} // verus!
