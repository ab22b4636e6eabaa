//! Byte counts as people read them.
//!
//! A count is written in the largest binary unit that it reaches, with two
//! decimals. The count is first taken to the nearest number that a
//! double-precision float can hold, as a division in floating point would
//! take it, and all rounding is to nearest, ties to even; the arithmetic
//! itself is on integers.

use vstd::prelude::*;
use crate::text::{decimal_digits, digit_char, push_decimal, push_text, string_of};

verus! {

/// Bytes in a KiB.
pub const KB: u64 = 1024;

/// Bytes in a MiB.
pub const MB: u64 = 1_048_576;

/// Bytes in a GiB.
pub const GB: u64 = 1_073_741_824;

/// The least number that no longer fits into the 53 bits of a float's
/// mantissa.
pub const MANTISSA_END: u64 = 9_007_199_254_740_992;

/// `n` divided by `d`, rounded to the nearest whole number, a tie going to
/// the even one.
pub open spec fn round_half_even(n: nat, d: nat) -> nat {
    let q = n / d;
    let r = n % d;
    if 2 * r > d || (2 * r == d && q % 2 == 1) {
        q + 1
    } else {
        q
    }
}

/// The distance between the floats around `n`: one up to 53 bits, and twice
/// as much for every bit more.
pub open spec fn float_spacing(n: nat) -> nat
    decreases n,
{
    if n < MANTISSA_END {
        1
    } else {
        2 * float_spacing(n / 2)
    }
}

/// The float nearest to `n`, a tie going to the one with the even
/// mantissa.
pub open spec fn nearest_float(n: nat) -> nat {
    round_half_even(n, float_spacing(n)) * float_spacing(n)
}

/// `bytes` in units of `unit` bytes, in hundredths.
pub open spec fn hundredths(bytes: u64, unit: u64) -> nat {
    round_half_even(nearest_float(bytes as nat) * 100, unit as nat)
}

/// A number of hundredths with two decimals.
pub open spec fn two_decimals(h: nat) -> Seq<char> {
    decimal_digits(h / 100) + "."@ + seq![digit_char((h % 100) / 10), digit_char(h % 10)]
}

/// The byte count as people read it: in GiB, MiB or KiB with two decimals
/// where it reaches one of these, and in bytes otherwise.
pub open spec fn size_text(bytes: u64) -> Seq<char> {
    if bytes >= GB {
        two_decimals(hundredths(bytes, GB)) + " GB"@
    } else if bytes >= MB {
        two_decimals(hundredths(bytes, MB)) + " MB"@
    } else if bytes >= KB {
        two_decimals(hundredths(bytes, KB)) + " KB"@
    } else {
        decimal_digits(bytes as nat) + " B"@
    }
}

fn rounded_quotient(n: u128, d: u128) -> (r: u128)
    requires
        0 < d <= u64::MAX,
        n < u128::MAX / 2,
    ensures
        r == round_half_even(n as nat, d as nat),
        r * d <= n + d,
        r <= n / d + 1,
{
    let q = n / d;
    let rest = n % d;
    assert(q * d <= n && (q + 1) * d <= n + d) by (nonlinear_arith)
        requires
            q == n / d,
            d > 0,
    {
    }
    if 2 * rest > d || (2 * rest == d && q % 2 == 1) {
        q + 1
    } else {
        q
    }
}

fn spacing_of(n: u64) -> (d: u64)
    ensures
        d == float_spacing(n as nat),
        1 <= d <= 4096,
{
    let mut d: u64 = 1;
    let mut m: u64 = n;
    while m >= MANTISSA_END
        invariant
            1 <= d <= 4096,
            m * d <= n,
            float_spacing(n as nat) == d * float_spacing(m as nat),
        decreases m,
    {
        assert(d < 2048) by (nonlinear_arith)
            requires
                m >= 9_007_199_254_740_992,
                m * d <= n,
                n <= 0xffff_ffff_ffff_ffff,
                d >= 1,
        ;
        assert((m / 2) * (d * 2) <= n) by (nonlinear_arith)
            requires
                m * d <= n,
                d >= 1,
        ;
        assert(d * (2 * float_spacing((m / 2) as nat)) == (d * 2) * float_spacing(
            (m / 2) as nat,
        )) by (nonlinear_arith);
        m = m / 2;
        d = d * 2;
    }
    assert(d * 1 == d);
    d
}

fn push_scaled(out: &mut Vec<char>, bytes: u64, unit: u64)
    requires
        unit >= 1024,
    ensures
        final(out)@ == old(out)@ + two_decimals(hundredths(bytes, unit)),
{
    let d = spacing_of(bytes);
    let steps: u128 = rounded_quotient(bytes as u128, d as u128);
    let float: u128 = steps * d as u128;
    let h: u128 = rounded_quotient(float * 100, unit as u128);
    assert(h <= (float * 100) / 1024 + 1) by {
        vstd::arithmetic::div_mod::lemma_div_is_ordered_by_denominator(
            (float * 100) as int,
            1024,
            unit as int,
        );
    }
    let whole: u128 = h / 100;
    let tenths: u8 = ((h % 100) / 10) as u8;
    let ones: u8 = (h % 10) as u8;
    push_decimal(out, whole as u64);
    push_text(out, ".");
    let t: char = (48u8 + tenths) as char;
    let o: char = (48u8 + ones) as char;
    out.push(t);
    out.push(o);
}

/// The byte count as people read it.
pub fn format_bytes(bytes: u64) -> (r: String)
    ensures
        r@ == size_text(bytes),
{
    let mut out: Vec<char> = Vec::new();
    if bytes >= GB {
        push_scaled(&mut out, bytes, GB);
        push_text(&mut out, " GB");
    } else if bytes >= MB {
        push_scaled(&mut out, bytes, MB);
        push_text(&mut out, " MB");
    } else if bytes >= KB {
        push_scaled(&mut out, bytes, KB);
        push_text(&mut out, " KB");
    } else {
        push_decimal(&mut out, bytes);
        push_text(&mut out, " B");
    }
    string_of(out.as_slice())
}

} // verus!
