//! Decimal labels for tick values.

use vstd::prelude::*;
use vstd::arithmetic::power::pow;
use vstd::string::StringExecFns;
use crate::fixed::{
    decade, decade_of, lemma_decade_brackets, lemma_floor_bounds, lemma_pow10_values, magnitude,
    order, order_of, pow10_of, SCALE,
};

verus! {

/// The character of a decimal digit.
pub open spec fn digit_char(d: int) -> char {
    if d == 0 {
        '0'
    } else if d == 1 {
        '1'
    } else if d == 2 {
        '2'
    } else if d == 3 {
        '3'
    } else if d == 4 {
        '4'
    } else if d == 5 {
        '5'
    } else if d == 6 {
        '6'
    } else if d == 7 {
        '7'
    } else if d == 8 {
        '8'
    } else {
        '9'
    }
}

/// The decimal digits of a natural number, without leading zeros.
pub open spec fn digits(n: int) -> Seq<char>
    decreases n,
{
    if n < 10 {
        seq![digit_char(n)]
    } else {
        digits(n / 10).push(digit_char(n % 10))
    }
}

/// The last `width` decimal digits of a natural number, with leading zeros.
pub open spec fn padded_digits(n: int, width: nat) -> Seq<char>
    decreases width,
{
    if width == 0 {
        Seq::empty()
    } else {
        padded_digits(n / 10, (width - 1) as nat).push(digit_char(n % 10))
    }
}

/// A digit string without the zeros at its end.
pub open spec fn without_trailing_zeros(s: Seq<char>) -> Seq<char>
    decreases s.len(),
{
    if s.len() > 0 && s.last() == '0' {
        without_trailing_zeros(s.drop_last())
    } else {
        s
    }
}

/// The decimal text of an integer.
pub open spec fn int_text(n: int) -> Seq<char> {
    if n < 0 {
        seq!['-'] + digits(-n)
    } else {
        digits(n)
    }
}

/// The quotient of a natural number by a positive unit, rounded to the nearest
/// integer, halves to the even neighbour.
pub open spec fn quot_half_even(a: int, unit: int) -> int {
    let q = a / unit;
    let r = a % unit;
    if 2 * r > unit || (2 * r == unit && q % 2 == 1) {
        q + 1
    } else {
        q
    }
}

/// The number of decimals that a label can show: no more than the six that a
/// fixed-point value holds.
pub open spec fn shown_decimals(decimals: int) -> nat {
    if decimals < 0 {
        0
    } else if decimals > 6 {
        6
    } else {
        decimals as nat
    }
}

/// The magnitude of a raw value in units of the last shown decimal.
pub open spec fn rounded_magnitude(v: int, decimals: int) -> int {
    quot_half_even(magnitude(v), pow(10, (6 - shown_decimals(decimals)) as nat))
}

/// The text of a magnitude given in units of the last of `d` decimals: the
/// whole part, then a point and the decimals without trailing zeros, if any
/// of them is left.
pub open spec fn magnitude_text(q: int, d: nat) -> Seq<char> {
    let whole = q / pow(10, d);
    let fraction = without_trailing_zeros(padded_digits(q % pow(10, d), d));
    if fraction.len() == 0 {
        digits(whole)
    } else {
        digits(whole) + seq!['.'] + fraction
    }
}

/// The label of a tick value shown with at most `decimals` decimals.
///
/// The value is rounded to that many decimals. A value that rounds to zero is
/// labelled `0`, whatever its sign.
pub open spec fn tick_label(v: int, decimals: int) -> Seq<char> {
    let q = rounded_magnitude(v, decimals);
    let text = magnitude_text(q, shown_decimals(decimals));
    if q == 0 {
        seq!['0']
    } else if v < 0 {
        seq!['-'] + text
    } else {
        text
    }
}

/// The number of decimals needed to tell apart the multiples of a step: none
/// for a step of one or more, else as many as the step has leading zeros
/// after the point, plus one.
pub open spec fn step_decimals(step: int) -> nat {
    if step <= 0 || step >= SCALE {
        0
    } else {
        (6 - order(step)) as nat
    }
}

/// The leading digit of a positive value after rounding to one significant
/// digit; 10 where the rounding carries into the next decade.
pub open spec fn leading_digit(a: int) -> int {
    quot_half_even(a, decade(a))
}

/// The label of a value in scientific notation with one significant digit.
pub open spec fn scientific_label(v: int) -> Seq<char> {
    if v == 0 {
        seq!['0', 'e', '0']
    } else {
        let a = magnitude(v);
        let lead = leading_digit(a);
        let mantissa = if lead == 10 {
            1
        } else {
            lead
        };
        let exponent = if lead == 10 {
            order(a) + 1 - 6
        } else {
            order(a) - 6
        };
        let text = digits(mantissa) + seq!['e'] + int_text(exponent);
        if v < 0 {
            seq!['-'] + text
        } else {
            text
        }
    }
}

/// The label of a tick on a logarithmic scale: plain decimals from a
/// hundredth up to, but not including, a thousand, else scientific notation.
pub open spec fn log_label(v: int) -> Seq<char> {
    if 10_000 <= v < 1_000_000_000 {
        tick_label(v, 6)
    } else {
        scientific_label(v)
    }
}

/// The labels of a value and of its negative differ by the minus sign, unless
/// the value rounds to zero.
pub proof fn lemma_tick_label_mirrored(v: int, decimals: int)
    requires
        v > 0,
        rounded_magnitude(v, decimals) != 0,
    ensures
        tick_label(-v, decimals) == seq!['-'] + tick_label(v, decimals),
{
}

/// A number has at least one digit.
pub proof fn lemma_digits_nonempty(n: int)
    ensures
        digits(n).len() >= 1,
    decreases n,
{
    if n >= 10 {
        lemma_digits_nonempty(n / 10);
    }
}

/// No tick label is empty.
pub proof fn lemma_tick_label_nonempty(v: int, decimals: int)
    ensures
        tick_label(v, decimals).len() >= 1,
{
    let q = rounded_magnitude(v, decimals);
    let d = shown_decimals(decimals);
    lemma_digits_nonempty(q / pow(10, d));
}

/// A value of at least one unit in magnitude does not round to zero.
pub proof fn lemma_unit_rounds_to_nonzero(v: int, decimals: int)
    requires
        magnitude(v) >= SCALE,
    ensures
        rounded_magnitude(v, decimals) >= 1,
{
    let a = magnitude(v);
    let unit = pow(10, (6 - shown_decimals(decimals)) as nat);
    lemma_pow10_values();
    assert(1 <= unit <= 1_000_000);
    lemma_floor_bounds(a, unit);
    let q = a / unit;
    if q < 1 {
        assert(q * unit + unit <= unit) by (nonlinear_arith)
            requires
                q <= 0,
                unit >= 1,
        ;
    }
}

/// The text of one decimal digit.
fn digit_str(d: i128) -> (s: &'static str)
    requires
        0 <= d <= 9,
    ensures
        s@ == seq![digit_char(d as int)],
{
    proof {
        reveal_strlit("0");
        reveal_strlit("1");
        reveal_strlit("2");
        reveal_strlit("3");
        reveal_strlit("4");
        reveal_strlit("5");
        reveal_strlit("6");
        reveal_strlit("7");
        reveal_strlit("8");
        reveal_strlit("9");
    }
    let s: &'static str = if d == 0 {
        "0"
    } else if d == 1 {
        "1"
    } else if d == 2 {
        "2"
    } else if d == 3 {
        "3"
    } else if d == 4 {
        "4"
    } else if d == 5 {
        "5"
    } else if d == 6 {
        "6"
    } else if d == 7 {
        "7"
    } else if d == 8 {
        "8"
    } else {
        "9"
    };
    assert(s@ =~= seq![digit_char(d as int)]);
    s
}

/// Appends the decimal digits of `n`.
fn push_digits(out: &mut String, n: i128)
    requires
        n >= 0,
    ensures
        final(out)@ == old(out)@ + digits(n as int),
    decreases n,
{
    if n >= 10 {
        push_digits(out, n / 10);
    }
    out.append(digit_str(n % 10));
    assert(out@ =~= old(out)@ + digits(n as int));
}

/// Appends the last `width` decimal digits of `n`.
fn push_padded_digits(out: &mut String, n: i128, width: u32)
    requires
        n >= 0,
    ensures
        final(out)@ == old(out)@ + padded_digits(n as int, width as nat),
    decreases width,
{
    if width > 0 {
        push_padded_digits(out, n / 10, width - 1);
        out.append(digit_str(n % 10));
    }
    assert(out@ =~= old(out)@ + padded_digits(n as int, width as nat));
}

/// Division of a natural number by a positive unit, halves to the even
/// neighbour.
fn div_half_even(a: i128, unit: i128) -> (q: i128)
    requires
        0 <= a <= 10_000_000_000_000_000_000,
        0 < unit <= 10_000_000_000_000_000_000,
    ensures
        q == quot_half_even(a as int, unit as int),
        0 <= q <= a + 1,
{
    proof {
        lemma_floor_bounds(a as int, unit as int);
        vstd::arithmetic::div_mod::lemma_fundamental_div_mod(a as int, unit as int);
        crate::fixed::lemma_quotient_size(a as int, unit as int);
    }
    let q: i128 = a / unit;
    let r: i128 = a % unit;
    if 2 * r > unit || (2 * r == unit && q % 2 == 1) {
        q + 1
    } else {
        q
    }
}

/// Stripping a zero digit at the end of a padded digit string.
proof fn lemma_strip_zero(f: int, width: nat)
    requires
        f >= 0,
        width > 0,
    ensures
        f % 10 == 0 ==> without_trailing_zeros(padded_digits(f, width)) == without_trailing_zeros(
            padded_digits(f / 10, (width - 1) as nat),
        ),
        f % 10 != 0 ==> without_trailing_zeros(padded_digits(f, width)) == padded_digits(f, width),
{
    let s = padded_digits(f, width);
    let t = padded_digits(f / 10, (width - 1) as nat);
    assert(s == t.push(digit_char(f % 10)));
    assert(s.last() == digit_char(f % 10));
    assert(s.drop_last() =~= t);
}

/// Appends the text of a magnitude given in units of the last of `d` decimals.
fn push_magnitude(out: &mut String, q: i128, d: u32)
    requires
        0 <= q,
        d <= 6,
    ensures
        final(out)@ == old(out)@ + magnitude_text(q as int, d as nat),
{
    let unit: i128 = pow10_of(d) as i128;
    let whole: i128 = q / unit;
    let mut fraction: i128 = q % unit;
    let mut width: u32 = d;
    let ghost full = padded_digits(fraction as int, d as nat);
    while width > 0 && fraction % 10 == 0
        invariant
            fraction >= 0,
            width <= d,
            without_trailing_zeros(full) == without_trailing_zeros(
                padded_digits(fraction as int, width as nat),
            ),
        decreases width,
    {
        proof {
            lemma_strip_zero(fraction as int, width as nat);
        }
        fraction = fraction / 10;
        width = width - 1;
    }
    proof {
        if width > 0 {
            lemma_strip_zero(fraction as int, width as nat);
        }
        assert(without_trailing_zeros(full) == padded_digits(fraction as int, width as nat));
        lemma_padded_len(fraction as int, width as nat);
    }
    push_digits(out, whole);
    if width > 0 {
        proof {
            reveal_strlit(".");
        }
        out.append(".");
        push_padded_digits(out, fraction, width);
        assert(out@ =~= old(out)@ + (digits(whole as int) + seq!['.'] + padded_digits(
            fraction as int,
            width as nat,
        )));
    }
}

/// A padded digit string has the width asked for.
proof fn lemma_padded_len(n: int, width: nat)
    ensures
        padded_digits(n, width).len() == width,
    decreases width,
{
    if width > 0 {
        lemma_padded_len(n / 10, (width - 1) as nat);
    }
}

/// The magnitude of a raw value, widened.
fn magnitude_of(v: i64) -> (a: i128)
    ensures
        a == magnitude(v as int),
        0 <= a <= 9_223_372_036_854_775_808,
{
    if v < 0 {
        -(v as i128)
    } else {
        v as i128
    }
}

/// The number of decimals that labels along a scale of the given step show.
pub fn decimals_for_step(step: i64) -> (d: usize)
    ensures
        d == step_decimals(step as int),
        d <= 6,
{
    if step <= 0 || step >= SCALE {
        return 0;
    }
    let k: u32 = order_of(step);
    proof {
        lemma_decade_brackets(step as int);
        lemma_pow10_values();
        if k >= 6 {
            vstd::arithmetic::power::lemma_pow_increases(10, 6, k as nat);
        }
    }
    (6 - k) as usize
}

/// The label of a tick value with at most `decimals` decimals, without
/// trailing zeros.
pub fn format_tick(v: i64, decimals: usize) -> (s: String)
    ensures
        s@ == tick_label(v as int, decimals as int),
{
    let d: u32 = if decimals > 6 {
        6
    } else {
        decimals as u32
    };
    let unit: i128 = pow10_of(6 - d) as i128;
    let a: i128 = magnitude_of(v);
    let q: i128 = div_half_even(a, unit);
    let mut out = String::new();
    if q == 0 {
        proof {
            reveal_strlit("0");
        }
        out.append("0");
        assert(out@ =~= seq!['0']);
        return out;
    }
    if v < 0 {
        proof {
            reveal_strlit("-");
        }
        out.append("-");
    }
    push_magnitude(&mut out, q, d);
    assert(out@ =~= tick_label(v as int, decimals as int));
    out
}

/// The label of a value in scientific notation with one significant digit.
pub fn format_scientific(v: i64) -> (s: String)
    ensures
        s@ == scientific_label(v as int),
{
    let mut out = String::new();
    if v == 0 {
        proof {
            reveal_strlit("0e0");
        }
        out.append("0e0");
        assert(out@ =~= seq!['0', 'e', '0']);
        return out;
    }
    let a: i128 = magnitude_of(v);
    let (p, k): (i128, i128) = if a > 9_223_372_036_854_775_807 {
        proof {
            lemma_pow10_values();
            crate::fixed::lemma_order_unique(a as int, 18);
        }
        (1_000_000_000_000_000_000, 18)
    } else {
        (decade_of(a as i64) as i128, order_of(a as i64) as i128)
    };
    proof {
        lemma_decade_brackets(a as int);
    }
    let lead: i128 = div_half_even(a, p);
    let mantissa: i128 = if lead == 10 {
        1
    } else {
        lead
    };
    let exponent: i128 = if lead == 10 {
        k + 1 - 6
    } else {
        k - 6
    };
    proof {
        reveal_strlit("-");
        reveal_strlit("e");
    }
    if v < 0 {
        out.append("-");
    }
    push_digits(&mut out, mantissa);
    out.append("e");
    if exponent < 0 {
        out.append("-");
        push_digits(&mut out, -exponent);
    } else {
        push_digits(&mut out, exponent);
    }
    assert(out@ =~= scientific_label(v as int));
    out
}

/// The label of a tick on a logarithmic scale.
pub fn format_log_label(v: i64) -> (s: String)
    ensures
        s@ == log_label(v as int),
{
    if 10_000 <= v && v < 1_000_000_000 {
        format_tick(v, 6)
    } else {
        format_scientific(v)
    }
}

} // verus!
