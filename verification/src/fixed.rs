//! Fixed-point numbers with six decimal places.
//!
//! Every coordinate, length and ratio of this crate is an `i64` that counts
//! millionths: the raw value `1_500_000` stands for `1.5`. The contracts speak
//! of raw values as mathematical integers.

use vstd::prelude::*;
use vstd::arithmetic::div_mod::lemma_fundamental_div_mod;
use vstd::arithmetic::div_mod::lemma_fundamental_div_mod_converse;
use vstd::arithmetic::power::pow;
use vstd::arithmetic::power::lemma_pow_positive;

verus! {

/// Number of raw units in one whole unit.
pub const SCALE: i64 = 1_000_000;

/// Largest magnitude, in raw units, of a coordinate that tick generation and
/// projection accept.
pub const COORD_MAX: i64 = 1_000_000_000_000_000;

/// Largest magnitude, in raw units, of a data extent that range fitting accepts.
pub const FIT_MAX: i64 = 1_000_000_000_000;

/// Largest padding ratio, in raw units, that range fitting accepts (ten times
/// the data range on either side).
pub const PADDING_MAX: i64 = 10_000_000;

/// Largest magnitude that the wide division helpers accept.
pub const WIDE_MAX: i128 = 1_000_000_000_000_000_000_000_000_000_000_000_000;

/// Whether a raw value lies in the coordinate domain.
pub open spec fn in_domain(v: int) -> bool {
    -COORD_MAX <= v <= COORD_MAX
}

/// Whether a raw value lies in the domain of range fitting.
pub open spec fn in_fit_domain(v: int) -> bool {
    -FIT_MAX <= v <= FIT_MAX
}

/// The quotient `a / b` rounded towards minus infinity, for a positive `b`.
pub open spec fn quot_floor(a: int, b: int) -> int {
    a / b
}

/// The quotient `a / b` rounded towards plus infinity, for a positive `b`.
pub open spec fn quot_ceil(a: int, b: int) -> int {
    -((-a) / b)
}

/// The quotient `a / b` rounded to the nearest integer, halves away from zero,
/// for a positive `b`.
pub open spec fn quot_round(a: int, b: int) -> int {
    if a >= 0 {
        (2 * a + b) / (2 * b)
    } else {
        -((b - 2 * a) / (2 * b))
    }
}

/// The absolute value of an integer.
pub open spec fn magnitude(v: int) -> int {
    if v < 0 {
        -v
    } else {
        v
    }
}

/// The decimal order of a positive integer: one less than its number of digits.
pub open spec fn order(v: int) -> nat
    decreases v,
{
    if v < 10 {
        0
    } else {
        1 + order(v / 10)
    }
}

/// The largest power of ten that does not exceed a positive integer.
pub open spec fn decade(v: int) -> int {
    pow(10, order(v))
}

/// A quotient is fixed by the multiples of the divisor that enclose the dividend.
pub proof fn lemma_quotient_between(a: int, b: int, q: int)
    requires
        b > 0,
        q * b <= a < q * b + b,
    ensures
        a / b == q,
{
    lemma_fundamental_div_mod_converse(a, b, q, a - q * b);
}

/// The floor quotient encloses the dividend from below.
pub proof fn lemma_floor_bounds(a: int, b: int)
    requires
        b > 0,
    ensures
        quot_floor(a, b) * b <= a < quot_floor(a, b) * b + b,
{
    lemma_fundamental_div_mod(a, b);
    assert(b * (a / b) == (a / b) * b) by (nonlinear_arith);
}

/// The ceiling quotient encloses the dividend from above.
pub proof fn lemma_ceil_bounds(a: int, b: int)
    requires
        b > 0,
    ensures
        quot_ceil(a, b) * b - b < a <= quot_ceil(a, b) * b,
{
    lemma_floor_bounds(-a, b);
    let f = (-a) / b;
    assert((-f) * b == -(f * b)) by (nonlinear_arith);
}

/// The order of a positive integer is the exponent of the power of ten at or
/// below it.
pub proof fn lemma_order_unique(v: int, k: nat)
    requires
        pow(10, k) <= v < 10 * pow(10, k),
    ensures
        order(v) == k,
    decreases k,
{
    reveal(pow);
    if k == 0 {
        assert(pow(10, 0) == 1);
    } else {
        let p = pow(10, (k - 1) as nat);
        assert(pow(10, k) == 10 * p);
        lemma_pow_positive(10, (k - 1) as nat);
        assert(v >= 10);
        assert(p <= v / 10 < 10 * p);
        lemma_order_unique(v / 10, (k - 1) as nat);
    }
}

/// A positive integer lies between its decade and ten times its decade.
pub proof fn lemma_decade_brackets(v: int)
    requires
        v >= 1,
    ensures
        1 <= decade(v) <= v < 10 * decade(v),
    decreases v,
{
    reveal(pow);
    if v < 10 {
        assert(pow(10, 0) == 1);
    } else {
        lemma_decade_brackets(v / 10);
        assert(pow(10, order(v)) == 10 * pow(10, order(v / 10)));
    }
}

/// Floor division of wide integers by a positive divisor.
pub fn div_floor(a: i128, b: i128) -> (q: i128)
    requires
        0 < b <= WIDE_MAX,
        -WIDE_MAX <= a <= WIDE_MAX,
    ensures
        q == quot_floor(a as int, b as int),
        q * b <= a < q * b + b,
        -WIDE_MAX <= q <= WIDE_MAX,
{
    proof {
        lemma_floor_bounds(a as int, b as int);
        lemma_quotient_size(a as int, b as int);
    }
    if a >= 0 {
        a / b
    } else {
        let n: i128 = -a;
        let c: i128 = (n + b - 1) / b;
        proof {
            lemma_floor_bounds(n + b - 1, b as int);
            assert((-c) * b == -(c * b)) by (nonlinear_arith);
            lemma_quotient_between(a as int, b as int, -c);
        }
        -c
    }
}

/// Ceiling division of wide integers by a positive divisor.
pub fn div_ceil(a: i128, b: i128) -> (q: i128)
    requires
        0 < b <= WIDE_MAX,
        -WIDE_MAX <= a <= WIDE_MAX,
    ensures
        q == quot_ceil(a as int, b as int),
        q * b - b < a <= q * b,
        -WIDE_MAX <= q <= WIDE_MAX,
{
    proof {
        lemma_ceil_bounds(a as int, b as int);
    }
    let f: i128 = div_floor(-a, b);
    -f
}

/// Division of wide integers by a positive divisor, rounded to the nearest
/// integer with halves away from zero.
pub fn div_round(a: i128, b: i128) -> (q: i128)
    requires
        0 < b,
        4 * b <= WIDE_MAX,
        -WIDE_MAX <= 4 * a <= WIDE_MAX,
    ensures
        q == quot_round(a as int, b as int),
        2 * q * b - b <= 2 * a <= 2 * q * b + b,
        -WIDE_MAX <= q <= WIDE_MAX,
{
    proof {
        lemma_round_bounds(a as int, b as int);
    }
    if a >= 0 {
        div_floor(2 * a + b, 2 * b)
    } else {
        let f: i128 = div_floor(b - 2 * a, 2 * b);
        -f
    }
}

/// The floor quotient by a positive divisor is no larger in magnitude than the
/// dividend.
pub proof fn lemma_quotient_size(a: int, b: int)
    requires
        b > 0,
    ensures
        -magnitude(a) <= quot_floor(a, b) <= magnitude(a),
{
    lemma_floor_bounds(a, b);
    let q = a / b;
    if a >= 0 {
        if q > a {
            assert(q * b >= q) by (nonlinear_arith)
                requires
                    q > 0,
                    b >= 1,
            ;
        }
        if q < 0 {
            assert(q * b + b <= 0) by (nonlinear_arith)
                requires
                    q <= -1,
                    b >= 1,
            ;
        }
    } else {
        if q < a {
            assert(q * b + b <= q + 1) by (nonlinear_arith)
                requires
                    q <= -1,
                    b >= 1,
            ;
        }
        if q > 0 {
            assert(q * b >= 0) by (nonlinear_arith)
                requires
                    q > 0,
                    b >= 1,
            ;
        }
    }
}

/// The rounded quotient differs from the exact one by at most a half.
pub proof fn lemma_round_bounds(a: int, b: int)
    requires
        b > 0,
    ensures
        2 * quot_round(a, b) * b - b <= 2 * a <= 2 * quot_round(a, b) * b + b,
        -magnitude(a) - 1 <= quot_round(a, b) <= magnitude(a) + 1,
{
    if a >= 0 {
        let q = (2 * a + b) / (2 * b);
        lemma_floor_bounds(2 * a + b, 2 * b);
        assert(q * (2 * b) == 2 * q * b) by (nonlinear_arith);
        if q > a + 1 {
            assert(2 * q * b >= 2 * (a + 2) * b) by (nonlinear_arith)
                requires
                    q >= a + 2,
                    b >= 1,
            ;
            assert(2 * (a + 2) * b > 2 * a + b) by (nonlinear_arith)
                requires
                    a >= 0,
                    b >= 1,
            ;
        }
        if q < 0 {
            assert(2 * q * b + 2 * b <= 0) by (nonlinear_arith)
                requires
                    q <= -1,
                    b >= 1,
            ;
        }
    } else {
        let f = (b - 2 * a) / (2 * b);
        lemma_floor_bounds(b - 2 * a, 2 * b);
        assert(f * (2 * b) == 2 * f * b) by (nonlinear_arith);
        assert(2 * (-f) * b == -(2 * f * b)) by (nonlinear_arith);
        if f > -a + 1 {
            assert(2 * f * b >= 2 * (-a + 2) * b) by (nonlinear_arith)
                requires
                    f >= -a + 2,
                    b >= 1,
            ;
            assert(2 * (-a + 2) * b > b - 2 * a) by (nonlinear_arith)
                requires
                    a < 0,
                    b >= 1,
            ;
        }
        if f < 0 {
            assert(2 * f * b + 2 * b <= 0) by (nonlinear_arith)
                requires
                    f <= -1,
                    b >= 1,
            ;
        }
    }
}

/// Rounding the quotient of an exact multiple gives the multiplier back.
pub proof fn lemma_round_of_multiple(q: int, b: int)
    requires
        b > 0,
    ensures
        quot_round(q * b, b) == q,
        quot_floor(q * b, b) == q,
        quot_ceil(q * b, b) == q,
{
    let a = q * b;
    lemma_quotient_between(a, b, q);
    assert((-q) * b == -(q * b)) by (nonlinear_arith);
    lemma_quotient_between(-a, b, -q);
    if a >= 0 {
        assert(q * (2 * b) <= 2 * a + b < q * (2 * b) + 2 * b) by (nonlinear_arith)
            requires
                a == q * b,
                b > 0,
        ;
        lemma_quotient_between(2 * a + b, 2 * b, q);
    } else {
        assert((-q) * (2 * b) <= b - 2 * a < (-q) * (2 * b) + 2 * b) by (nonlinear_arith)
            requires
                a == q * b,
                b > 0,
        ;
        lemma_quotient_between(b - 2 * a, 2 * b, -q);
    }
}

/// A larger dividend never rounds to a smaller quotient.
pub proof fn lemma_round_monotone(a1: int, a2: int, b: int)
    requires
        b > 0,
        a1 <= a2,
    ensures
        quot_round(a1, b) <= quot_round(a2, b),
{
    if a1 >= 0 {
        vstd::arithmetic::div_mod::lemma_div_is_ordered(2 * a1 + b, 2 * a2 + b, 2 * b);
    } else if a2 < 0 {
        vstd::arithmetic::div_mod::lemma_div_is_ordered(b - 2 * a2, b - 2 * a1, 2 * b);
    } else {
        lemma_floor_bounds(2 * a2 + b, 2 * b);
        lemma_floor_bounds(b - 2 * a1, 2 * b);
        let hi = (2 * a2 + b) / (2 * b);
        let lo = (b - 2 * a1) / (2 * b);
        if hi < 0 {
            assert(hi * (2 * b) + 2 * b <= 0) by (nonlinear_arith)
                requires
                    hi <= -1,
                    b > 0,
            ;
        }
        if lo < 0 {
            assert(lo * (2 * b) + 2 * b <= 0) by (nonlinear_arith)
                requires
                    lo <= -1,
                    b > 0,
            ;
        }
    }
}

/// Whether `r` is the square root of `n`, rounded down.
pub open spec fn is_root(n: int, r: int) -> bool {
    0 <= r && r * r <= n < (r + 1) * (r + 1)
}

/// The square root of a natural number, rounded down.
pub open spec fn root(n: int) -> int {
    choose|r: int| is_root(n, r)
}

/// There is at most one rounded-down square root.
pub proof fn lemma_root_unique(n: int, r: int)
    requires
        is_root(n, r),
    ensures
        root(n) == r,
{
    let c = root(n);
    assert(is_root(n, c));
    if c < r {
        assert((c + 1) * (c + 1) <= r * r) by (nonlinear_arith)
            requires
                0 <= c,
                c + 1 <= r,
        ;
    }
    if r < c {
        assert((r + 1) * (r + 1) <= c * c) by (nonlinear_arith)
            requires
                0 <= r,
                r + 1 <= c,
        ;
    }
}

/// The square root of `n`, rounded down.
pub fn isqrt(n: i128) -> (r: i128)
    requires
        0 <= n <= 1_000_000_000_000_000_000_000_000_000_000_000,
    ensures
        is_root(n as int, r as int),
        r == root(n as int),
        r <= 100_000_000_000_000_000,
{
    let mut lo: i128 = 0;
    let mut hi: i128 = 100_000_000_000_000_000;
    while hi - lo > 1
        invariant
            0 <= lo < hi <= 100_000_000_000_000_000,
            lo * lo <= n < hi * hi,
        decreases hi - lo,
    {
        let mid: i128 = lo + (hi - lo) / 2;
        assert(0 <= mid * mid <= 100_000_000_000_000_000 * 100_000_000_000_000_000)
            by (nonlinear_arith)
            requires
                0 <= mid <= 100_000_000_000_000_000,
        ;
        if mid * mid <= n {
            lo = mid;
        } else {
            hi = mid;
        }
    }
    proof {
        lemma_root_unique(n as int, lo as int);
    }
    lo
}

/// Whether a raw value lies in the coordinate domain.
pub fn within_domain(v: i64) -> (b: bool)
    ensures
        b == in_domain(v as int),
{
    -COORD_MAX <= v && v <= COORD_MAX
}

/// The fixed-point value of a whole number.
pub fn from_int(n: i32) -> (r: i64)
    ensures
        r == n * SCALE,
{
    let wide: i64 = n as i64;
    wide * SCALE
}

/// The largest power of ten that does not exceed `v`.
pub fn decade_of(v: i64) -> (p: i64)
    requires
        v >= 1,
    ensures
        p == decade(v as int),
        1 <= p <= v < 10 * p,
{
    let mut p: i64 = 1;
    let ghost mut k: nat = 0;
    proof {
        reveal(pow);
        assert(pow(10, 0) == 1);
    }
    while p <= v / 10
        invariant
            1 <= p <= v,
            p == pow(10, k),
        decreases v - p,
    {
        proof {
            reveal(pow);
            assert(pow(10, k + 1) == 10 * pow(10, k));
        }
        p = p * 10;
        proof {
            k = k + 1;
        }
    }
    proof {
        lemma_order_unique(v as int, k);
    }
    p
}

/// The decimal order of `v`: one less than its number of digits.
pub fn order_of(v: i64) -> (k: u32)
    requires
        v >= 1,
    ensures
        k == order(v as int),
        k <= 18,
{
    let mut p: i64 = 1;
    let mut k: u32 = 0;
    proof {
        reveal(pow);
        assert(pow(10, 0) == 1);
    }
    while p <= v / 10
        invariant
            1 <= p <= v,
            p == pow(10, k as nat),
            k <= 18,
        decreases v - p,
    {
        proof {
            reveal(pow);
            assert(pow(10, (k + 1) as nat) == 10 * pow(10, k as nat));
            lemma_pow10_values();
            assert(k < 18);
        }
        p = p * 10;
        k = k + 1;
    }
    proof {
        lemma_order_unique(v as int, k as nat);
    }
    k
}

/// The powers of ten that fit in sixty-four bits.
pub proof fn lemma_pow10_values()
    ensures
        pow(10, 0) == 1,
        pow(10, 1) == 10,
        pow(10, 2) == 100,
        pow(10, 3) == 1_000,
        pow(10, 4) == 10_000,
        pow(10, 5) == 100_000,
        pow(10, 6) == 1_000_000,
        pow(10, 7) == 10_000_000,
        pow(10, 8) == 100_000_000,
        pow(10, 9) == 1_000_000_000,
        pow(10, 10) == 10_000_000_000,
        pow(10, 11) == 100_000_000_000,
        pow(10, 12) == 1_000_000_000_000,
        pow(10, 13) == 10_000_000_000_000,
        pow(10, 14) == 100_000_000_000_000,
        pow(10, 15) == 1_000_000_000_000_000,
        pow(10, 16) == 10_000_000_000_000_000,
        pow(10, 17) == 100_000_000_000_000_000,
        pow(10, 18) == 1_000_000_000_000_000_000,
{
    reveal_with_fuel(pow, 20);
}

/// Ten to the power `k`.
pub fn pow10_of(k: u32) -> (p: i64)
    requires
        k <= 18,
    ensures
        p == pow(10, k as nat),
        p >= 1,
{
    let mut p: i64 = 1;
    let mut i: u32 = 0;
    proof {
        lemma_pow10_values();
    }
    while i < k
        invariant
            i <= k <= 18,
            p == pow(10, i as nat),
            p >= 1,
        decreases k - i,
    {
        proof {
            reveal(pow);
            assert(pow(10, (i + 1) as nat) == 10 * pow(10, i as nat));
            lemma_pow10_values();
            vstd::arithmetic::power::lemma_pow_increases(10, (i + 1) as nat, 18);
        }
        p = p * 10;
        i = i + 1;
    }
    p
}

} // verus!
