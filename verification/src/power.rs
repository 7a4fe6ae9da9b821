//! Integer powers of a fixed-point base and the logarithms read off them.
//!
//! The base is a fixed-point number above one. Its power with exponent zero is
//! one; every step up multiplies by the base and every step down divides by
//! it, each rounded down to a raw unit. Far enough down the powers reach zero.

use vstd::prelude::*;
use crate::fixed::{lemma_floor_bounds, magnitude, COORD_MAX, SCALE};

verus! {

/// The power of `base` with exponent `e`, in raw units.
pub open spec fn power(base: int, e: int) -> int
    decreases magnitude(e),
{
    if e == 0 {
        SCALE as int
    } else if e > 0 {
        power(base, e - 1) * base / (SCALE as int)
    } else {
        power(base, e + 1) * (SCALE as int) / base
    }
}

/// Whether `e` is the floor of the logarithm of `x`: the exponent of the last
/// power that does not exceed `x`.
pub open spec fn is_log_floor(base: int, x: int, e: int) -> bool {
    power(base, e) <= x < power(base, e + 1)
}

/// Whether `e` is the ceiling of the logarithm of `x`: the exponent of the
/// first power that is not below `x`.
pub open spec fn is_log_ceil(base: int, x: int, e: int) -> bool {
    power(base, e - 1) < x <= power(base, e)
}

/// The floor of the logarithm of `x` to the given base.
pub open spec fn log_floor(base: int, x: int) -> int {
    choose|e: int| is_log_floor(base, x, e)
}

/// The ceiling of the logarithm of `x` to the given base.
pub open spec fn log_ceil(base: int, x: int) -> int {
    choose|e: int| is_log_ceil(base, x, e)
}

/// One step up the powers: no power is negative, none is above the next, and
/// a positive power is below the next.
pub proof fn lemma_power_step(base: int, e: int)
    requires
        base > SCALE,
    ensures
        0 <= power(base, e) <= power(base, e + 1),
        power(base, e + 1) >= 1 ==> power(base, e) < power(base, e + 1),
        e >= 0 ==> power(base, e) >= SCALE + e,
    decreases magnitude(e),
{
    let s = SCALE as int;
    if e >= 0 {
        if e > 0 {
            lemma_power_step(base, e - 1);
        }
        let p = power(base, e);
        assert(p >= s + e);
        assert(power(base, e + 1) == p * base / s);
        lemma_floor_bounds(p * base, s);
        let q = p * base / s;
        assert(p * base >= p * s + s) by (nonlinear_arith)
            requires
                p >= s,
                base >= s + 1,
                s > 0,
        ;
        assert(q >= p + 1) by (nonlinear_arith)
            requires
                p * base >= p * s + s,
                p * base < q * s + s,
                s > 0,
        ;
    } else {
        if e < -1 {
            lemma_power_step(base, e + 1);
        }
        let q = power(base, e + 1);
        assert(q >= 0);
        assert(power(base, e) == q * s / base);
        lemma_floor_bounds(q * s, base);
        let p = q * s / base;
        assert(q * s >= 0) by (nonlinear_arith)
            requires
                q >= 0,
                s > 0,
        ;
        if p < 0 {
            assert(p * base + base <= 0) by (nonlinear_arith)
                requires
                    p <= -1,
                    base > 0,
            ;
        }
        if q >= 1 && p >= q {
            assert(p * base > q * s) by (nonlinear_arith)
                requires
                    p >= q,
                    q >= 1,
                    base > s,
                    s > 0,
            ;
        }
        if q == 0 {
            assert(q * s == 0);
            if p > 0 {
                assert(p * base > 0) by (nonlinear_arith)
                    requires
                        p >= 1,
                        base > 0,
                ;
            }
        }
    }
}

/// The powers grow with the exponent.
pub proof fn lemma_power_monotone(base: int, e1: int, e2: int)
    requires
        base > SCALE,
        e1 <= e2,
    ensures
        0 <= power(base, e1) <= power(base, e2),
    decreases e2 - e1,
{
    lemma_power_step(base, e1);
    if e1 < e2 {
        lemma_power_monotone(base, e1 + 1, e2);
    }
}

/// A positive power is strictly below every later power.
pub proof fn lemma_power_strict(base: int, e1: int, e2: int)
    requires
        base > SCALE,
        e1 < e2,
        power(base, e2) >= 1,
    ensures
        power(base, e1) < power(base, e2),
{
    lemma_power_step(base, e2 - 1);
    lemma_power_monotone(base, e1, e2 - 1);
}

/// There is at most one floor of a logarithm.
pub proof fn lemma_log_floor_unique(base: int, x: int, e: int)
    requires
        base > SCALE,
        is_log_floor(base, x, e),
    ensures
        log_floor(base, x) == e,
{
    let c = log_floor(base, x);
    assert(is_log_floor(base, x, c));
    if c < e {
        lemma_power_monotone(base, c + 1, e);
    }
    if e < c {
        lemma_power_monotone(base, e + 1, c);
    }
}

/// There is at most one ceiling of a logarithm of a positive number.
pub proof fn lemma_log_ceil_unique(base: int, x: int, e: int)
    requires
        base > SCALE,
        is_log_ceil(base, x, e),
    ensures
        log_ceil(base, x) == e,
{
    let c = log_ceil(base, x);
    assert(is_log_ceil(base, x, c));
    if c < e {
        lemma_power_monotone(base, c, e - 1);
    }
    if e < c {
        lemma_power_monotone(base, e, c - 1);
    }
}

/// Far enough down, the powers have fallen to zero.
pub proof fn lemma_power_falls(base: int, k: nat)
    requires
        base > SCALE,
    ensures
        0 <= power(base, -(k as int)) <= SCALE - k || power(base, -(k as int)) == 0,
    decreases k,
{
    if k > 0 {
        lemma_power_falls(base, (k - 1) as nat);
        lemma_power_step(base, -(k as int));
    }
}

/// Walking up from a power that does not exceed `x` finds the floor of the
/// logarithm of `x`.
proof fn lemma_floor_above(base: int, x: int, e: int) -> (f: int)
    requires
        base > SCALE,
        power(base, e) <= x,
    ensures
        is_log_floor(base, x, f),
    decreases x - e + SCALE,
{
    lemma_power_step(base, e);
    lemma_power_step(base, e + 1);
    if power(base, e + 1) > x {
        e
    } else {
        if e >= 0 {
            assert(power(base, e + 1) >= SCALE + e + 1);
        } else {
            lemma_power_monotone(base, e + 1, 0);
            lemma_power_falls(base, 0);
        }
        lemma_floor_above(base, x, e + 1)
    }
}

/// Every natural number has a floor of its logarithm.
pub proof fn lemma_log_floor_exists(base: int, x: int)
    requires
        base > SCALE,
        x >= 0,
    ensures
        is_log_floor(base, x, log_floor(base, x)),
{
    lemma_power_falls(base, SCALE as nat);
    let f = lemma_floor_above(base, x, -(SCALE as int));
    assert(is_log_floor(base, x, f));
}

/// Every positive number has a ceiling of its logarithm.
pub proof fn lemma_log_ceil_exists(base: int, x: int)
    requires
        base > SCALE,
        x >= 1,
    ensures
        is_log_ceil(base, x, log_ceil(base, x)),
{
    lemma_log_floor_exists(base, x - 1);
    let f = log_floor(base, x - 1);
    assert(is_log_ceil(base, x, f + 1));
}

/// The powers of `base` from the floor of the logarithm of `low` up to, but
/// not including, the ceiling of the logarithm of `high`, with the exponent of
/// the first.
pub fn power_window(base: i64, low: i64, high: i64) -> (r: (i64, Vec<i64>))
    requires
        base > SCALE,
        1 <= low <= high <= COORD_MAX,
    ensures
        is_log_floor(base as int, low as int, r.0 as int),
        is_log_ceil(base as int, high as int, r.0 + r.1.len()),
        r.0 == log_floor(base as int, low as int),
        r.0 + r.1.len() == log_ceil(base as int, high as int),
        forall|i: int| 0 <= i < r.1.len() ==> #[trigger] r.1[i] == power(base as int, r.0 + i),
        forall|i: int| 0 <= i < r.1.len() ==> 0 <= #[trigger] r.1[i] < high,
{
    let wide_base: i128 = base as i128;
    let scale: i128 = SCALE as i128;
    let mut e: i64 = 0;
    let mut cur: i128 = scale;
    let mut down: Vec<i64> = Vec::new();
    if (low as i128) < scale {
        while cur > low as i128
            invariant
                wide_base == base,
                scale == SCALE,
                base > SCALE,
                low >= 1,
                cur == power(base as int, e as int),
                e <= 0,
                0 <= cur <= SCALE,
                cur - e <= SCALE,
                down.len() == -e,
                forall|j: int| 0 <= j < down.len() ==> #[trigger] down[j] == power(base as int, -j),
                e < 0 ==> power(base as int, e + 1) > low,
            decreases cur,
        {
            proof {
                lemma_power_step(base as int, e - 1);
                assert(cur * scale <= 1_000_000 * 1_000_000) by (nonlinear_arith)
                    requires
                        0 <= cur <= 1_000_000,
                        scale == 1_000_000,
                ;
            }
            down.push(cur as i64);
            cur = cur * scale / wide_base;
            e = e - 1;
        }
        proof {
            if e == 0 {
                lemma_power_step(base as int, 0);
            }
        }
    } else {
        loop
            invariant
                wide_base == base,
                scale == SCALE,
                base > SCALE,
                cur == power(base as int, e as int),
                e >= 0,
                SCALE <= cur <= low <= COORD_MAX,
                cur >= SCALE + e,
                down.len() == 0,
            ensures
                cur == power(base as int, e as int),
                e >= 0,
                SCALE <= cur <= low,
                low < power(base as int, e + 1),
                down.len() == 0,
            decreases low - cur,
        {
            proof {
                lemma_power_step(base as int, e as int);
                assert(0 <= cur * wide_base <= 1_000_000_000_000_000 * 0x7fff_ffff_ffff_ffff)
                    by (nonlinear_arith)
                    requires
                        0 <= cur <= 1_000_000_000_000_000,
                        0 <= wide_base <= 0x7fff_ffff_ffff_ffff,
                ;
            }
            let next: i128 = cur * wide_base / scale;
            if next > low as i128 {
                break ;
            }
            cur = next;
            e = e + 1;
        }
    }
    let first: i64 = e;
    proof {
        lemma_log_floor_unique(base as int, low as int, first as int);
    }
    let mut window: Vec<i64> = Vec::new();
    while e < 0 && cur < high as i128
        invariant
            base > SCALE,
            first <= e <= 0 || (first >= 0 && e == first),
            cur == power(base as int, e as int),
            0 <= cur <= COORD_MAX,
            e >= 0 ==> cur >= SCALE + e,
            down.len() == -first || (first >= 0 && down.len() == 0),
            forall|j: int| 0 <= j < down.len() ==> #[trigger] down[j] == power(base as int, -j),
            window.len() == e - first,
            forall|i: int| 0 <= i < window.len() ==> #[trigger] window[i] == power(base as int, first + i),
            forall|i: int| 0 <= i < window.len() ==> 0 <= #[trigger] window[i] < high,
        decreases -e,
    {
        window.push(cur as i64);
        let at: usize = (-(e + 1)) as usize;
        cur = down[at] as i128;
        e = e + 1;
        proof {
            lemma_power_step(base as int, e as int);
            lemma_power_monotone(base as int, e as int, 0);
        }
    }
    while cur < high as i128
        invariant
            wide_base == base,
            scale == SCALE,
            base > SCALE,
            high <= COORD_MAX,
            first <= e,
            cur < high ==> e >= 0,
            cur == power(base as int, e as int),
            0 <= cur,
            e >= 0 ==> cur >= SCALE + e,
            window.len() == e - first,
            forall|i: int| 0 <= i < window.len() ==> #[trigger] window[i] == power(base as int, first + i),
            forall|i: int| 0 <= i < window.len() ==> 0 <= #[trigger] window[i] < high,
        decreases
                (if cur < high {
                    high - cur
                } else {
                    0
                }),
    {
        proof {
            lemma_power_step(base as int, e as int);
            lemma_power_step(base as int, e + 1);
            assert(0 <= cur * wide_base <= 1_000_000_000_000_000 * 0x7fff_ffff_ffff_ffff)
                by (nonlinear_arith)
                requires
                    0 <= cur <= 1_000_000_000_000_000,
                    0 <= wide_base <= 0x7fff_ffff_ffff_ffff,
            ;
        }
        window.push(cur as i64);
        let ghost before = cur;
        cur = cur * wide_base / scale;
        e = e + 1;
        assert(cur == power(base as int, e as int));
        assert(before < cur);
    }
    proof {
        if e == first {
            lemma_power_step(base as int, e - 1);
        } else {
            assert(window[e - first - 1] == power(base as int, e - 1));
        }
        lemma_log_ceil_unique(base as int, high as int, e as int);
    }
    (first, window)
}

} // verus!
