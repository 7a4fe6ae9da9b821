//! Nice numbers and the spacing rules built on them.
//!
//! A nice number is 1, 2, 5 or 10 times a power of ten. Steps between ticks and
//! grid lines are nice numbers, so that the labels along an axis read as round
//! values.

use vstd::prelude::*;
use vstd::arithmetic::power::pow;
use crate::fixed::{
    decade, decade_of, div_ceil, div_floor, in_domain, lemma_decade_brackets, lemma_floor_bounds,
    order, quot_ceil, quot_floor, COORD_MAX, SCALE,
};
use crate::line::Separation;
use crate::power::{log_ceil, log_floor, power, power_window};

verus! {

/// Largest value that [`nice_number`] accepts.
pub const NICE_MAX: i64 = 900_000_000_000_000_000;

/// The multiple of the decade that a positive value is snapped to.
///
/// With `round` the value goes to the nearest of 1, 2, 5 and 10 (the bounds are
/// 1.5, 3 and 7 decades); without it, to the first of them that is not below
/// the value.
pub open spec fn nice_fraction(v: int, round: bool) -> int {
    let p = decade(v);
    if round {
        if 2 * v < 3 * p {
            1
        } else if v < 3 * p {
            2
        } else if v < 7 * p {
            5
        } else {
            10
        }
    } else {
        if v <= p {
            1
        } else if v <= 2 * p {
            2
        } else if v <= 5 * p {
            5
        } else {
            10
        }
    }
}

/// The nice number that a positive value is snapped to.
pub open spec fn nice(v: int, round: bool) -> int {
    nice_fraction(v, round) * decade(v)
}

/// The quotient of a span by a number of parts, but never finer than one raw
/// unit.
pub open spec fn rough_step(span: int, parts: int) -> int {
    if span / parts < 1 {
        1
    } else {
        span / parts
    }
}

/// The number of parts that a tick budget stands for in automatic spacing.
pub open spec fn spacing_parts(max_ticks: int) -> int {
    if max_ticks < 1 {
        1
    } else {
        max_ticks
    }
}

/// The spacing chosen for a length: the explicit separation, or the nice
/// number nearest to the length divided by the tick budget.
pub open spec fn spacing(length: int, separation: Separation, max_ticks: int) -> int {
    match separation {
        Separation::Value(v) => v as int,
        Separation::Auto => nice(rough_step(length, spacing_parts(max_ticks)), true),
    }
}

/// The lower end of the range that linear spacing works on.
pub open spec fn spacing_low(min: int, max: int) -> int {
    if min == max {
        min - SCALE
    } else if min < max {
        min
    } else {
        max
    }
}

/// The upper end of the range that linear spacing works on.
pub open spec fn spacing_high(min: int, max: int) -> int {
    if min == max {
        max + SCALE
    } else if min < max {
        max
    } else {
        min
    }
}

/// The number of intervals that a tick budget stands for in linear spacing.
pub open spec fn linear_parts(max_ticks: int) -> int {
    if max_ticks < 2 {
        1
    } else {
        max_ticks - 1
    }
}

/// The step of linear spacing.
pub open spec fn linear_step(min: int, max: int, max_ticks: int) -> int {
    nice(rough_step(spacing_high(min, max) - spacing_low(min, max), linear_parts(max_ticks)), true)
}

/// The first tick value of linear spacing: the lower end snapped down to a
/// multiple of the step.
pub open spec fn linear_first(min: int, max: int, max_ticks: int) -> int {
    let step = linear_step(min, max, max_ticks);
    quot_floor(spacing_low(min, max), step) * step
}

/// The last tick value of linear spacing: the upper end snapped up to a
/// multiple of the step.
pub open spec fn linear_last(min: int, max: int, max_ticks: int) -> int {
    let step = linear_step(min, max, max_ticks);
    quot_ceil(spacing_high(min, max), step) * step
}

/// A nice number is 1, 2, 5 or 10 times the power of ten whose exponent is the
/// decimal order of the value it was made from.
pub proof fn lemma_nice_is_round(v: int, round: bool)
    requires
        v >= 1,
    ensures
        pow(10, order(v)) <= v < pow(10, order(v) + 1),
        nice(v, round) == pow(10, order(v)) || nice(v, round) == 2 * pow(10, order(v)) || nice(
            v,
            round,
        ) == 5 * pow(10, order(v)) || nice(v, round) == 10 * pow(10, order(v)),
        decade(v) <= nice(v, round) <= 10 * decade(v),
        nice(v, round) <= 10 * v,
{
    lemma_decade_brackets(v);
    reveal(pow);
    assert(pow(10, order(v) + 1) == 10 * pow(10, order(v)));
}

/// A rough step is positive and no larger than a non-negative span, unless the
/// span is below one raw unit.
pub proof fn lemma_rough_step_bounds(span: int, parts: int)
    requires
        span >= 0,
        parts >= 1,
    ensures
        1 <= rough_step(span, parts),
        rough_step(span, parts) <= span || rough_step(span, parts) == 1,
{
    lemma_floor_bounds(span, parts);
    let q = span / parts;
    if q > span {
        assert(q * parts >= q) by (nonlinear_arith)
            requires
                q > 0,
                parts >= 1,
        ;
    }
}

/// Snaps a positive value to a nice number.
pub fn nice_number(value: i64, round: bool) -> (r: i64)
    requires
        0 < value <= NICE_MAX,
    ensures
        r == nice(value as int, round),
        1 <= decade(value as int) <= r <= 10 * decade(value as int),
        r <= 10 * value,
{
    let p: i64 = decade_of(value);
    let fraction: i64 = if round {
        if 2 * value < 3 * p {
            1
        } else if value < 3 * p {
            2
        } else if value < 7 * p {
            5
        } else {
            10
        }
    } else {
        if value <= p {
            1
        } else if value <= 2 * p {
            2
        } else if value <= 5 * p {
            5
        } else {
            10
        }
    };
    fraction * p
}

/// The quotient of a non-negative span by a positive number of parts, at
/// least one raw unit.
fn rough_step_of(span: i128, parts: i128) -> (r: i128)
    requires
        0 <= span <= 100 * COORD_MAX,
        1 <= parts,
    ensures
        r == rough_step(span as int, parts as int),
        1 <= r,
        r <= span || r == 1,
{
    proof {
        lemma_rough_step_bounds(span as int, parts as int);
    }
    let q: i128 = span / parts;
    if q < 1 {
        1
    } else {
        q
    }
}

/// The spacing between grid lines or ticks along a length.
pub fn get_spacing(length: i64, separation: Separation, max_ticks: usize) -> (r: i64)
    requires
        0 <= length <= 2 * COORD_MAX,
    ensures
        r == spacing(length as int, separation, max_ticks as int),
        separation is Auto ==> r >= 1,
{
    match separation {
        Separation::Value(v) => v,
        Separation::Auto => {
            let parts: i128 = if max_ticks < 1 {
                1
            } else {
                max_ticks as i128
            };
            let rough: i128 = rough_step_of(length as i128, parts);
            nice_number(rough as i64, true)
        },
    }
}

/// The first tick value, the last tick value and the step of a linear scale
/// over `min` and `max`, which may come in either order.
pub fn linear_spacing(min: i64, max: i64, max_ticks: usize) -> (r: (i64, i64, i64))
    requires
        in_domain(min as int),
        in_domain(max as int),
    ensures
        r.0 == linear_first(min as int, max as int, max_ticks as int),
        r.1 == linear_last(min as int, max as int, max_ticks as int),
        r.2 == linear_step(min as int, max as int, max_ticks as int),
        1 <= r.2 <= 30 * COORD_MAX,
        r.0 <= min,
        r.0 <= max,
        min <= r.1,
        max <= r.1,
        r.0 > -40 * COORD_MAX,
        r.1 < 40 * COORD_MAX,
{
    let mut low: i64 = if min < max {
        min
    } else {
        max
    };
    let mut high: i64 = if min < max {
        max
    } else {
        min
    };
    if high == low {
        low = low - SCALE;
        high = high + SCALE;
    }
    let parts: i128 = if max_ticks < 2 {
        1
    } else {
        (max_ticks - 1) as i128
    };
    let rough: i128 = rough_step_of((high - low) as i128, parts);
    let step: i64 = nice_number(rough as i64, true);
    let first: i128 = div_floor(low as i128, step as i128);
    let last: i128 = div_ceil(high as i128, step as i128);
    ((first * (step as i128)) as i64, (last * (step as i128)) as i64, step)
}

/// Whether a logarithmic scale can be laid out: the base is above one and the
/// upper bound is positive.
pub open spec fn log_valid(base: int, high: int) -> bool {
    base > SCALE && high > 0
}

/// The lower bound of a logarithmic scale, raised to the smallest positive
/// value where it is not positive.
pub open spec fn log_low(low: int) -> int {
    if low < 1 {
        1
    } else {
        low
    }
}

/// The test that a value is a tick of a logarithmic scale from `low` up to,
/// but not including, `high`: it is positive and lies in that range.
pub open spec fn in_log_range(low: int, high: int) -> spec_fn(int) -> bool {
    |v: int| v > 0 && low <= v < high
}

/// The exponent at which the candidate ticks of a logarithmic scale begin.
pub open spec fn log_first_exp(base: int, low: int) -> int {
    log_floor(base, log_low(low))
}

/// The number of exponents that a logarithmic scale goes through: from the
/// floor of the logarithm of the lower bound to the ceiling of the logarithm
/// of the upper bound.
pub open spec fn log_exp_count(base: int, low: int, high: int) -> nat {
    let span = log_ceil(base, high) - log_first_exp(base, low) + 1;
    if span < 0 {
        0
    } else {
        span as nat
    }
}

/// The number of minor ticks between two neighbouring powers of the base.
pub open spec fn minor_width(base: int) -> int {
    base / (SCALE as int) - 2
}

/// The candidate for the major tick with the given index.
pub open spec fn major_candidate(base: int, low: int) -> spec_fn(int) -> int {
    |i: int| power(base, log_first_exp(base, low) + i)
}

/// The candidate for the minor tick with the given index: the multiples 2, 3
/// and so on, below the whole part of the base, of one power after the other.
pub open spec fn minor_candidate(base: int, low: int) -> spec_fn(int) -> int {
    |j: int|
        (2 + j % minor_width(base)) * power(
            base,
            log_first_exp(base, low) + j / minor_width(base),
        )
}

/// The values of the major ticks of a logarithmic scale, ascending.
pub open spec fn log_majors(base: int, low: int, high: int) -> Seq<int> {
    Seq::new(log_exp_count(base, low, high), major_candidate(base, low)).filter(
        in_log_range(low, high),
    )
}

/// The values of the minor ticks of a logarithmic scale, in the order of
/// their exponents and multipliers.
pub open spec fn log_minors(base: int, low: int, high: int) -> Seq<int> {
    if minor_width(base) < 1 {
        Seq::empty()
    } else {
        Seq::new(
            (log_exp_count(base, low, high) * minor_width(base)) as nat,
            minor_candidate(base, low),
        ).filter(in_log_range(low, high))
    }
}

/// The smaller of two values.
pub open spec fn lesser(a: int, b: int) -> int {
    if a < b {
        a
    } else {
        b
    }
}

/// The larger of two values.
pub open spec fn greater(a: int, b: int) -> int {
    if a < b {
        b
    } else {
        a
    }
}

/// Filtering a sequence with one more element at its end.
pub proof fn lemma_filter_push<A>(s: Seq<A>, x: A, pred: spec_fn(A) -> bool)
    ensures
        s.push(x).filter(pred) == if pred(x) {
            s.filter(pred).push(x)
        } else {
            s.filter(pred)
        },
{
    reveal(Seq::filter);
    assert(s.push(x).drop_last() =~= s);
}

/// Elements at the end of a sequence that fail the test add nothing to what
/// the filter keeps.
pub proof fn lemma_filter_rejected_tail<A>(
    kept: nat,
    rejected: nat,
    f: spec_fn(int) -> A,
    pred: spec_fn(A) -> bool,
)
    requires
        forall|j: int| kept <= j < kept + rejected ==> !pred(#[trigger] f(j)),
    ensures
        Seq::new(kept + rejected, f).filter(pred) == Seq::new(kept, f).filter(pred),
    decreases rejected,
{
    if rejected > 0 {
        let shorter = (kept + rejected - 1) as nat;
        lemma_filter_rejected_tail(kept, (rejected - 1) as nat, f, pred);
        assert(Seq::new(kept + rejected, f) =~= Seq::new(shorter, f).push(f(shorter as int)));
        lemma_filter_push(Seq::new(shorter, f), f(shorter as int), pred);
    }
}

/// Every positive power of the base from `low` up to, but not including,
/// `high` is the value of a major tick, and every value of a major tick is
/// such a power.
pub proof fn lemma_log_majors_are_the_powers(base: int, low: int, high: int)
    requires
        log_valid(base, high),
        low <= high,
    ensures
        forall|e: int|
            in_log_range(low, high)(#[trigger] power(base, e)) ==> log_majors(
                base,
                low,
                high,
            ).contains(power(base, e)),
        forall|i: int|
            0 <= i < log_majors(base, low, high).len() ==> in_log_range(low, high)(
                #[trigger] log_majors(base, low, high)[i],
            ) && exists|e: int| log_majors(base, low, high)[i] == power(base, e),
{
    let pred = in_log_range(low, high);
    let first = log_first_exp(base, low);
    let last = log_ceil(base, high);
    let count = log_exp_count(base, low, high);
    let candidates = Seq::new(count, major_candidate(base, low));
    crate::power::lemma_log_floor_exists(base, log_low(low));
    crate::power::lemma_log_ceil_exists(base, high);
    assert forall|e: int| pred(#[trigger] power(base, e)) implies log_majors(
        base,
        low,
        high,
    ).contains(power(base, e)) by {
        let p = power(base, e);
        if e < first {
            crate::power::lemma_power_monotone(base, e, first - 1);
            crate::power::lemma_power_step(base, first - 1);
            if power(base, first) >= 1 {
                assert(p < power(base, first));
            }
            assert(false);
        }
        if e > last {
            crate::power::lemma_power_monotone(base, last, e);
            assert(false);
        }
        assert(candidates[e - first] == p);
        candidates.lemma_filter_contains(pred, e - first);
    }
    assert forall|i: int| 0 <= i < log_majors(base, low, high).len() implies pred(
        #[trigger] log_majors(base, low, high)[i],
    ) && exists|e: int| log_majors(base, low, high)[i] == power(base, e) by {
        let v = log_majors(base, low, high)[i];
        candidates.lemma_filter_pred(pred, i);
        candidates.lemma_filter_contains_rev(pred, v);
        let j = choose|j: int| 0 <= j < candidates.len() && candidates[j] == v;
        assert(v == power(base, first + j));
    }
}

/// The major and minor tick values of a logarithmic scale over `min` and
/// `max`, which may come in either order.
///
/// The result is `None` where the scale cannot be laid out. Otherwise it
/// holds the lower bound raised to the smallest positive value, the upper
/// bound, the major tick values and, if asked for, the minor tick values.
pub fn log_spacing(min: i64, max: i64, base: i64, include_minor: bool) -> (r: Option<
    (i64, i64, Vec<i64>, Option<Vec<i64>>),
>)
    requires
        in_domain(min as int),
        in_domain(max as int),
    ensures
        r.is_some() <==> log_valid(base as int, greater(min as int, max as int)),
        r matches Some(found) ==> {
            let low = lesser(min as int, max as int);
            let high = greater(min as int, max as int);
            &&& found.0 == log_low(low)
            &&& found.1 == high
            &&& found.2@.map_values(|v: i64| v as int) == log_majors(base as int, low, high)
            &&& found.3.is_some() <==> include_minor
            &&& found.3 matches Some(minors) ==> minors@.map_values(|v: i64| v as int)
                == log_minors(base as int, low, high)
        },
{
    let low: i64 = if min < max {
        min
    } else {
        max
    };
    let high: i64 = if min < max {
        max
    } else {
        min
    };
    if base <= SCALE || high <= 0 {
        return None;
    }
    let low_pos: i64 = if low < 1 {
        1
    } else {
        low
    };
    let (first, window) = power_window(base, low_pos, high);
    let n: usize = window.len();
    let ghost pred = in_log_range(low as int, high as int);
    let ghost major = major_candidate(base as int, low as int);
    let ghost minor = minor_candidate(base as int, low as int);
    let ghost width = minor_width(base as int);
    assert(log_exp_count(base as int, low as int, high as int) == n + 1);
    let mut ticks: Vec<i64> = Vec::new();
    let mut i: usize = 0;
    while i < n
        invariant
            i <= n == window.len(),
            pred == in_log_range(low as int, high as int),
            major == major_candidate(base as int, low as int),
            first == log_first_exp(base as int, low as int),
            forall|k: int| 0 <= k < n ==> #[trigger] window[k] == power(base as int, first + k),
            ticks@.map_values(|v: i64| v as int) == Seq::new(i as nat, major).filter(pred),
        decreases n - i,
    {
        let t: i64 = window[i];
        proof {
            assert(Seq::new((i + 1) as nat, major) =~= Seq::new(i as nat, major).push(t as int));
            lemma_filter_push(Seq::new(i as nat, major), t as int, pred);
        }
        let ghost before = ticks@.map_values(|v: i64| v as int);
        if t > 0 && low <= t && t < high {
            ticks.push(t);
            assert(ticks@.map_values(|v: i64| v as int) =~= before.push(t as int));
        }
        i = i + 1;
    }
    proof {
        let last = power(base as int, first + n);
        assert(major(n as int) == last);
        assert(!pred(last));
        lemma_filter_rejected_tail(n as nat, 1, major, pred);
    }
    if !include_minor {
        return Some((low_pos, high, ticks, None));
    }
    let mut minors: Vec<i64> = Vec::new();
    let multipliers: i64 = base / SCALE;
    if multipliers >= 3 {
        let mut i: usize = 0;
        proof {
            assert(0 * width == 0) by (nonlinear_arith);
        }
        while i < n
            invariant
                i <= n == window.len(),
                multipliers == base / SCALE,
                multipliers >= 3,
                width == multipliers - 2,
                width == minor_width(base as int),
                0 < high <= COORD_MAX,
                pred == in_log_range(low as int, high as int),
                minor == minor_candidate(base as int, low as int),
                first == log_first_exp(base as int, low as int),
                forall|k: int| 0 <= k < n ==> #[trigger] window[k] == power(base as int, first + k),
                forall|k: int| 0 <= k < n ==> 0 <= #[trigger] window[k] < high,
                minors@.map_values(|v: i64| v as int) == Seq::new((i * width) as nat, minor).filter(
                    pred,
                ),
            decreases n - i,
        {
            let p: i128 = window[i] as i128;
            let mut m: i64 = 2;
            proof {
                assert(i * width >= 0) by (nonlinear_arith)
                    requires
                        i >= 0,
                        width >= 1,
                ;
            }
            while m < multipliers
                invariant
                    i < n == window.len(),
                    2 <= m <= multipliers,
                    width == multipliers - 2,
                    width == minor_width(base as int),
                    i * width >= 0,
                    0 <= p < high <= COORD_MAX,
                    p == power(base as int, first + i),
                    pred == in_log_range(low as int, high as int),
                    minor == minor_candidate(base as int, low as int),
                    first == log_first_exp(base as int, low as int),
                    minors@.map_values(|v: i64| v as int) == Seq::new(
                        (i * width + (m - 2)) as nat,
                        minor,
                    ).filter(pred),
                decreases multipliers - m,
            {
                let ghost at = i * width + (m - 2);
                assert(0 <= (m as i128) * p <= 0x7fff_ffff_ffff_ffff * 1_000_000_000_000_000)
                    by (nonlinear_arith)
                    requires
                        0 <= m <= 0x7fff_ffff_ffff_ffff,
                        0 <= p <= 1_000_000_000_000_000,
                ;
                let v: i128 = (m as i128) * p;
                proof {
                    vstd::arithmetic::div_mod::lemma_fundamental_div_mod_converse(
                        at,
                        width,
                        i as int,
                        m - 2,
                    );
                    assert(minor(at) == v);
                    assert(Seq::new((at + 1) as nat, minor) =~= Seq::new(at as nat, minor).push(
                        v as int,
                    ));
                    lemma_filter_push(Seq::new(at as nat, minor), v as int, pred);
                }
                let ghost before = minors@.map_values(|v: i64| v as int);
                if v > 0 && low as i128 <= v && v < high as i128 {
                    minors.push(v as i64);
                    assert(minors@.map_values(|v: i64| v as int) =~= before.push(v as int));
                }
                m = m + 1;
            }
            proof {
                assert(i * width + width == (i + 1) * width) by (nonlinear_arith);
            }
            i = i + 1;
        }
        proof {
            let kept = (n * width) as nat;
            assert(n * width + width == (n + 1) * width) by (nonlinear_arith);
            assert(n * width >= 0) by (nonlinear_arith)
                requires
                    n >= 0,
                    width >= 1,
            ;
            let last = power(base as int, first + n);
            assert forall|j: int| kept <= j < kept + width implies !pred(#[trigger] minor(j)) by {
                vstd::arithmetic::div_mod::lemma_fundamental_div_mod_converse(
                    j,
                    width,
                    n as int,
                    j - kept,
                );
                assert(minor(j) == (2 + (j - kept)) * last);
                assert((2 + (j - kept)) * last >= last) by (nonlinear_arith)
                    requires
                        j - kept >= 0,
                        last >= 0,
                ;
            }
            lemma_filter_rejected_tail(kept, width as nat, minor, pred);
        }
    }
    Some((low_pos, high, ticks, Some(minors)))
}

} // verus!
