//! Segments, axes and the fitting of an axis to a data range.

use std::ops::Range;
use vstd::prelude::*;
use crate::common::{
    get_spacing, greater, lemma_nice_is_round, lemma_rough_step_bounds, lesser, nice, nice_number,
    rough_step, spacing, spacing_parts,
};
use crate::fixed::{
    div_ceil, div_floor, in_domain, in_fit_domain, lemma_ceil_bounds, lemma_floor_bounds,
    magnitude, quot_ceil, quot_floor, COORD_MAX, FIT_MAX, PADDING_MAX, SCALE,
};
use crate::point::Datapoint;
use crate::view::{BBox, DataBBox};

verus! {

/// Toggle for visual elements that can be shown or hidden.
#[derive(Clone, Copy, Debug, PartialEq, Eq, Structural)]
pub enum Visibility {
    /// The element is drawn.
    Visible,
    /// The element is suppressed.
    Invisible,
}

/// Strategy for spacing grid lines or tick marks along an axis.
#[derive(Clone, Copy, Debug, PartialEq, Eq, Structural)]
pub enum Separation {
    /// A nice spacing is chosen from the length and the tick budget.
    Auto,
    /// An explicit spacing, in raw data units.
    Value(i64),
}

/// The lower end of the range that is fitted: a range of no width is widened
/// by one unit on either side first.
pub open spec fn fit_low(min: int, max: int) -> int {
    if min == max {
        min - SCALE
    } else {
        min
    }
}

/// The upper end of the range that is fitted.
pub open spec fn fit_high(min: int, max: int) -> int {
    if min == max {
        max + SCALE
    } else {
        max
    }
}

/// The padding added on either side of a data range: the given ratio of the
/// width of the range that is fitted.
pub open spec fn padding(min: int, max: int, padding_pct: int) -> int {
    (fit_high(min, max) - fit_low(min, max)) * padding_pct / (SCALE as int)
}

/// The step that a padded data range is snapped to.
pub open spec fn fitted_step(min: int, max: int, padding_pct: int, ticks: int) -> int {
    let pad = padding(min, max, padding_pct);
    nice(
        rough_step((fit_high(min, max) + pad) - (fit_low(min, max) - pad), spacing_parts(ticks)),
        true,
    )
}

/// The lower end of the nice range around `min` and `max`: the range that is
/// fitted, less the padding, snapped down to a multiple of the step.
pub open spec fn nice_min(min: int, max: int, padding_pct: int, ticks: int) -> int {
    let step = fitted_step(min, max, padding_pct, ticks);
    quot_floor(fit_low(min, max) - padding(min, max, padding_pct), step) * step
}

/// The upper end of the nice range around `min` and `max`: the range that is
/// fitted, plus the padding, snapped up to a multiple of the step.
pub open spec fn nice_max(min: int, max: int, padding_pct: int, ticks: int) -> int {
    let step = fitted_step(min, max, padding_pct, ticks);
    quot_ceil(fit_high(min, max) + padding(min, max, padding_pct), step) * step
}

/// The padding of an ordered range by a ratio of at most ten is at most ten
/// times the width of the range that is fitted, and not negative.
pub proof fn lemma_padding_bounds(min: int, max: int, padding_pct: int)
    requires
        min <= max,
        0 <= padding_pct <= PADDING_MAX,
    ensures
        0 <= padding(min, max, padding_pct) <= 10 * (fit_high(min, max) - fit_low(min, max)),
{
    let span = fit_high(min, max) - fit_low(min, max);
    assert(0 <= span * padding_pct <= span * 10_000_000) by (nonlinear_arith)
        requires
            0 <= span,
            0 <= padding_pct <= 10_000_000,
    ;
    lemma_floor_bounds(span * padding_pct, SCALE as int);
    let q = span * padding_pct / (SCALE as int);
    if q < 0 {
        assert(q * 1_000_000 + 1_000_000 <= 0);
    }
    if q > 10 * span {
        assert(q * 1_000_000 >= (10 * span + 1) * 1_000_000);
    }
}

/// The padding of an ordered range by a non-negative ratio is non-negative.
pub proof fn lemma_padding_nonnegative(min: int, max: int, padding_pct: int)
    requires
        min <= max,
        0 <= padding_pct,
    ensures
        0 <= padding(min, max, padding_pct),
{
    let span = fit_high(min, max) - fit_low(min, max);
    assert(0 <= span * padding_pct) by (nonlinear_arith)
        requires
            0 <= span,
            0 <= padding_pct,
    ;
    lemma_floor_bounds(span * padding_pct, SCALE as int);
}

/// The nice range contains the data range and the padding around it. Both of
/// its ends are multiples of the step, each less than a step beyond the
/// padded range.
pub proof fn lemma_nice_range_contains(min: int, max: int, padding_pct: int, ticks: int)
    requires
        min <= max,
        0 <= padding_pct,
    ensures
        nice_min(min, max, padding_pct, ticks) <= min,
        max <= nice_max(min, max, padding_pct, ticks),
        nice_min(min, max, padding_pct, ticks) < nice_max(min, max, padding_pct, ticks),
        nice_min(min, max, padding_pct, ticks) <= fit_low(min, max) - padding(
            min,
            max,
            padding_pct,
        ),
        fit_high(min, max) + padding(min, max, padding_pct) <= nice_max(
            min,
            max,
            padding_pct,
            ticks,
        ),
        fitted_step(min, max, padding_pct, ticks) >= 1,
        fit_low(min, max) - padding(min, max, padding_pct) - fitted_step(
            min,
            max,
            padding_pct,
            ticks,
        ) < nice_min(min, max, padding_pct, ticks),
        nice_max(min, max, padding_pct, ticks) < fit_high(min, max) + padding(
            min,
            max,
            padding_pct,
        ) + fitted_step(min, max, padding_pct, ticks),
        nice_min(min, max, padding_pct, ticks) % fitted_step(min, max, padding_pct, ticks) == 0,
        nice_max(min, max, padding_pct, ticks) % fitted_step(min, max, padding_pct, ticks) == 0,
{
    lemma_padding_nonnegative(min, max, padding_pct);
    let lo = fit_low(min, max);
    let hi = fit_high(min, max);
    let pad = padding(min, max, padding_pct);
    let span = (hi + pad) - (lo - pad);
    let parts = spacing_parts(ticks);
    lemma_rough_step_bounds(span, parts);
    let rough = rough_step(span, parts);
    lemma_nice_is_round(rough, true);
    crate::fixed::lemma_decade_brackets(rough);
    let step = fitted_step(min, max, padding_pct, ticks);
    lemma_floor_bounds(lo - pad, step);
    lemma_ceil_bounds(hi + pad, step);
    vstd::arithmetic::div_mod::lemma_mod_multiples_basic(quot_floor(lo - pad, step), step);
    vstd::arithmetic::div_mod::lemma_mod_multiples_basic(quot_ceil(hi + pad, step), step);
}

/// Fits a nice range around `min` and `max`.
///
/// A range of no width is first widened by one unit on either side. The
/// range is then padded by `padding_pct` of its width on either side and
/// widened until both ends are multiples of a nice step, chosen so that about
/// `ticks` steps span the padded range.
pub fn calculate_nice_range(min: i64, max: i64, padding_pct: i64, ticks: usize) -> (r: (i64, i64))
    requires
        in_fit_domain(min as int),
        in_fit_domain(max as int),
        min <= max,
        0 <= padding_pct <= PADDING_MAX,
    ensures
        r.0 == nice_min(min as int, max as int, padding_pct as int, ticks as int),
        r.1 == nice_max(min as int, max as int, padding_pct as int, ticks as int),
        r.0 <= min,
        max <= r.1,
        r.0 < r.1,
        in_domain(r.0 as int),
        in_domain(r.1 as int),
{
    let low: i64 = if min == max {
        min - SCALE
    } else {
        min
    };
    let high: i64 = if min == max {
        max + SCALE
    } else {
        max
    };
    proof {
        lemma_padding_bounds(min as int, max as int, padding_pct as int);
        lemma_nice_range_contains(min as int, max as int, padding_pct as int, ticks as int);
    }
    let range: i128 = (high - low) as i128;
    assert(0 <= range * (padding_pct as i128) <= 3 * FIT_MAX * PADDING_MAX) by (nonlinear_arith)
        requires
            0 <= range <= 3 * FIT_MAX,
            0 <= padding_pct <= PADDING_MAX,
    ;
    let pad: i128 = range * (padding_pct as i128) / (SCALE as i128);
    let padded_min: i128 = low as i128 - pad;
    let padded_max: i128 = high as i128 + pad;
    let parts: i128 = if ticks < 1 {
        1
    } else {
        ticks as i128
    };
    let span: i128 = padded_max - padded_min;
    proof {
        lemma_rough_step_bounds(span as int, parts as int);
    }
    let quotient: i128 = span / parts;
    let rough: i128 = if quotient < 1 {
        1
    } else {
        quotient
    };
    let step: i64 = nice_number(rough as i64, true);
    let first: i128 = div_floor(padded_min, step as i128);
    let last: i128 = div_ceil(padded_max, step as i128);
    ((first * (step as i128)) as i64, (last * (step as i128)) as i64)
}

/// A segment from one data point to another.
#[derive(Clone, Copy, Debug, PartialEq, Eq, Structural)]
pub struct Line {
    /// Start of the segment.
    pub from: Datapoint,
    /// End of the segment.
    pub to: Datapoint,
}

impl Line {
    /// The segment between two points.
    #[must_use]
    pub fn new(from: Datapoint, to: Datapoint) -> (r: Self)
        ensures
            r.from == from,
            r.to == to,
    {
        Line { from, to }
    }
}

/// A pair of perpendicular segments that stand for the x and the y axis.
#[derive(Clone, Copy, Debug, PartialEq, Eq, Structural)]
pub struct Axis {
    /// The segment along the x axis.
    pub x_axis: Line,
    /// The segment along the y axis.
    pub y_axis: Line,
}

/// The axis over the ranges from `min_x` to `max_x` and from `min_y` to
/// `max_y`: both segments start in the corner of the two minima, the one runs
/// to the largest x, the other to the largest y.
pub open spec fn axis_over(min_x: int, max_x: int, min_y: int, max_y: int) -> Axis {
    Axis {
        x_axis: Line {
            from: Datapoint { x: min_x as i64, y: min_y as i64 },
            to: Datapoint { x: max_x as i64, y: min_y as i64 },
        },
        y_axis: Line {
            from: Datapoint { x: min_x as i64, y: min_y as i64 },
            to: Datapoint { x: min_x as i64, y: max_y as i64 },
        },
    }
}

/// The axis fitted to two data ranges, whose ends may come in either order.
pub open spec fn fitted_axis(
    x_start: int,
    x_end: int,
    y_start: int,
    y_end: int,
    padding_pct: int,
    ticks: int,
) -> Axis {
    let x_lo = lesser(x_start, x_end);
    let x_hi = greater(x_start, x_end);
    let y_lo = lesser(y_start, y_end);
    let y_hi = greater(y_start, y_end);
    axis_over(
        nice_min(x_lo, x_hi, padding_pct, ticks),
        nice_max(x_lo, x_hi, padding_pct, ticks),
        nice_min(y_lo, y_hi, padding_pct, ticks),
        nice_max(y_lo, y_hi, padding_pct, ticks),
    )
}

impl Axis {
    /// Whether the ends of both segments lie in the coordinate domain.
    pub open spec fn bounded(&self) -> bool {
        &&& in_domain(self.x_axis.from.x as int)
        &&& in_domain(self.x_axis.to.x as int)
        &&& in_domain(self.y_axis.from.y as int)
        &&& in_domain(self.y_axis.to.y as int)
    }

    /// The box that the two segments span: from the smaller to the larger x
    /// of the x segment, and from the smaller to the larger y of the y
    /// segment.
    pub open spec fn spec_data_bounds(&self) -> DataBBox {
        BBox {
            minimum: Datapoint {
                x: lesser(self.x_axis.from.x as int, self.x_axis.to.x as int) as i64,
                y: lesser(self.y_axis.from.y as int, self.y_axis.to.y as int) as i64,
            },
            maximum: Datapoint {
                x: greater(self.x_axis.from.x as int, self.x_axis.to.x as int) as i64,
                y: greater(self.y_axis.from.y as int, self.y_axis.to.y as int) as i64,
            },
        }
    }

    /// The axis made of the two given segments.
    #[must_use]
    pub fn new(x_axis: Line, y_axis: Line) -> (r: Self)
        ensures
            r.x_axis == x_axis,
            r.y_axis == y_axis,
    {
        Axis { x_axis, y_axis }
    }

    /// The axis whose segments span the two ranges as they are given.
    pub fn from_ranges(x_range: Range<i64>, y_range: Range<i64>) -> (r: Self)
        ensures
            r == axis_over(
                x_range.start as int,
                x_range.end as int,
                y_range.start as int,
                y_range.end as int,
            ),
    {
        Axis {
            x_axis: Line::new(
                Datapoint::new(x_range.start, y_range.start),
                Datapoint::new(x_range.end, y_range.start),
            ),
            y_axis: Line::new(
                Datapoint::new(x_range.start, y_range.start),
                Datapoint::new(x_range.start, y_range.end),
            ),
        }
    }

    /// Length of the x segment along the x axis.
    pub fn length_x_axis(&self) -> (r: i64)
        requires
            self.bounded(),
        ensures
            r == magnitude(self.x_axis.to.x - self.x_axis.from.x),
    {
        let d: i64 = self.x_axis.to.x - self.x_axis.from.x;
        if d < 0 {
            -d
        } else {
            d
        }
    }

    /// Length of the y segment along the y axis.
    pub fn length_y_axis(&self) -> (r: i64)
        requires
            self.bounded(),
        ensures
            r == magnitude(self.y_axis.to.y - self.y_axis.from.y),
    {
        let d: i64 = self.y_axis.to.y - self.y_axis.from.y;
        if d < 0 {
            -d
        } else {
            d
        }
    }

    /// The axis that fits the given data ranges: each range is fitted with a
    /// nice range of its own, and the two segments start in the corner of the
    /// two minima.
    #[must_use]
    pub fn fitting(x_range: Range<i64>, y_range: Range<i64>, padding_pct: i64, ticks: usize) -> (r:
        Self)
        requires
            in_fit_domain(x_range.start as int),
            in_fit_domain(x_range.end as int),
            in_fit_domain(y_range.start as int),
            in_fit_domain(y_range.end as int),
            0 <= padding_pct <= PADDING_MAX,
        ensures
            r == fitted_axis(
                x_range.start as int,
                x_range.end as int,
                y_range.start as int,
                y_range.end as int,
                padding_pct as int,
                ticks as int,
            ),
            r.bounded(),
            r.x_axis.from == r.y_axis.from,
            r.x_axis.from.x < r.x_axis.to.x,
            r.y_axis.from.y < r.y_axis.to.y,
            r.x_axis.to.y == r.x_axis.from.y,
            r.y_axis.to.x == r.y_axis.from.x,
    {
        let x_lo: i64 = if x_range.start < x_range.end {
            x_range.start
        } else {
            x_range.end
        };
        let x_hi: i64 = if x_range.start < x_range.end {
            x_range.end
        } else {
            x_range.start
        };
        let y_lo: i64 = if y_range.start < y_range.end {
            y_range.start
        } else {
            y_range.end
        };
        let y_hi: i64 = if y_range.start < y_range.end {
            y_range.end
        } else {
            y_range.start
        };
        let (min_x, max_x) = calculate_nice_range(x_lo, x_hi, padding_pct, ticks);
        let (min_y, max_y) = calculate_nice_range(y_lo, y_hi, padding_pct, ticks);
        Axis {
            x_axis: Line::new(Datapoint::new(min_x, min_y), Datapoint::new(max_x, min_y)),
            y_axis: Line::new(Datapoint::new(min_x, min_y), Datapoint::new(min_x, max_y)),
        }
    }

    /// The bounding box of the axis in data coordinates. The order of the
    /// ends of a segment does not matter.
    pub fn data_bounds(&self) -> (r: DataBBox)
        ensures
            r == self.spec_data_bounds(),
            r.ordered(),
            self.bounded() ==> r.within(COORD_MAX as int),
    {
        let x0: i64 = self.x_axis.from.x;
        let x1: i64 = self.x_axis.to.x;
        let y0: i64 = self.y_axis.from.y;
        let y1: i64 = self.y_axis.to.y;
        let min_x: i64 = if x0 < x1 {
            x0
        } else {
            x1
        };
        let max_x: i64 = if x0 < x1 {
            x1
        } else {
            x0
        };
        let min_y: i64 = if y0 < y1 {
            y0
        } else {
            y1
        };
        let max_y: i64 = if y0 < y1 {
            y1
        } else {
            y0
        };
        DataBBox::from_min_max(Datapoint::new(min_x, min_y), Datapoint::new(max_x, max_y))
    }
}

/// Two axes that both meet the contract of fitting for the same ranges, the
/// same padding and the same tick budget are equal, and so are their
/// bounding boxes.
pub proof fn lemma_fitting_repeatable(
    first: Axis,
    second: Axis,
    x_start: int,
    x_end: int,
    y_start: int,
    y_end: int,
    padding_pct: int,
    ticks: int,
)
    requires
        first == fitted_axis(x_start, x_end, y_start, y_end, padding_pct, ticks),
        second == fitted_axis(x_start, x_end, y_start, y_end, padding_pct, ticks),
    ensures
        first == second,
        first.spec_data_bounds() == second.spec_data_bounds(),
{
}

/// Which grid lines are drawn, and how far apart.
#[derive(Clone, Copy, Debug, PartialEq, Eq, Structural)]
pub enum Orientation {
    /// Only vertical grid lines.
    Vertical {
        /// Spacing between neighbouring vertical lines.
        separation: Separation,
    },
    /// Only horizontal grid lines.
    Horizontal {
        /// Spacing between neighbouring horizontal lines.
        separation: Separation,
    },
    /// Vertical and horizontal grid lines.
    Both {
        /// Spacing between neighbouring vertical lines.
        separation_x: Separation,
        /// Spacing between neighbouring horizontal lines.
        separation_y: Separation,
    },
}

impl Default for Orientation {
    fn default() -> (r: Self)
        ensures
            r == (Orientation::Both {
                separation_x: Separation::Auto,
                separation_y: Separation::Auto,
            }),
    {
        Orientation::Both { separation_x: Separation::Auto, separation_y: Separation::Auto }
    }
}

impl Default for Separation {
    fn default() -> (r: Self)
        ensures
            r == Separation::Auto,
    {
        Separation::Auto
    }
}

/// The positions of the grid lines between `min` and `max`: the multiples of
/// the spacing from the first that is not below `min` to the last that is not
/// above `max`.
pub open spec fn grid_positions(min: int, max: int, spacing: int) -> Seq<int> {
    let first = quot_ceil(min, spacing);
    let last = quot_floor(max, spacing);
    Seq::new(
        if last >= first {
            (last - first + 1) as nat
        } else {
            0
        },
        |i: int| (first + i) * spacing,
    )
}

/// Grid lines drawn behind the data.
#[derive(Clone, Copy, Debug, PartialEq, Eq, Structural)]
pub struct GridLines {
    /// The axis whose ranges the grid covers.
    pub axis: Axis,
    /// Which lines are drawn.
    pub orientation: Orientation,
}

impl GridLines {
    /// Grid lines for `axis` in the given `orientation`.
    #[must_use]
    pub fn new(axis: Axis, orientation: Orientation) -> (r: Self)
        ensures
            r.axis == axis,
            r.orientation == orientation,
    {
        GridLines { axis, orientation }
    }

    /// The bounding box of the grid in data coordinates.
    pub fn data_bounds(&self) -> (r: DataBBox)
        ensures
            r == self.axis.spec_data_bounds(),
            r.ordered(),
    {
        self.axis.data_bounds()
    }

    /// The x positions of the vertical grid lines.
    pub fn vertical_positions(&self, separation: Separation, max_ticks: usize) -> (r: Vec<i64>)
        requires
            self.axis.bounded(),
            separation matches Separation::Value(v) ==> v > 0,
        ensures
            r@.map_values(|v: i64| v as int) == grid_positions(
                lesser(self.axis.x_axis.from.x as int, self.axis.x_axis.to.x as int),
                greater(self.axis.x_axis.from.x as int, self.axis.x_axis.to.x as int),
                spacing(
                    magnitude(self.axis.x_axis.to.x - self.axis.x_axis.from.x),
                    separation,
                    max_ticks as int,
                ),
            ),
    {
        let step: i64 = get_spacing(self.axis.length_x_axis(), separation, max_ticks);
        let a: i64 = self.axis.x_axis.from.x;
        let b: i64 = self.axis.x_axis.to.x;
        if a < b {
            positions_between(a, b, step)
        } else {
            positions_between(b, a, step)
        }
    }

    /// The y positions of the horizontal grid lines.
    pub fn horizontal_positions(&self, separation: Separation, max_ticks: usize) -> (r: Vec<i64>)
        requires
            self.axis.bounded(),
            separation matches Separation::Value(v) ==> v > 0,
        ensures
            r@.map_values(|v: i64| v as int) == grid_positions(
                lesser(self.axis.y_axis.from.y as int, self.axis.y_axis.to.y as int),
                greater(self.axis.y_axis.from.y as int, self.axis.y_axis.to.y as int),
                spacing(
                    magnitude(self.axis.y_axis.to.y - self.axis.y_axis.from.y),
                    separation,
                    max_ticks as int,
                ),
            ),
    {
        let step: i64 = get_spacing(self.axis.length_y_axis(), separation, max_ticks);
        let a: i64 = self.axis.y_axis.from.y;
        let b: i64 = self.axis.y_axis.to.y;
        if a < b {
            positions_between(a, b, step)
        } else {
            positions_between(b, a, step)
        }
    }
}

/// The multiples of a positive spacing from `min` to `max`.
pub fn positions_between(min: i64, max: i64, spacing: i64) -> (r: Vec<i64>)
    requires
        in_domain(min as int),
        in_domain(max as int),
        spacing > 0,
    ensures
        r@.map_values(|v: i64| v as int) == grid_positions(min as int, max as int, spacing as int),
{
    let step: i128 = spacing as i128;
    let first: i128 = div_ceil(min as i128, step);
    let last: i128 = div_floor(max as i128, step);
    let ghost want = grid_positions(min as int, max as int, spacing as int);
    let mut out: Vec<i64> = Vec::new();
    let mut k: i128 = first;
    assert(out@.map_values(|v: i64| v as int) =~= want.take(0));
    while k <= last
        invariant
            step == spacing,
            step > 0,
            first <= k <= last + 1 || (last < first && k == first),
            first == quot_ceil(min as int, spacing as int),
            last == quot_floor(max as int, spacing as int),
            last * step <= max,
            first * step >= min,
            in_domain(min as int),
            in_domain(max as int),
            want == grid_positions(min as int, max as int, spacing as int),
            out@.map_values(|v: i64| v as int) == want.take(k - first),
        decreases last - k + 1,
    {
        assert(first * step <= k * step <= last * step) by (nonlinear_arith)
            requires
                first <= k <= last,
                step > 0,
        ;
        let v: i64 = (k * step) as i64;
        let ghost before = out@.map_values(|v: i64| v as int);
        out.push(v);
        assert(out@.map_values(|v: i64| v as int) =~= before.push(v as int));
        assert(want.take(k - first + 1) =~= want.take(k - first).push(want[k - first]));
        k = k + 1;
    }
    assert(want.take(want.len() as int) =~= want);
    out
}

/// Tick marks along the two axes with their labels.
#[derive(Clone, Copy, Debug, PartialEq, Eq, Structural)]
pub struct TickLabels {
    /// The axis that the ticks run along.
    pub axis: Axis,
}

impl TickLabels {
    /// Tick labels for the given `axis`.
    #[must_use]
    pub fn new(axis: Axis) -> (r: Self)
        ensures
            r.axis == axis,
    {
        TickLabels { axis }
    }

    /// The bounding box of the ticks in data coordinates.
    pub fn data_bounds(&self) -> (r: DataBBox)
        ensures
            r == self.axis.spec_data_bounds(),
            r.ordered(),
    {
        self.axis.data_bounds()
    }
}

} // verus!
