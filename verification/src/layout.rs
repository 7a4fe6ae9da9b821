//! Where the parts of a chart go on the screen: tick marks, text anchors,
//! legend rows, arrowheads and markers.
//!
//! Nothing here draws. Every function turns positions and sizes into the
//! coordinates that a drawing layer needs.

use vstd::prelude::*;
use crate::common::{greater, lesser};
use crate::fixed::{
    div_floor, div_round, is_root, isqrt, lemma_floor_bounds, lemma_quotient_size, quot_floor,
    quot_round, root, SCALE,
};
use crate::point::{Screenpoint, Vector2};
use crate::ticks::{tick_views, Tick, TickView};
use crate::view::{ScreenBBox, Viewport};

verus! {

/// Largest length, in raw units, that the layout functions accept.
pub const LENGTH_MAX: i64 = 1_000_000_000_000;

/// Largest magnitude, in raw units, of a screen coordinate that the layout
/// functions accept.
pub const SCREEN_MAX: i64 = 4_000_000_000_000_000;

/// Whether a raw value is a length that the layout functions accept.
pub open spec fn is_length(v: int) -> bool {
    -LENGTH_MAX <= v <= LENGTH_MAX
}

/// Whether both coordinates of a screen point lie on the screen that the
/// layout functions accept.
pub open spec fn on_screen(p: Screenpoint) -> bool {
    &&& -SCREEN_MAX <= p.x <= SCREEN_MAX
    &&& -SCREEN_MAX <= p.y <= SCREEN_MAX
}

/// The whole pixel nearest to a raw value, halves away from zero, held to the
/// range of a pixel coordinate.
pub open spec fn pixel(v: int) -> int {
    let p = quot_round(v, SCALE as int);
    if p < i32::MIN {
        i32::MIN as int
    } else if p > i32::MAX {
        i32::MAX as int
    } else {
        p
    }
}

/// The whole pixel nearest to a raw value.
pub fn to_pixel(v: i64) -> (p: i32)
    ensures
        p == pixel(v as int),
{
    let q: i128 = div_round(v as i128, SCALE as i128);
    if q < i32::MIN as i128 {
        i32::MIN
    } else if q > i32::MAX as i128 {
        i32::MAX
    } else {
        q as i32
    }
}

/// The pixel rectangle of a screen box: the nearest pixel to its top-left
/// corner, and the nearest whole width and height, never negative.
pub fn scissor_rect_from_bbox(b: ScreenBBox) -> (r: (i32, i32, i32, i32))
    requires
        b.within(SCREEN_MAX as int),
    ensures
        r.0 == pixel(b.minimum.x as int),
        r.1 == pixel(b.minimum.y as int),
        r.2 == greater(pixel(b.spec_width()), 0),
        r.3 == greater(pixel(b.spec_height()), 0),
{
    let x: i32 = to_pixel(b.minimum.x);
    let y: i32 = to_pixel(b.minimum.y);
    let w: i32 = to_pixel(b.maximum.x - b.minimum.x);
    let h: i32 = to_pixel(b.maximum.y - b.minimum.y);
    (
        x,
        y,
        if w < 0 {
            0
        } else {
            w
        },
        if h < 0 {
            0
        } else {
            h
        },
    )
}

/// The point halfway between two coordinates, rounded down.
pub open spec fn halfway(a: int, b: int) -> int {
    quot_floor(a + b, 2)
}

/// The point halfway between two coordinates.
pub fn midpoint(a: i64, b: i64) -> (m: i64)
    ensures
        m == halfway(a as int, b as int),
        lesser(a as int, b as int) <= m <= greater(a as int, b as int),
{
    proof {
        lemma_floor_bounds(a + b, 2);
    }
    div_floor(a as i128 + b as i128, 2) as i64
}

/// Where the title of a chart is held: centred over the inner box, halfway
/// between the top of the viewport and the top of the inner box.
pub fn title_origin(viewport: &Viewport) -> (p: Screenpoint)
    requires
        viewport.bounded(),
    ensures
        p.x == halfway(viewport.inner_min_x(), viewport.inner_max_x()),
        p.y == halfway(
            lesser(viewport.y as int, viewport.y + viewport.height),
            viewport.inner_min_y(),
        ),
{
    let inner = viewport.inner_bbox();
    let outer = viewport.outer_bbox();
    Screenpoint::new(
        midpoint(inner.minimum.x, inner.maximum.x),
        midpoint(outer.minimum.y, inner.minimum.y),
    )
}

/// Where the label of the x axis is held: centred under the inner box, at the
/// bottom of the viewport.
pub fn xlabel_origin(viewport: &Viewport) -> (p: Screenpoint)
    requires
        viewport.bounded(),
    ensures
        p.x == halfway(viewport.inner_min_x(), viewport.inner_max_x()),
        p.y == greater(viewport.y as int, viewport.y + viewport.height),
{
    let inner = viewport.inner_bbox();
    let outer = viewport.outer_bbox();
    Screenpoint::new(
        midpoint(inner.minimum.x, inner.maximum.x),
        midpoint(outer.maximum.y, outer.maximum.y),
    )
}

/// Where the label of the y axis is held: at the left edge of the inner box,
/// halfway up.
pub fn ylabel_origin(viewport: &Viewport) -> (p: Screenpoint)
    requires
        viewport.bounded(),
    ensures
        p.x == viewport.inner_min_x(),
        p.y == halfway(viewport.inner_min_y(), viewport.inner_max_y()),
{
    let inner = viewport.inner_bbox();
    Screenpoint::new(
        midpoint(inner.minimum.x, inner.minimum.x),
        midpoint(inner.minimum.y, inner.maximum.y),
    )
}

/// The viewport that data is projected into: the inner box of the chart's
/// viewport, without margins of its own.
pub fn plot_viewport(screen: &Viewport) -> (r: Viewport)
    requires
        screen.bounded(),
    ensures
        r.x == screen.inner_min_x(),
        r.y == screen.inner_min_y(),
        r.width == screen.inner_max_x() - screen.inner_min_x(),
        r.height == screen.inner_max_y() - screen.inner_min_y(),
        r.margins == (crate::view::Margins { left: 0, right: 0, top: 0, bottom: 0 }),
{
    let inner = screen.inner_bbox();
    Viewport::new(inner.minimum.x, inner.minimum.y, inner.width(), inner.height())
}

/// The test that a tick lies from `low` up to, but not including, `high`.
pub open spec fn in_half_open(low: int, high: int) -> spec_fn(TickView) -> bool {
    |t: TickView| low <= t.value < high
}

/// The ticks that are drawn along an axis from `low` to `high`: those from
/// `low` up to, but not including, `high`.
pub fn visible_ticks(ticks: &Vec<Tick>, low: i64, high: i64) -> (r: Vec<Tick>)
    ensures
        tick_views(r@) == tick_views(ticks@).filter(in_half_open(low as int, high as int)),
{
    let ghost all = tick_views(ticks@);
    let ghost pred = in_half_open(low as int, high as int);
    let mut out: Vec<Tick> = Vec::new();
    let n: usize = ticks.len();
    let mut i: usize = 0;
    assert(all.take(0) =~= Seq::<TickView>::empty());
    assert(tick_views(out@) =~= all.take(0).filter(pred));
    while i < n
        invariant
            i <= n == ticks.len(),
            all == tick_views(ticks@),
            pred == in_half_open(low as int, high as int),
            tick_views(out@) == all.take(i as int).filter(pred),
        decreases n - i,
    {
        let t: &Tick = &ticks[i];
        proof {
            assert(all.take(i + 1) =~= all.take(i as int).push(t@));
            crate::common::lemma_filter_push(all.take(i as int), t@, pred);
        }
        let ghost before = tick_views(out@);
        if low <= t.value && t.value < high {
            out.push(t.clone());
            assert(tick_views(out@) =~= before.push(t@));
        }
        i = i + 1;
    }
    assert(all.take(n as int) =~= all);
    out
}

/// The geometry of one tick mark: the two ends of the mark and the point at
/// which its label is held.
#[derive(Clone, Copy, Debug, PartialEq, Eq, Structural)]
pub struct TickMark {
    /// The end of the mark on the axis.
    pub from: Screenpoint,
    /// The other end of the mark.
    pub to: Screenpoint,
    /// Where the label is held.
    pub label_origin: Screenpoint,
}

/// The mark of a tick on the x axis: it hangs down from the axis point by
/// the length of the mark, and the label is held below it.
pub fn x_tick_mark(at: Screenpoint, mark_len: i64, label_offset: i64) -> (m: TickMark)
    requires
        on_screen(at),
        is_length(mark_len as int),
        is_length(label_offset as int),
    ensures
        m.from == at,
        m.to == (Screenpoint { x: at.x, y: (at.y + mark_len) as i64 }),
        m.label_origin == (Screenpoint { x: at.x, y: (at.y + mark_len + label_offset) as i64 }),
{
    TickMark {
        from: at,
        to: Screenpoint::new(at.x, at.y + mark_len),
        label_origin: Screenpoint::new(at.x, at.y + mark_len + label_offset),
    }
}

/// The mark of a tick on the y axis: it reaches the axis point from the left
/// by the length of the mark, and the label is held to the left of it.
pub fn y_tick_mark(at: Screenpoint, mark_len: i64, label_offset: i64) -> (m: TickMark)
    requires
        on_screen(at),
        is_length(mark_len as int),
        is_length(label_offset as int),
    ensures
        m.from == (Screenpoint { x: (at.x - mark_len) as i64, y: at.y }),
        m.to == at,
        m.label_origin == (Screenpoint { x: (at.x - mark_len - label_offset) as i64, y: at.y }),
{
    TickMark {
        from: Screenpoint::new(at.x - mark_len, at.y),
        to: at,
        label_origin: Screenpoint::new(at.x - mark_len - label_offset, at.y),
    }
}

/// Whether a tick gets its label drawn: labels are shown, the tick is major
/// and its label is not empty.
pub fn tick_is_labelled(tick: &Tick, show_labels: bool) -> (r: bool)
    ensures
        r == (show_labels && tick.major && tick.label@.len() > 0),
{
    show_labels && tick.major && !tick.label.as_str().is_empty()
}

/// Where the legend box is anchored against the inner box.
#[derive(Clone, Copy, Debug, PartialEq, Eq, Structural)]
pub enum LegendPosition {
    /// Upper-right corner of the inner box.
    TopRight,
    /// Upper-left corner.
    TopLeft,
    /// Lower-right corner.
    BottomRight,
    /// Lower-left corner.
    BottomLeft,
    /// The given screen coordinates of the top-left corner of the box.
    Custom(i64, i64),
}

impl Default for LegendPosition {
    fn default() -> (r: Self)
        ensures
            r == LegendPosition::TopRight,
    {
        LegendPosition::TopRight
    }
}

/// The sizes that lay out a legend.
#[derive(Clone, Copy, Debug, PartialEq, Eq, Structural)]
pub struct LegendMetrics {
    /// Padding inside the box.
    pub padding: i64,
    /// Vertical distance between neighbouring rows.
    pub entry_spacing: i64,
    /// Size of the colour swatch.
    pub indicator_size: i64,
    /// Gap between the swatch and the label.
    pub indicator_gap: i64,
    /// Height of a row: the font size of the labels.
    pub row_height: i64,
}

impl LegendMetrics {
    /// Whether all sizes are lengths that the layout functions accept.
    pub open spec fn bounded(&self) -> bool {
        &&& is_length(self.padding as int)
        &&& is_length(self.entry_spacing as int)
        &&& is_length(self.indicator_size as int)
        &&& is_length(self.indicator_gap as int)
        &&& is_length(self.row_height as int)
    }

    /// The width of a legend whose widest label has the given width.
    pub open spec fn width(&self, max_label_width: int) -> int {
        2 * self.padding + self.indicator_size + self.indicator_gap + max_label_width
    }

    /// The height of a legend with `rows` rows.
    pub open spec fn height(&self, rows: int) -> int {
        2 * self.padding + rows * self.row_height + (if rows > 0 {
            rows - 1
        } else {
            0
        }) * self.entry_spacing
    }

    /// The top of row `i` of a legend whose box starts at `top`.
    pub open spec fn row_top(&self, top: int, i: int) -> int {
        top + self.padding + i * (self.row_height + self.entry_spacing)
    }
}

/// Largest number of rows of a legend that the layout functions accept.
pub const ROWS_MAX: usize = 1_000;

/// The largest of the given widths, and zero where there is none or none is
/// positive.
pub open spec fn widest(widths: Seq<i64>) -> int
    decreases widths.len(),
{
    if widths.len() == 0 {
        0
    } else {
        greater(widest(widths.drop_last()), widths.last() as int)
    }
}

/// The width of the widest label.
pub fn max_label_width(widths: &Vec<i64>) -> (w: i64)
    ensures
        w == widest(widths@),
        w >= 0,
        forall|i: int| 0 <= i < widths.len() ==> widths[i] <= w,
{
    let mut w: i64 = 0;
    let n: usize = widths.len();
    let mut i: usize = 0;
    assert(widths@.take(0) =~= Seq::<i64>::empty());
    while i < n
        invariant
            i <= n == widths.len(),
            w == widest(widths@.take(i as int)),
            w >= 0,
            forall|j: int| 0 <= j < i ==> widths[j] <= w,
        decreases n - i,
    {
        assert(widths@.take(i + 1).drop_last() =~= widths@.take(i as int));
        if widths[i] > w {
            w = widths[i];
        }
        i = i + 1;
    }
    assert(widths@.take(n as int) =~= widths@);
    w
}

/// The size of a legend with `rows` rows whose widest label has the width
/// `max_label_width`.
pub fn legend_size(metrics: &LegendMetrics, rows: usize, max_label_width: i64) -> (r: Vector2)
    requires
        metrics.bounded(),
        rows <= ROWS_MAX,
        is_length(max_label_width as int),
    ensures
        r.x == metrics.width(max_label_width as int),
        r.y == metrics.height(rows as int),
{
    let n: i128 = rows as i128;
    let gaps: i128 = if rows > 0 {
        n - 1
    } else {
        0
    };
    assert(-1_000_000 * 1_000_000_000_000 <= n * (metrics.row_height as i128) <= 1_000_000
        * 1_000_000_000_000) by (nonlinear_arith)
        requires
            0 <= n <= 1_000_000,
            -1_000_000_000_000 <= metrics.row_height <= 1_000_000_000_000,
    ;
    assert(-1_000_000 * 1_000_000_000_000 <= gaps * (metrics.entry_spacing as i128) <= 1_000_000
        * 1_000_000_000_000) by (nonlinear_arith)
        requires
            0 <= gaps <= 1_000_000,
            -1_000_000_000_000 <= metrics.entry_spacing <= 1_000_000_000_000,
    ;
    let height: i128 = 2 * (metrics.padding as i128) + n * (metrics.row_height as i128) + gaps * (
    metrics.entry_spacing as i128);
    let width: i64 = 2 * metrics.padding + metrics.indicator_size + metrics.indicator_gap
        + max_label_width;
    Vector2::new(width, height as i64)
}

/// The top-left corner of a legend box of the given size under a position.
pub open spec fn legend_corner(position: LegendPosition, inner: ScreenBBox, size: Vector2) -> Vector2 {
    match position {
        LegendPosition::TopRight => Vector2 {
            x: (inner.maximum.x - size.x) as i64,
            y: inner.minimum.y,
        },
        LegendPosition::TopLeft => Vector2 { x: inner.minimum.x, y: inner.minimum.y },
        LegendPosition::BottomRight => Vector2 {
            x: (inner.maximum.x - size.x) as i64,
            y: (inner.maximum.y - size.y) as i64,
        },
        LegendPosition::BottomLeft => Vector2 {
            x: inner.minimum.x,
            y: (inner.maximum.y - size.y) as i64,
        },
        LegendPosition::Custom(x, y) => Vector2 { x, y },
    }
}

/// The top-left corner of a legend box of the given size under a position,
/// against the inner box of the chart.
pub fn legend_origin(position: LegendPosition, inner: ScreenBBox, size: Vector2) -> (r: Vector2)
    requires
        inner.within(SCREEN_MAX as int),
        -SCREEN_MAX <= size.x <= SCREEN_MAX,
        -SCREEN_MAX <= size.y <= SCREEN_MAX,
    ensures
        r == legend_corner(position, inner, size),
{
    match position {
        LegendPosition::TopRight => Vector2::new(inner.maximum.x - size.x, inner.minimum.y),
        LegendPosition::TopLeft => Vector2::new(inner.minimum.x, inner.minimum.y),
        LegendPosition::BottomRight => Vector2::new(
            inner.maximum.x - size.x,
            inner.maximum.y - size.y,
        ),
        LegendPosition::BottomLeft => Vector2::new(inner.minimum.x, inner.maximum.y - size.y),
        LegendPosition::Custom(x, y) => Vector2::new(x, y),
    }
}

/// The geometry of one row of a legend.
#[derive(Clone, Copy, Debug, PartialEq, Eq, Structural)]
pub struct LegendRow {
    /// Top of the row.
    pub top: i64,
    /// Left edge of the swatch.
    pub swatch_x: i64,
    /// Vertical centre of the swatch.
    pub swatch_cy: i64,
    /// Where the label is held.
    pub text_origin: Screenpoint,
}

/// Row `i` of a legend whose box has its top-left corner at `corner`: the
/// swatch starts one padding in from the corner, is centred on the row, and
/// the label starts two gaps to the right of the swatch's left edge.
pub fn legend_row(metrics: &LegendMetrics, corner: Vector2, i: usize) -> (r: LegendRow)
    requires
        metrics.bounded(),
        i <= ROWS_MAX,
        -2 * SCREEN_MAX <= corner.x <= 2 * SCREEN_MAX,
        -2 * SCREEN_MAX <= corner.y <= 2 * SCREEN_MAX,
    ensures
        -4 * SCREEN_MAX <= r.swatch_x <= 4 * SCREEN_MAX,
        -4 * SCREEN_MAX <= r.swatch_cy <= 4 * SCREEN_MAX,
        r.top == metrics.row_top(corner.y as int, i as int),
        r.swatch_x == corner.x + metrics.padding,
        r.swatch_cy == r.top + quot_floor(metrics.row_height as int, 2),
        r.text_origin == (Screenpoint {
            x: (r.swatch_x + 2 * metrics.indicator_gap) as i64,
            y: r.top,
        }),
{
    let pitch: i128 = metrics.row_height as i128 + metrics.entry_spacing as i128;
    assert(-1_000 * 2_000_000_000_000 <= (i as i128) * pitch <= 1_000 * 2_000_000_000_000)
        by (nonlinear_arith)
        requires
            0 <= i <= 1_000,
            -2_000_000_000_000 <= pitch <= 2_000_000_000_000,
    ;
    let top: i64 = (corner.y as i128 + metrics.padding as i128 + (i as i128) * pitch) as i64;
    let swatch_x: i64 = corner.x + metrics.padding;
    proof {
        lemma_quotient_size(metrics.row_height as int, 2);
    }
    let half: i64 = div_floor(metrics.row_height as i128, 2) as i64;
    LegendRow {
        top,
        swatch_x,
        swatch_cy: top + half,
        text_origin: Screenpoint::new(swatch_x + 2 * metrics.indicator_gap, top),
    }
}

/// The three corners of the triangular swatch of a legend row: the tip above
/// the centre, then the lower left and the lower right corner.
pub fn legend_triangle(row: &LegendRow, indicator_size: i64) -> (r: (
    Screenpoint,
    Screenpoint,
    Screenpoint,
))
    requires
        is_length(indicator_size as int),
        -4 * SCREEN_MAX <= row.swatch_x <= 4 * SCREEN_MAX,
        -4 * SCREEN_MAX <= row.swatch_cy <= 4 * SCREEN_MAX,
    ensures
        ({
            let half = quot_floor(indicator_size as int, 2);
            let cx = row.swatch_x + half;
            &&& r.0 == (Screenpoint { x: cx as i64, y: (row.swatch_cy - half) as i64 })
            &&& r.1 == (Screenpoint { x: (cx - half) as i64, y: (row.swatch_cy + half) as i64 })
            &&& r.2 == (Screenpoint { x: (cx + half) as i64, y: (row.swatch_cy + half) as i64 })
        }),
{
    proof {
        lemma_quotient_size(indicator_size as int, 2);
    }
    let half: i64 = div_floor(indicator_size as i128, 2) as i64;
    let cx: i64 = row.swatch_x + half;
    (
        Screenpoint::new(cx, row.swatch_cy - half),
        Screenpoint::new(cx - half, row.swatch_cy + half),
        Screenpoint::new(cx + half, row.swatch_cy + half),
    )
}

/// The top-left corner of the square swatch of a legend row.
pub fn legend_square(row: &LegendRow, indicator_size: i64) -> (r: Screenpoint)
    requires
        is_length(indicator_size as int),
        -4 * SCREEN_MAX <= row.swatch_x <= 4 * SCREEN_MAX,
        -4 * SCREEN_MAX <= row.swatch_cy <= 4 * SCREEN_MAX,
    ensures
        r == (Screenpoint {
            x: row.swatch_x,
            y: (row.swatch_cy - quot_floor(indicator_size as int, 2)) as i64,
        }),
{
    proof {
        lemma_quotient_size(indicator_size as int, 2);
    }
    let half: i64 = div_floor(indicator_size as i128, 2) as i64;
    Screenpoint::new(row.swatch_x, row.swatch_cy - half)
}

/// The cosine of thirty degrees, in raw units.
pub const COS_30: i64 = 866_025;

/// The product of two fixed-point numbers, rounded down to a raw unit.
pub open spec fn scaled(a: int, b: int) -> int {
    quot_floor(a * b, SCALE as int)
}

/// The product of a fixed-point number and a factor between minus one and
/// one.
pub fn scale_by(a: i64, b: i64) -> (r: i64)
    requires
        -SCREEN_MAX <= a <= SCREEN_MAX,
        -SCALE <= b <= SCALE,
    ensures
        r == scaled(a as int, b as int),
        -crate::fixed::magnitude(a as int) <= r <= crate::fixed::magnitude(a as int),
{
    let ghost m = crate::fixed::magnitude(a as int);
    assert(-m * 1_000_000 <= (a as i128) * (b as i128) <= m * 1_000_000) by (nonlinear_arith)
        requires
            -m <= a <= m,
            -1_000_000 <= b <= 1_000_000,
    ;
    let product: i128 = (a as i128) * (b as i128);
    proof {
        lemma_floor_bounds(product as int, SCALE as int);
    }
    div_floor(product, SCALE as i128) as i64
}

/// The corners of a triangular marker of the given size about a point: one
/// to the upper right and one to the upper left, each at thirty degrees above
/// the horizontal, and one straight below.
pub fn triangle_marker(at: Screenpoint, size: i64) -> (r: (Screenpoint, Screenpoint, Screenpoint))
    requires
        on_screen(at),
        is_length(size as int),
    ensures
        ({
            let dx = scaled(size as int, COS_30 as int);
            let dy = quot_floor(size as int, 2);
            &&& r.0 == (Screenpoint { x: (at.x + dx) as i64, y: (at.y - dy) as i64 })
            &&& r.1 == (Screenpoint { x: (at.x - dx) as i64, y: (at.y - dy) as i64 })
            &&& r.2 == (Screenpoint { x: at.x, y: (at.y + size) as i64 })
        }),
{
    let dx: i64 = scale_by(size, COS_30);
    proof {
        lemma_quotient_size(size as int, 2);
    }
    let dy: i64 = div_floor(size as i128, 2) as i64;
    (
        Screenpoint::new(at.x + dx, at.y - dy),
        Screenpoint::new(at.x - dx, at.y - dy),
        Screenpoint::new(at.x, at.y + size),
    )
}

/// The length of the segment with the given components, rounded down.
pub open spec fn segment_length(dx: int, dy: int) -> int {
    root(dx * dx + dy * dy)
}

/// A component of the unit vector along a segment: the component over the
/// length, as a fixed-point number rounded to the nearest raw unit.
pub open spec fn unit_component(d: int, length: int) -> int {
    quot_round(d * SCALE, length)
}

/// The two rear corners of the arrowhead of a segment that ends at `to` and
/// has the given unit vector: each lies `arrow_length` back along the
/// segment and `arrow_width` to one side of it.
pub open spec fn arrow_corners(
    to: Screenpoint,
    ux: int,
    uy: int,
    arrow_length: int,
    arrow_width: int,
) -> (Screenpoint, Screenpoint) {
    let back_x = to.x - scaled(arrow_length, ux);
    let back_y = to.y - scaled(arrow_length, uy);
    let side_x = scaled(arrow_width, -uy);
    let side_y = scaled(arrow_width, ux);
    (
        Screenpoint { x: (back_x - side_x) as i64, y: (back_y - side_y) as i64 },
        Screenpoint { x: (back_x + side_x) as i64, y: (back_y + side_y) as i64 },
    )
}

/// The arrowhead at the end of the segment from `from` to `to`: its two rear
/// corners and its tip. A segment without length has no arrowhead.
pub fn arrow_head(from: Screenpoint, to: Screenpoint, arrow_length: i64, arrow_width: i64) -> (r:
    Option<(Screenpoint, Screenpoint, Screenpoint)>)
    requires
        on_screen(from),
        on_screen(to),
        is_length(arrow_length as int),
        is_length(arrow_width as int),
    ensures
        r.is_some() <==> segment_length(to.x - from.x, to.y - from.y) > 0,
        r matches Some(corners) ==> {
            let length = segment_length(to.x - from.x, to.y - from.y);
            let ux = unit_component(to.x - from.x, length);
            let uy = unit_component(to.y - from.y, length);
            &&& (corners.0, corners.1) == arrow_corners(
                to,
                ux,
                uy,
                arrow_length as int,
                arrow_width as int,
            )
            &&& corners.2 == to
        },
{
    let dx: i128 = to.x as i128 - from.x as i128;
    let dy: i128 = to.y as i128 - from.y as i128;
    assert(0 <= dx * dx <= 8_000_000_000_000_000 * 8_000_000_000_000_000) by (nonlinear_arith)
        requires
            -8_000_000_000_000_000 <= dx <= 8_000_000_000_000_000,
    ;
    assert(0 <= dy * dy <= 8_000_000_000_000_000 * 8_000_000_000_000_000) by (nonlinear_arith)
        requires
            -8_000_000_000_000_000 <= dy <= 8_000_000_000_000_000,
    ;
    let length: i128 = isqrt(dx * dx + dy * dy);
    if length <= 0 {
        return None;
    }
    proof {
        lemma_component_within(dx as int, dy as int, length as int);
        lemma_component_within(dy as int, dx as int, length as int);
    }
    let ux: i64 = div_round(dx * (SCALE as i128), length) as i64;
    let uy: i64 = div_round(dy * (SCALE as i128), length) as i64;
    let back_x: i64 = to.x - scale_by(arrow_length, ux);
    let back_y: i64 = to.y - scale_by(arrow_length, uy);
    let side_x: i64 = scale_by(arrow_width, -uy);
    let side_y: i64 = scale_by(arrow_width, ux);
    Some(
        (
            Screenpoint::new(back_x - side_x, back_y - side_y),
            Screenpoint::new(back_x + side_x, back_y + side_y),
            to,
        ),
    )
}

/// A component of a segment is no longer than the segment, so the component
/// of its unit vector lies between minus one and one.
proof fn lemma_component_within(d: int, other: int, length: int)
    requires
        length > 0,
        is_root(d * d + other * other, length),
    ensures
        -SCALE <= unit_component(d, length) <= SCALE,
        -length <= d <= length,
{
    assert(other * other >= 0) by (nonlinear_arith);
    if d > length {
        assert(d * d >= (length + 1) * (length + 1)) by (nonlinear_arith)
            requires
                d >= length + 1,
                length > 0,
        ;
    }
    if d < -length {
        assert(d * d >= (length + 1) * (length + 1)) by (nonlinear_arith)
            requires
                d <= -(length + 1),
                length > 0,
        ;
    }
    assert(-(SCALE * length) <= d * SCALE <= SCALE * length) by (nonlinear_arith)
        requires
            -length <= d <= length,
    ;
    crate::fixed::lemma_round_of_multiple(SCALE as int, length);
    crate::fixed::lemma_round_of_multiple(-SCALE as int, length);
    crate::fixed::lemma_round_monotone(d * SCALE, SCALE * length, length);
    crate::fixed::lemma_round_monotone((-SCALE) * length, d * SCALE, length);
    assert((-SCALE) * length == -(SCALE * length)) by (nonlinear_arith);
}

} // verus!
