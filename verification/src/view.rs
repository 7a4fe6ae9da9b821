//! Bounding boxes, viewports and the projection from data to screen.
//!
//! A [`BBox`] is an axis-aligned rectangle over one kind of point. A
//! [`Viewport`] is a rectangle on the screen with margins; its inner box is
//! where data is drawn. A [`ViewTransformer`] maps the data box onto the inner
//! box, turning the y axis over: data y grows upwards, screen y downwards.

use vstd::prelude::*;
use crate::common::{greater, lesser};
use crate::fixed::{
    div_round, in_domain, lemma_round_bounds, lemma_round_monotone, lemma_round_of_multiple,
    quot_round, COORD_MAX,
};
use crate::point::{Datapoint, Planar, Screenpoint};

verus! {

/// An axis-aligned bounding box over points of type `P`.
#[derive(Clone, Copy, Debug)]
pub struct BBox<P> {
    /// Corner with the smaller coordinates.
    pub minimum: P,
    /// Corner with the larger coordinates.
    pub maximum: P,
}

/// Bounding box in screen coordinates.
pub type ScreenBBox = BBox<Screenpoint>;

/// Bounding box in data coordinates.
pub type DataBBox = BBox<Datapoint>;

impl<P: Planar> BBox<P> {
    /// Whether the corners are in order on both axes.
    pub open spec fn ordered(&self) -> bool {
        &&& self.minimum.spec_x() <= self.maximum.spec_x()
        &&& self.minimum.spec_y() <= self.maximum.spec_y()
    }

    /// Whether all four coordinates lie within `limit` of zero.
    pub open spec fn within(&self, limit: int) -> bool {
        &&& -limit <= self.minimum.spec_x() <= limit
        &&& -limit <= self.minimum.spec_y() <= limit
        &&& -limit <= self.maximum.spec_x() <= limit
        &&& -limit <= self.maximum.spec_y() <= limit
    }

    /// The difference of the x coordinates of the corners.
    pub open spec fn spec_width(&self) -> int {
        self.maximum.spec_x() - self.minimum.spec_x()
    }

    /// The difference of the y coordinates of the corners.
    pub open spec fn spec_height(&self) -> int {
        self.maximum.spec_y() - self.minimum.spec_y()
    }

    /// The box spanned by two corners given in any order.
    pub fn new(a: P, b: P) -> (r: Self)
        ensures
            r.ordered(),
            r.minimum.spec_x() == lesser(a.spec_x(), b.spec_x()),
            r.minimum.spec_y() == lesser(a.spec_y(), b.spec_y()),
            r.maximum.spec_x() == greater(a.spec_x(), b.spec_x()),
            r.maximum.spec_y() == greater(a.spec_y(), b.spec_y()),
    {
        let ax: i64 = a.x();
        let ay: i64 = a.y();
        let bx: i64 = b.x();
        let by: i64 = b.y();
        let min_x: i64 = if ax < bx {
            ax
        } else {
            bx
        };
        let min_y: i64 = if ay < by {
            ay
        } else {
            by
        };
        let max_x: i64 = if ax < bx {
            bx
        } else {
            ax
        };
        let max_y: i64 = if ay < by {
            by
        } else {
            ay
        };
        BBox { minimum: P::at(min_x, min_y), maximum: P::at(max_x, max_y) }
    }

    /// The box with the given corners, which must be in order.
    #[must_use]
    pub fn from_min_max(minimum: P, maximum: P) -> (r: Self)
        requires
            minimum.spec_x() <= maximum.spec_x(),
            minimum.spec_y() <= maximum.spec_y(),
        ensures
            r.minimum == minimum,
            r.maximum == maximum,
            r.ordered(),
    {
        BBox { minimum, maximum }
    }

    /// Width of the box, along the x axis.
    pub fn width(&self) -> (w: i64)
        requires
            self.within(4 * COORD_MAX),
        ensures
            w == self.spec_width(),
    {
        self.maximum.x() - self.minimum.x()
    }

    /// Height of the box, along the y axis.
    pub fn height(&self) -> (h: i64)
        requires
            self.within(4 * COORD_MAX),
        ensures
            h == self.spec_height(),
    {
        self.maximum.y() - self.minimum.y()
    }
}

/// Insets that separate the inner box of a [`Viewport`] from its outer box.
#[derive(Clone, Copy, Debug, PartialEq, Eq, Structural)]
pub struct Margins {
    /// Inset from the left edge.
    pub left: i64,
    /// Inset from the right edge.
    pub right: i64,
    /// Inset from the top edge.
    pub top: i64,
    /// Inset from the bottom edge.
    pub bottom: i64,
}

impl Margins {
    /// Margins with the same inset on all four sides.
    pub fn all(v: i64) -> (r: Self)
        ensures
            r == (Margins { left: v, right: v, top: v, bottom: v }),
    {
        Margins { left: v, right: v, top: v, bottom: v }
    }

    /// Whether all four insets lie in the coordinate domain.
    pub open spec fn bounded(&self) -> bool {
        &&& in_domain(self.left as int)
        &&& in_domain(self.right as int)
        &&& in_domain(self.top as int)
        &&& in_domain(self.bottom as int)
    }
}

impl Default for Margins {
    fn default() -> (r: Self)
        ensures
            r == (Margins { left: 0, right: 0, top: 0, bottom: 0 }),
    {
        Margins { left: 0, right: 0, top: 0, bottom: 0 }
    }
}

/// A rectangle on the screen with margins.
#[derive(Clone, Copy, Debug, PartialEq, Eq, Structural)]
pub struct Viewport {
    /// Left edge.
    pub x: i64,
    /// Top edge.
    pub y: i64,
    /// Extent along the x axis.
    pub width: i64,
    /// Extent along the y axis.
    pub height: i64,
    /// Insets of the inner box.
    pub margins: Margins,
}

impl Default for Viewport {
    fn default() -> (r: Self)
        ensures
            r == (Viewport {
                x: 0,
                y: 0,
                width: 800_000_000,
                height: 600_000_000,
                margins: Margins { left: 0, right: 0, top: 0, bottom: 0 },
            }),
    {
        Viewport {
            x: 0,
            y: 0,
            width: 800_000_000,
            height: 600_000_000,
            margins: Margins { left: 0, right: 0, top: 0, bottom: 0 },
        }
    }
}

impl Viewport {
    /// Whether position, extent and margins lie in the coordinate domain.
    pub open spec fn bounded(&self) -> bool {
        &&& in_domain(self.x as int)
        &&& in_domain(self.y as int)
        &&& in_domain(self.width as int)
        &&& in_domain(self.height as int)
        &&& self.margins.bounded()
    }

    /// The left edge of the inner box before the corners are put in order.
    pub open spec fn inner_left(&self) -> int {
        self.x + self.margins.left
    }

    /// The right edge of the inner box before the corners are put in order.
    pub open spec fn inner_right(&self) -> int {
        self.x + self.width - self.margins.right
    }

    /// The top edge of the inner box before the corners are put in order.
    pub open spec fn inner_top(&self) -> int {
        self.y + self.margins.top
    }

    /// The bottom edge of the inner box before the corners are put in order.
    pub open spec fn inner_bottom(&self) -> int {
        self.y + self.height - self.margins.bottom
    }

    /// Smallest x of the inner box.
    pub open spec fn inner_min_x(&self) -> int {
        lesser(self.inner_left(), self.inner_right())
    }

    /// Largest x of the inner box.
    pub open spec fn inner_max_x(&self) -> int {
        greater(self.inner_left(), self.inner_right())
    }

    /// Smallest y of the inner box.
    pub open spec fn inner_min_y(&self) -> int {
        lesser(self.inner_top(), self.inner_bottom())
    }

    /// Largest y of the inner box.
    pub open spec fn inner_max_y(&self) -> int {
        greater(self.inner_top(), self.inner_bottom())
    }

    /// The viewport at `(x, y)` with the given extent and no margins.
    pub fn new(x: i64, y: i64, width: i64, height: i64) -> (r: Self)
        ensures
            r == (Viewport {
                x,
                y,
                width,
                height,
                margins: Margins { left: 0, right: 0, top: 0, bottom: 0 },
            }),
    {
        Viewport { x, y, width, height, margins: Margins { left: 0, right: 0, top: 0, bottom: 0 } }
    }

    /// The same viewport with other margins.
    pub fn with_margins(self, margins: Margins) -> (r: Self)
        ensures
            r == (Viewport { margins, ..self }),
    {
        Viewport { x: self.x, y: self.y, width: self.width, height: self.height, margins }
    }

    /// The outer rectangle: the whole viewport. Its minimum is the top-left
    /// corner on the screen.
    pub fn outer_bbox(&self) -> (r: ScreenBBox)
        requires
            self.bounded(),
        ensures
            r.ordered(),
            r.within(4 * COORD_MAX),
            r.minimum.x == lesser(self.x as int, self.x + self.width),
            r.maximum.x == greater(self.x as int, self.x + self.width),
            r.minimum.y == lesser(self.y as int, self.y + self.height),
            r.maximum.y == greater(self.y as int, self.y + self.height),
    {
        BBox::new(
            Screenpoint::new(self.x, self.y),
            Screenpoint::new(self.x + self.width, self.y + self.height),
        )
    }

    /// The inner rectangle: the viewport less its margins. Its minimum is the
    /// top-left corner on the screen.
    pub fn inner_bbox(&self) -> (r: ScreenBBox)
        requires
            self.bounded(),
        ensures
            r.ordered(),
            r.within(4 * COORD_MAX),
            r.minimum.x == self.inner_min_x(),
            r.maximum.x == self.inner_max_x(),
            r.minimum.y == self.inner_min_y(),
            r.maximum.y == self.inner_max_y(),
    {
        BBox::new(
            Screenpoint::new(self.x + self.margins.left, self.y + self.margins.top),
            Screenpoint::new(
                self.x + self.width - self.margins.right,
                self.y + self.height - self.margins.bottom,
            ),
        )
    }
}

/// The image of `val` under the linear map that takes `in_min` to `out_min`
/// and `in_max` to `out_max`, rounded to the nearest raw unit; `out_min` where
/// the input range has no width.
pub open spec fn mapped(val: int, in_min: int, in_max: int, out_min: int, out_max: int) -> int {
    if in_max == in_min {
        out_min
    } else if in_max > in_min {
        quot_round((val - in_min) * (out_max - out_min), in_max - in_min) + out_min
    } else {
        quot_round((in_min - val) * (out_max - out_min), in_min - in_max) + out_min
    }
}

/// The image of a value differs from its exact affine image by at most half
/// a raw unit.
pub proof fn lemma_mapped_affine(val: int, in_min: int, in_max: int, out_min: int, out_max: int)
    requires
        in_min < in_max,
    ensures
        ({
            let image = mapped(val, in_min, in_max, out_min, out_max);
            let exact_times_span = (val - in_min) * (out_max - out_min);
            -(in_max - in_min) <= 2 * ((image - out_min) * (in_max - in_min)) - 2 * exact_times_span
                <= in_max - in_min
        }),
{
    let span = in_max - in_min;
    let a = (val - in_min) * (out_max - out_min);
    lemma_round_bounds(a, span);
    let q = quot_round(a, span);
    assert(2 * q * span == 2 * (q * span)) by (nonlinear_arith);
}

/// A range of no width maps every value to the start of the output range.
pub proof fn lemma_mapped_degenerate(val: int, bound: int, out_min: int, out_max: int)
    ensures
        mapped(val, bound, bound, out_min, out_max) == out_min,
{
}

/// The ends of a range of some width map to the ends of the output range.
pub proof fn lemma_mapped_ends(in_min: int, in_max: int, out_min: int, out_max: int)
    requires
        in_min != in_max,
    ensures
        mapped(in_min, in_min, in_max, out_min, out_max) == out_min,
        mapped(in_max, in_min, in_max, out_min, out_max) == out_max,
{
    let reach = out_max - out_min;
    if in_max > in_min {
        let span = in_max - in_min;
        assert((in_min - in_min) * reach == 0 * span) by (nonlinear_arith);
        lemma_round_of_multiple(0, span);
        assert(span * reach == reach * span) by (nonlinear_arith);
        lemma_round_of_multiple(reach, span);
    } else {
        let span = in_min - in_max;
        assert((in_min - in_min) * reach == 0 * span) by (nonlinear_arith);
        lemma_round_of_multiple(0, span);
        assert(span * reach == reach * span) by (nonlinear_arith);
        lemma_round_of_multiple(reach, span);
    }
}

/// Over an ordered input range the map keeps the order of values where the
/// output range ascends and turns it over where the output range descends.
pub proof fn lemma_mapped_monotone(
    v1: int,
    v2: int,
    in_min: int,
    in_max: int,
    out_min: int,
    out_max: int,
)
    requires
        v1 <= v2,
        in_min <= in_max,
    ensures
        out_min <= out_max ==> mapped(v1, in_min, in_max, out_min, out_max) <= mapped(
            v2,
            in_min,
            in_max,
            out_min,
            out_max,
        ),
        out_min >= out_max ==> mapped(v1, in_min, in_max, out_min, out_max) >= mapped(
            v2,
            in_min,
            in_max,
            out_min,
            out_max,
        ),
{
    if in_min < in_max {
        let span = in_max - in_min;
        let reach = out_max - out_min;
        let a1 = (v1 - in_min) * reach;
        let a2 = (v2 - in_min) * reach;
        if reach >= 0 {
            assert(a1 <= a2) by (nonlinear_arith)
                requires
                    a1 == (v1 - in_min) * reach,
                    a2 == (v2 - in_min) * reach,
                    v1 <= v2,
                    reach >= 0,
            ;
            lemma_round_monotone(a1, a2, span);
        }
        if reach <= 0 {
            assert(a2 <= a1) by (nonlinear_arith)
                requires
                    a1 == (v1 - in_min) * reach,
                    a2 == (v2 - in_min) * reach,
                    v1 <= v2,
                    reach <= 0,
            ;
            lemma_round_monotone(a2, a1, span);
        }
    }
}

/// A value within an ordered input range maps into the output range.
pub proof fn lemma_mapped_inside(val: int, in_min: int, in_max: int, out_min: int, out_max: int)
    requires
        in_min <= val <= in_max,
    ensures
        lesser(out_min, out_max) <= mapped(val, in_min, in_max, out_min, out_max) <= greater(
            out_min,
            out_max,
        ),
{
    if in_min < in_max {
        lemma_mapped_ends(in_min, in_max, out_min, out_max);
        lemma_mapped_monotone(in_min, val, in_min, in_max, out_min, out_max);
        lemma_mapped_monotone(val, in_max, in_min, in_max, out_min, out_max);
    }
}

/// Whether a mathematical integer is a raw value that a coordinate can hold.
pub open spec fn representable(v: int) -> bool {
    i64::MIN <= v <= i64::MAX
}

/// Maps `val` linearly from the input range to the output range.
///
/// The result is `None` where the image cannot be held in a coordinate.
pub fn map_val(val: i64, in_min: i64, in_max: i64, out_min: i64, out_max: i64) -> (r: Option<i64>)
    requires
        -4 * COORD_MAX <= val <= 4 * COORD_MAX,
        -4 * COORD_MAX <= in_min <= 4 * COORD_MAX,
        -4 * COORD_MAX <= in_max <= 4 * COORD_MAX,
        -4 * COORD_MAX <= out_min <= 4 * COORD_MAX,
        -4 * COORD_MAX <= out_max <= 4 * COORD_MAX,
    ensures
        r.is_some() <==> representable(
            mapped(val as int, in_min as int, in_max as int, out_min as int, out_max as int),
        ),
        r matches Some(v) ==> v == mapped(
            val as int,
            in_min as int,
            in_max as int,
            out_min as int,
            out_max as int,
        ),
{
    if in_max == in_min {
        return Some(out_min);
    }
    let span: i128 = if in_max > in_min {
        in_max as i128 - in_min as i128
    } else {
        in_min as i128 - in_max as i128
    };
    let offset: i128 = if in_max > in_min {
        val as i128 - in_min as i128
    } else {
        in_min as i128 - val as i128
    };
    let reach: i128 = out_max as i128 - out_min as i128;
    assert(-64_000_000_000_000_000_000_000_000_000_000 <= offset * reach
        <= 64_000_000_000_000_000_000_000_000_000_000) by (nonlinear_arith)
        requires
            -8_000_000_000_000_000 <= offset <= 8_000_000_000_000_000,
            -8_000_000_000_000_000 <= reach <= 8_000_000_000_000_000,
    ;
    let image: i128 = div_round(offset * reach, span) + out_min as i128;
    if image < i64::MIN as i128 || image > i64::MAX as i128 {
        None
    } else {
        Some(image as i64)
    }
}

/// The projection from a data box onto the inner box of a viewport.
#[derive(Clone, Copy, Debug)]
pub struct ViewTransformer {
    /// The bounding box of the data, in data coordinates.
    pub data_bounds: DataBBox,
    /// The viewport that the data is drawn into.
    pub screen_bounds: Viewport,
}

impl ViewTransformer {
    /// Whether the data box and the viewport lie in the coordinate domain.
    pub open spec fn bounded(&self) -> bool {
        &&& self.data_bounds.within(COORD_MAX as int)
        &&& self.screen_bounds.bounded()
    }

    /// The screen x of a data x: the data range mapped onto the inner box
    /// from left to right.
    pub open spec fn screen_x(&self, x: int) -> int {
        mapped(
            x,
            self.data_bounds.minimum.x as int,
            self.data_bounds.maximum.x as int,
            self.screen_bounds.inner_min_x(),
            self.screen_bounds.inner_max_x(),
        )
    }

    /// The screen y of a data y: the data range mapped onto the inner box
    /// from bottom to top.
    pub open spec fn screen_y(&self, y: int) -> int {
        mapped(
            y,
            self.data_bounds.minimum.y as int,
            self.data_bounds.maximum.y as int,
            self.screen_bounds.inner_max_y(),
            self.screen_bounds.inner_min_y(),
        )
    }

    /// The transformer from the given data box onto the given viewport.
    pub fn new(data_bounds: DataBBox, screen_bounds: Viewport) -> (r: Self)
        ensures
            r.data_bounds == data_bounds,
            r.screen_bounds == screen_bounds,
    {
        ViewTransformer { data_bounds, screen_bounds }
    }

    /// The screen point of a data point.
    ///
    /// The result is `None` where the point falls so far off the screen that
    /// a coordinate cannot hold it.
    pub fn to_screen(&self, point: &Datapoint) -> (r: Option<Screenpoint>)
        requires
            self.bounded(),
            in_domain(point.x as int),
            in_domain(point.y as int),
        ensures
            r.is_some() <==> representable(self.screen_x(point.x as int)) && representable(
                self.screen_y(point.y as int),
            ),
            r matches Some(p) ==> p.x == self.screen_x(point.x as int) && p.y == self.screen_y(
                point.y as int,
            ),
    {
        let inner = self.screen_bounds.inner_bbox();
        let x = map_val(
            point.x,
            self.data_bounds.minimum.x,
            self.data_bounds.maximum.x,
            inner.minimum.x,
            inner.maximum.x,
        );
        let y = map_val(
            point.y,
            self.data_bounds.minimum.y,
            self.data_bounds.maximum.y,
            inner.maximum.y,
            inner.minimum.y,
        );
        match (x, y) {
            (Some(sx), Some(sy)) => Some(Screenpoint::new(sx, sy)),
            _ => None,
        }
    }

    /// The projection keeps the order of x and turns the order of y over:
    /// a point further right in the data is not further left on the screen,
    /// and a point further up in the data is not further down on the screen.
    pub proof fn lemma_keeps_x_inverts_y(self, p: Datapoint, q: Datapoint)
        requires
            self.data_bounds.ordered(),
        ensures
            p.x <= q.x ==> self.screen_x(p.x as int) <= self.screen_x(q.x as int),
            p.y <= q.y ==> self.screen_y(p.y as int) >= self.screen_y(q.y as int),
    {
        if p.x <= q.x {
            lemma_mapped_monotone(
                p.x as int,
                q.x as int,
                self.data_bounds.minimum.x as int,
                self.data_bounds.maximum.x as int,
                self.screen_bounds.inner_min_x(),
                self.screen_bounds.inner_max_x(),
            );
        }
        if p.y <= q.y {
            lemma_mapped_monotone(
                p.y as int,
                q.y as int,
                self.data_bounds.minimum.y as int,
                self.data_bounds.maximum.y as int,
                self.screen_bounds.inner_max_y(),
                self.screen_bounds.inner_min_y(),
            );
        }
    }

    /// The corners of a data box of some width and height go to the corners
    /// of the inner box: the lower left to the lower left, the upper right to
    /// the upper right.
    pub proof fn lemma_corners(self)
        requires
            self.data_bounds.minimum.x != self.data_bounds.maximum.x,
            self.data_bounds.minimum.y != self.data_bounds.maximum.y,
        ensures
            self.screen_x(self.data_bounds.minimum.x as int) == self.screen_bounds.inner_min_x(),
            self.screen_x(self.data_bounds.maximum.x as int) == self.screen_bounds.inner_max_x(),
            self.screen_y(self.data_bounds.minimum.y as int) == self.screen_bounds.inner_max_y(),
            self.screen_y(self.data_bounds.maximum.y as int) == self.screen_bounds.inner_min_y(),
    {
        lemma_mapped_ends(
            self.data_bounds.minimum.x as int,
            self.data_bounds.maximum.x as int,
            self.screen_bounds.inner_min_x(),
            self.screen_bounds.inner_max_x(),
        );
        lemma_mapped_ends(
            self.data_bounds.minimum.y as int,
            self.data_bounds.maximum.y as int,
            self.screen_bounds.inner_max_y(),
            self.screen_bounds.inner_min_y(),
        );
    }

    /// A point inside the data box lands inside the inner box, so that a
    /// screen point can hold it.
    pub proof fn lemma_inside_stays_inside(self, p: Datapoint)
        requires
            self.bounded(),
            self.data_bounds.minimum.x <= p.x <= self.data_bounds.maximum.x,
            self.data_bounds.minimum.y <= p.y <= self.data_bounds.maximum.y,
        ensures
            self.screen_bounds.inner_min_x() <= self.screen_x(p.x as int)
                <= self.screen_bounds.inner_max_x(),
            self.screen_bounds.inner_min_y() <= self.screen_y(p.y as int)
                <= self.screen_bounds.inner_max_y(),
            representable(self.screen_x(p.x as int)),
            representable(self.screen_y(p.y as int)),
    {
        lemma_mapped_inside(
            p.x as int,
            self.data_bounds.minimum.x as int,
            self.data_bounds.maximum.x as int,
            self.screen_bounds.inner_min_x(),
            self.screen_bounds.inner_max_x(),
        );
        lemma_mapped_inside(
            p.y as int,
            self.data_bounds.minimum.y as int,
            self.data_bounds.maximum.y as int,
            self.screen_bounds.inner_max_y(),
            self.screen_bounds.inner_min_y(),
        );
    }

    /// Where the data box has no width, every point goes to the left edge of
    /// the inner box; where it has no height, every point goes to the bottom
    /// edge.
    pub proof fn lemma_degenerate_axis(self, p: Datapoint)
        requires
            self.screen_bounds.bounded(),
        ensures
            self.data_bounds.minimum.x == self.data_bounds.maximum.x ==> self.screen_x(p.x as int)
                == self.screen_bounds.inner_min_x() && representable(self.screen_x(p.x as int)),
            self.data_bounds.minimum.y == self.data_bounds.maximum.y ==> self.screen_y(p.y as int)
                == self.screen_bounds.inner_max_y() && representable(self.screen_y(p.y as int)),
    {
    }

    /// Two screen points that both meet the contract of the projection for
    /// the same transformer and the same data point are equal.
    pub proof fn lemma_repeatable(self, p: Datapoint, first: Screenpoint, second: Screenpoint)
        requires
            first.x == self.screen_x(p.x as int),
            first.y == self.screen_y(p.y as int),
            second.x == self.screen_x(p.x as int),
            second.y == self.screen_y(p.y as int),
        ensures
            first == second,
    {
    }
}

} // verus!
