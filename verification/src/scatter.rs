//! Scatter plots: one marker for every point of a data set.

use vstd::prelude::*;
use crate::colorscheme::{Color, Colorscheme, Themable};
use crate::dataset::Dataset;
use crate::point::{Datapoint, Shape};
use crate::style::PointConfig;
use crate::view::{BBox, DataBBox};

verus! {

/// How an attribute of the markers is decided: the same for every point, or
/// from the point and its index.
pub enum Strategy<T, F> {
    /// The same value for every point.
    Fixed(T),
    /// The value that a function gives for the point and its index.
    Dynamic(F),
}

/// The size of a marker where none is configured.
pub const DEFAULT_SIZE: i64 = 5_000_000;

/// How the markers of a scatter plot look. Each attribute is fixed, mapped
/// from the points, or left open.
pub struct ScatterPlotConfig<S, C, H> {
    /// Size of the markers; `None` stands for a size of five.
    pub size: Option<Strategy<i64, S>>,
    /// Colour of the markers; `None` leaves it to the theme.
    pub color: Option<Strategy<Color, C>>,
    /// Shape of the markers; `None` stands for circles.
    pub shape: Option<Strategy<Shape, H>>,
}

/// Whether a strategy may be asked about a point.
pub open spec fn may_ask<T, F: Fn(&Datapoint, usize) -> T>(
    strategy: Option<Strategy<T, F>>,
    p: &Datapoint,
    i: usize,
) -> bool {
    strategy matches Some(Strategy::Dynamic(f)) ==> call_requires(f, (p, i))
}

/// Whether `value` is what a strategy decides for a point: the fixed value, a
/// value that the function may give, or the fallback where nothing is
/// configured.
pub open spec fn decides<T, F: Fn(&Datapoint, usize) -> T>(
    strategy: Option<Strategy<T, F>>,
    p: &Datapoint,
    i: usize,
    fallback: T,
    value: T,
) -> bool {
    match strategy {
        Some(Strategy::Fixed(v)) => value == v,
        Some(Strategy::Dynamic(f)) => call_ensures(f, (p, i), value),
        None => value == fallback,
    }
}

/// What a strategy decides for the point `p` with index `i`.
pub fn decide<T: Copy, F: Fn(&Datapoint, usize) -> T>(
    strategy: &Option<Strategy<T, F>>,
    p: &Datapoint,
    i: usize,
    fallback: T,
) -> (r: T)
    requires
        may_ask(*strategy, p, i),
    ensures
        decides(*strategy, p, i, fallback, r),
{
    match strategy {
        Some(Strategy::Fixed(v)) => *v,
        Some(Strategy::Dynamic(f)) => f(p, i),
        None => fallback,
    }
}

impl<S, C, H> ScatterPlotConfig<S, C, H> where
    S: Fn(&Datapoint, usize) -> i64,
    C: Fn(&Datapoint, usize) -> Color,
    H: Fn(&Datapoint, usize) -> Shape,
 {
    /// The configuration that leaves every attribute open.
    pub fn new() -> (r: Self)
        ensures
            r.size is None,
            r.color is None,
            r.shape is None,
    {
        ScatterPlotConfig { size: None, color: None, shape: None }
    }

    /// The same size for every marker.
    #[must_use]
    pub fn fixed_size(self, size: i64) -> (r: Self)
        ensures
            r.size == Some(Strategy::<i64, S>::Fixed(size)),
            r.color == self.color,
            r.shape == self.shape,
    {
        ScatterPlotConfig { size: Some(Strategy::Fixed(size)), color: self.color, shape: self.shape }
    }

    /// The same colour for every marker.
    #[must_use]
    pub fn fixed_color(self, color: Color) -> (r: Self)
        ensures
            r.color == Some(Strategy::<Color, C>::Fixed(color)),
            r.size == self.size,
            r.shape == self.shape,
    {
        ScatterPlotConfig { size: self.size, color: Some(Strategy::Fixed(color)), shape: self.shape }
    }

    /// The same shape for every marker.
    #[must_use]
    pub fn fixed_shape(self, shape: Shape) -> (r: Self)
        ensures
            r.shape == Some(Strategy::<Shape, H>::Fixed(shape)),
            r.size == self.size,
            r.color == self.color,
    {
        ScatterPlotConfig { size: self.size, color: self.color, shape: Some(Strategy::Fixed(shape)) }
    }

    /// The colour of each marker from its point and index.
    #[must_use]
    pub fn mapped_color(self, color_func: C) -> (r: Self)
        ensures
            r.color == Some(Strategy::<Color, C>::Dynamic(color_func)),
            r.size == self.size,
            r.shape == self.shape,
    {
        ScatterPlotConfig {
            size: self.size,
            color: Some(Strategy::Dynamic(color_func)),
            shape: self.shape,
        }
    }

    /// The shape of each marker from its point and index.
    #[must_use]
    pub fn mapped_shape(self, shape_func: H) -> (r: Self)
        ensures
            r.shape == Some(Strategy::<Shape, H>::Dynamic(shape_func)),
            r.size == self.size,
            r.color == self.color,
    {
        ScatterPlotConfig {
            size: self.size,
            color: self.color,
            shape: Some(Strategy::Dynamic(shape_func)),
        }
    }

    /// The size of each marker from its point and index.
    #[must_use]
    pub fn mapped_size(self, size_func: S) -> (r: Self)
        ensures
            r.size == Some(Strategy::<i64, S>::Dynamic(size_func)),
            r.color == self.color,
            r.shape == self.shape,
    {
        ScatterPlotConfig {
            size: Some(Strategy::Dynamic(size_func)),
            color: self.color,
            shape: self.shape,
        }
    }

    /// How the marker of the point `p` with index `i` looks: what the three
    /// strategies decide, with a size of five, a circle and black where
    /// nothing is configured.
    pub fn point_config(&self, p: &Datapoint, i: usize) -> (r: PointConfig)
        requires
            may_ask(self.size, p, i),
            may_ask(self.color, p, i),
            may_ask(self.shape, p, i),
        ensures
            decides(self.size, p, i, DEFAULT_SIZE, r.size),
            decides(self.color, p, i, Color { r: 0, g: 0, b: 0, a: 255 }, r.color),
            decides(self.shape, p, i, Shape::Circle, r.shape),
    {
        PointConfig {
            size: decide(&self.size, p, i, DEFAULT_SIZE),
            shape: decide(&self.shape, p, i, Shape::Circle),
            color: decide(&self.color, p, i, Color::black()),
        }
    }
}

impl<S, C, H> Themable for ScatterPlotConfig<S, C, H> {
    fn apply_theme(&mut self, scheme: &Colorscheme)
        ensures
            final(self).size == old(self).size,
            final(self).shape == old(self).shape,
            old(self).color is Some ==> final(self).color == old(self).color,
            old(self).color is None ==> final(self).color == Some(
                Strategy::<Color, C>::Fixed(
                    if scheme.cycle@.len() > 0 {
                        scheme.cycle@[0]
                    } else {
                        Color { r: 0, g: 0, b: 0, a: 255 }
                    },
                ),
            ),
    {
        if self.color.is_none() {
            let first: Color = if scheme.cycle.len() > 0 {
                scheme.cycle[0]
            } else {
                Color::black()
            };
            self.color = Some(Strategy::Fixed(first));
        }
    }
}

/// A scatter plot over a data set.
pub struct ScatterPlot<'a> {
    /// The data set that is drawn.
    pub data: &'a Dataset,
}

impl<'a> ScatterPlot<'a> {
    /// The scatter plot over the given data set.
    #[must_use]
    pub fn new(data: &'a Dataset) -> (r: Self)
        ensures
            r.data == data,
    {
        ScatterPlot { data }
    }

    /// The bounding box of the plot in data coordinates: the ranges of the
    /// data set as they are recorded.
    pub fn data_bounds(&self) -> (r: DataBBox)
        ensures
            r.minimum == (Datapoint { x: self.data.range_min.x, y: self.data.range_min.y }),
            r.maximum == (Datapoint { x: self.data.range_max.x, y: self.data.range_max.y }),
    {
        BBox {
            minimum: Datapoint::new(self.data.range_min.x, self.data.range_min.y),
            maximum: Datapoint::new(self.data.range_max.x, self.data.range_max.y),
        }
    }
}

} // verus!
