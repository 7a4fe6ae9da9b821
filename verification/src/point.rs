//! Points of the two coordinate systems.
//!
//! A [`Datapoint`] lives in data space, where y grows upwards; a
//! [`Screenpoint`] lives in pixel space, where y grows downwards. They are
//! distinct types so that the two systems cannot be mixed by accident.

use vstd::prelude::*;

verus! {

/// A point of the plane with fixed-point coordinates.
pub trait Planar: Copy {
    /// The x coordinate, as a mathematical integer.
    spec fn spec_x(&self) -> int;

    /// The y coordinate, as a mathematical integer.
    spec fn spec_y(&self) -> int;

    /// The x coordinate.
    fn x(&self) -> (r: i64)
        ensures
            r == self.spec_x(),
    ;

    /// The y coordinate.
    fn y(&self) -> (r: i64)
        ensures
            r == self.spec_y(),
    ;

    /// The point with the given coordinates.
    fn at(x: i64, y: i64) -> (p: Self)
        ensures
            p.spec_x() == x,
            p.spec_y() == y,
    ;
}

/// A point in data coordinates.
#[derive(Clone, Copy, Debug, PartialEq, Eq, Structural)]
pub struct Datapoint {
    /// Horizontal position, in raw units.
    pub x: i64,
    /// Vertical position, in raw units, growing upwards.
    pub y: i64,
}

impl Datapoint {
    /// The data point with the given coordinates.
    #[must_use]
    pub fn new(x: i64, y: i64) -> (p: Self)
        ensures
            p.x == x,
            p.y == y,
    {
        Datapoint { x, y }
    }
}

impl Planar for Datapoint {
    open spec fn spec_x(&self) -> int {
        self.x as int
    }

    open spec fn spec_y(&self) -> int {
        self.y as int
    }

    fn x(&self) -> (r: i64) {
        self.x
    }

    fn y(&self) -> (r: i64) {
        self.y
    }

    fn at(x: i64, y: i64) -> (p: Self)
        ensures
            p == (Datapoint { x, y }),
    {
        Datapoint { x, y }
    }
}

/// A point in screen coordinates.
#[derive(Clone, Copy, Debug, PartialEq, Eq, Structural)]
pub struct Screenpoint {
    /// Horizontal position, in raw pixel units.
    pub x: i64,
    /// Vertical position, in raw pixel units, growing downwards.
    pub y: i64,
}

impl Screenpoint {
    /// The screen point with the given coordinates.
    #[must_use]
    pub fn new(x: i64, y: i64) -> (p: Self)
        ensures
            p.x == x,
            p.y == y,
    {
        Screenpoint { x, y }
    }
}

impl Planar for Screenpoint {
    open spec fn spec_x(&self) -> int {
        self.x as int
    }

    open spec fn spec_y(&self) -> int {
        self.y as int
    }

    fn x(&self) -> (r: i64) {
        self.x
    }

    fn y(&self) -> (r: i64) {
        self.y
    }

    fn at(x: i64, y: i64) -> (p: Self)
        ensures
            p == (Screenpoint { x, y }),
    {
        Screenpoint { x, y }
    }
}

/// A size or an offset in the plane, in raw units.
#[derive(Clone, Copy, Debug, PartialEq, Eq, Structural)]
pub struct Vector2 {
    /// Horizontal component.
    pub x: i64,
    /// Vertical component.
    pub y: i64,
}

impl Vector2 {
    /// The vector with the given components.
    pub fn new(x: i64, y: i64) -> (r: Self)
        ensures
            r.x == x,
            r.y == y,
    {
        Vector2 { x, y }
    }
}

/// Geometric shape used to render a point or a legend swatch.
#[derive(Clone, Copy, Debug, PartialEq, Eq, Structural)]
pub enum Shape {
    /// Filled circle.
    Circle,
    /// Filled triangle.
    Triangle,
    /// Filled axis-aligned rectangle.
    Rectangle,
}

} // verus!
