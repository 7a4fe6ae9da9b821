//! Collections of data points.

use vstd::prelude::*;
use crate::point::{Datapoint, Vector2};
use crate::scatter::ScatterPlot;

verus! {

/// A collection of data points with the box that they span.
#[derive(Debug)]
pub struct Dataset {
    /// The points.
    pub data: Vec<Datapoint>,
    /// The largest x and the largest y.
    pub range_max: Vector2,
    /// The smallest x and the smallest y.
    pub range_min: Vector2,
}

/// Whether `min` and `max` are the extent of some points: no coordinate of a
/// point lies outside them, and each of them is the coordinate of a point.
pub open spec fn is_extent(points: Seq<Datapoint>, min: Vector2, max: Vector2) -> bool {
    &&& forall|i: int|
        0 <= i < points.len() ==> min.x <= (#[trigger] points[i]).x <= max.x && min.y
            <= points[i].y <= max.y
    &&& exists|i: int| 0 <= i < points.len() && (#[trigger] points[i]).x == min.x
    &&& exists|i: int| 0 <= i < points.len() && (#[trigger] points[i]).x == max.x
    &&& exists|i: int| 0 <= i < points.len() && (#[trigger] points[i]).y == min.y
    &&& exists|i: int| 0 <= i < points.len() && (#[trigger] points[i]).y == max.y
}

impl Dataset {
    /// The data set of the given points, of which there is at least one,
    /// with their extent.
    #[must_use]
    pub fn new(data: Vec<Datapoint>) -> (r: Self)
        requires
            data@.len() > 0,
        ensures
            r.data@ == data@,
            is_extent(data@, r.range_min, r.range_max),
    {
        let first: Datapoint = data[0];
        let mut min_x: i64 = first.x;
        let mut max_x: i64 = first.x;
        let mut min_y: i64 = first.y;
        let mut max_y: i64 = first.y;
        let n: usize = data.len();
        let mut i: usize = 1;
        assert(data@.take(1)[0] == first);
        while i < n
            invariant
                1 <= i <= n == data.len(),
                is_extent(
                    data@.take(i as int),
                    Vector2 { x: min_x, y: min_y },
                    Vector2 { x: max_x, y: max_y },
                ),
            decreases n - i,
        {
            let p: Datapoint = data[i];
            let ghost before = data@.take(i as int);
            let ghost after = data@.take(i + 1);
            let ghost old_min = Vector2 { x: min_x, y: min_y };
            let ghost old_max = Vector2 { x: max_x, y: max_y };
            if p.x < min_x {
                min_x = p.x;
            }
            if p.x > max_x {
                max_x = p.x;
            }
            if p.y < min_y {
                min_y = p.y;
            }
            if p.y > max_y {
                max_y = p.y;
            }
            proof {
                assert(after[i as int] == p);
                assert forall|k: int| 0 <= k < after.len() implies min_x <= (#[trigger] after[k]).x
                    <= max_x && min_y <= after[k].y <= max_y by {
                    if k < i {
                        assert(before[k] == after[k]);
                    }
                }
                let ax = choose|k: int| 0 <= k < before.len() && (#[trigger] before[k]).x == old_min.x;
                let bx = choose|k: int| 0 <= k < before.len() && (#[trigger] before[k]).x == old_max.x;
                let ay = choose|k: int| 0 <= k < before.len() && (#[trigger] before[k]).y == old_min.y;
                let by = choose|k: int| 0 <= k < before.len() && (#[trigger] before[k]).y == old_max.y;
                assert(before[ax] == after[ax] && before[bx] == after[bx]);
                assert(before[ay] == after[ay] && before[by] == after[by]);
                let wx = if p.x < old_min.x {
                    i as int
                } else {
                    ax
                };
                assert(after[wx].x == min_x);
                let vx = if p.x > old_max.x {
                    i as int
                } else {
                    bx
                };
                assert(after[vx].x == max_x);
                let wy = if p.y < old_min.y {
                    i as int
                } else {
                    ay
                };
                assert(after[wy].y == min_y);
                let vy = if p.y > old_max.y {
                    i as int
                } else {
                    by
                };
                assert(after[vy].y == max_y);
            }
            i = i + 1;
        }
        assert(data@.take(n as int) =~= data@);
        Dataset {
            data,
            range_max: Vector2::new(max_x, max_y),
            range_min: Vector2::new(min_x, min_y),
        }
    }

    /// The data set of the given points with the ranges as they are given.
    #[must_use]
    pub fn with_ranges(data: Vec<Datapoint>, range_min: Vector2, range_max: Vector2) -> (r: Self)
        ensures
            r.data@ == data@,
            r.range_min == range_min,
            r.range_max == range_max,
    {
        Dataset { data, range_max, range_min }
    }

    /// The scatter plot of this data set.
    #[must_use]
    pub fn scatter_plot(&self) -> (r: ScatterPlot<'_>)
        ensures
            r.data == self,
    {
        ScatterPlot { data: self }
    }
}

} // verus!
