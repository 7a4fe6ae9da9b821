//! K-means clustering of a data set.
//!
//! The centroids start at random places within the ranges of the data. Each
//! step assigns every point to its nearest centroid and then moves every
//! centroid to the mean of its points; the clustering has converged when no
//! centroid moves by as much as the smallest movement that counts.

use rand::Rng;
use std::collections::HashMap;
use vstd::prelude::*;
use crate::common::lemma_filter_push;
use crate::dataset::Dataset;
use crate::fixed::{div_round, in_domain, lemma_round_monotone, lemma_round_of_multiple, quot_round};
use crate::point::Datapoint;
use crate::view::{BBox, DataBBox};

verus! {

/// The number of steps after which fitting gives up.
pub const DEFAULT_MAX_ITER: usize = 1000;

/// The smallest movement of a centroid that counts, in raw units: a
/// ten-thousandth.
pub const DEFAULT_MIN_MOV: i64 = 100;

/// A centroid: its place and the indices of the points assigned to it.
#[derive(Debug)]
pub struct Centroid {
    /// Where the centroid is.
    pub center: Datapoint,
    /// The indices of its points in the data set, ascending.
    pub friends: Vec<usize>,
}

/// A clustering of a data set into `k` clusters.
#[derive(Debug)]
pub struct KMeans<'a> {
    /// The number of clusters.
    pub k: usize,
    /// The centroids, each under the index of its cluster.
    pub centroids: HashMap<usize, Centroid>,
    /// The data set.
    pub data: &'a Dataset,
    /// The number of steps after which fitting gives up.
    pub max_iter: usize,
    /// The number of steps taken.
    pub curr_iter: usize,
    /// The smallest movement of a centroid that counts.
    pub min_mov: i64,
    /// Whether the last step moved no centroid by as much as `min_mov`.
    pub has_converged: bool,
}

/// Calls `random_range` of the `rand` crate on the half-open range from `low`
/// to `high`, with the generator of the current thread that `rand::rng`
/// hands out. The crate documents that the value lies in the given range and
/// that the call panics on an empty range; nothing else is claimed of the
/// value.
#[verifier::external_body]
fn random_between(low: i64, high: i64) -> (r: i64)
    requires
        low < high,
    ensures
        low <= r < high,
{
    rand::rng().random_range(low..high)
}

/// The square of the distance between two points.
pub open spec fn distance_squared(a: Datapoint, b: Datapoint) -> int {
    (a.x - b.x) * (a.x - b.x) + (a.y - b.y) * (a.y - b.y)
}

/// Whether a point lies in the coordinate domain.
pub open spec fn point_in_domain(p: Datapoint) -> bool {
    in_domain(p.x as int) && in_domain(p.y as int)
}

/// Whether the centre with index `c` is the one that a point is assigned to:
/// no centre is nearer, and every nearest centre with another index comes
/// before it.
pub open spec fn is_nearest(centers: Seq<Datapoint>, p: Datapoint, c: int) -> bool {
    &&& 0 <= c < centers.len()
    &&& forall|j: int|
        0 <= j < centers.len() ==> distance_squared(centers[c], p) <= distance_squared(
            #[trigger] centers[j],
            p,
        )
    &&& forall|j: int|
        c < j < centers.len() ==> distance_squared(centers[c], p) < distance_squared(
            #[trigger] centers[j],
            p,
        )
}

/// The test that the point with a given index is assigned to the centre `c`.
pub open spec fn assigned_to(centers: Seq<Datapoint>, points: Seq<Datapoint>, c: int) -> spec_fn(
    usize,
) -> bool {
    |i: usize| i < points.len() && is_nearest(centers, points[i as int], c)
}

/// The indices below `n`, ascending.
pub open spec fn indices(n: nat) -> Seq<usize> {
    Seq::new(n, |i: int| i as usize)
}

/// The indices of the points that are assigned to the centre `c`, ascending.
pub open spec fn friends_of(centers: Seq<Datapoint>, points: Seq<Datapoint>, c: int) -> Seq<usize> {
    indices(points.len()).filter(assigned_to(centers, points, c))
}

/// The sum of the x coordinates of the points with the given indices.
pub open spec fn sum_x(points: Seq<Datapoint>, friends: Seq<usize>) -> int
    decreases friends.len(),
{
    if friends.len() == 0 {
        0
    } else {
        sum_x(points, friends.drop_last()) + points[friends.last() as int].x
    }
}

/// The sum of the y coordinates of the points with the given indices.
pub open spec fn sum_y(points: Seq<Datapoint>, friends: Seq<usize>) -> int
    decreases friends.len(),
{
    if friends.len() == 0 {
        0
    } else {
        sum_y(points, friends.drop_last()) + points[friends.last() as int].y
    }
}

/// The mean of the points with the given indices, of which there is at least
/// one; each coordinate is rounded to the nearest raw unit.
pub open spec fn mean_of(points: Seq<Datapoint>, friends: Seq<usize>) -> Datapoint {
    Datapoint {
        x: quot_round(sum_x(points, friends), friends.len() as int) as i64,
        y: quot_round(sum_y(points, friends), friends.len() as int) as i64,
    }
}

/// Where a centroid goes in an update: to the mean of its points, or nowhere
/// where it has none.
pub open spec fn moved(center: Datapoint, points: Seq<Datapoint>, friends: Seq<usize>) -> Datapoint {
    if friends.len() == 0 {
        center
    } else {
        mean_of(points, friends)
    }
}

/// Whether a centroid with points moves by less than `min_mov` in an update.
pub open spec fn stays_put(
    center: Datapoint,
    points: Seq<Datapoint>,
    friends: Seq<usize>,
    min_mov: int,
) -> bool {
    friends.len() > 0 ==> min_mov > 0 && distance_squared(mean_of(points, friends), center)
        < min_mov * min_mov
}

/// The centres of a sequence of centroids.
pub open spec fn centers_of(centroids: Seq<Centroid>) -> Seq<Datapoint> {
    centroids.map_values(|c: Centroid| c.center)
}

/// Whether the keys of a map of centroids are the indices below `k`.
pub open spec fn keyed(centroids: Map<usize, Centroid>, k: nat) -> bool {
    forall|c: usize| centroids.contains_key(c) <==> c < k
}

/// Whether a map of centroids has no key from `k` on.
pub open spec fn no_key_from(centroids: Map<usize, Centroid>, k: nat) -> bool {
    forall|c: usize| centroids.contains_key(c) ==> c < k
}

/// Whether the key `c` is in both maps or in neither, with the same centroid.
pub open spec fn untouched(
    before: Map<usize, Centroid>,
    after: Map<usize, Centroid>,
    c: usize,
) -> bool {
    (after.contains_key(c) <==> before.contains_key(c)) && after[c] == before[c]
}

/// Whether the centroid with index `c` is there, within the ranges of the
/// data and without points.
pub open spec fn fresh_at(centroids: Map<usize, Centroid>, c: usize, data: &Dataset) -> bool {
    &&& centroids.contains_key(c)
    &&& data.range_min.x <= centroids[c].center.x < data.range_max.x
    &&& data.range_min.y <= centroids[c].center.y < data.range_max.y
    &&& centroids[c].friends@.len() == 0
}

/// The first `k` centroids of a map in the order of their keys.
pub open spec fn listed(centroids: Map<usize, Centroid>, k: nat) -> Seq<Centroid> {
    Seq::new(k, |c: int| centroids[c as usize])
}

/// The indices of the points of the centroid with index `c`.
pub open spec fn friends_at(centroids: Seq<Centroid>, c: int) -> Seq<usize> {
    centroids[c].friends@
}

/// Whether every index of a sequence is below `n`.
pub open spec fn all_below(friends: Seq<usize>, n: nat) -> bool {
    forall|i: int| 0 <= i < friends.len() ==> (#[trigger] friends[i]) < n
}

/// How far a clustering has come: where its centroids are, which points
/// each of them has, how many steps were taken and whether it has converged.
pub struct Progress {
    pub centers: Seq<Datapoint>,
    pub friends: Seq<Seq<usize>>,
    pub steps: nat,
    pub converged: bool,
}

/// Whether no centroid would move by as much as `min_mov` after the points
/// are assigned; never so where there are no points or no centroids.
pub open spec fn settles(centers: Seq<Datapoint>, points: Seq<Datapoint>, min_mov: int) -> bool {
    points.len() > 0 && centers.len() > 0 && forall|c: int|
        0 <= c < centers.len() ==> stays_put(
            #[trigger] centers[c],
            points,
            friends_of(centers, points, c),
            min_mov,
        )
}

/// The clustering after one more step: every point goes to its nearest
/// centroid and every centroid to the mean of its points.
pub open spec fn stepped(before: Progress, points: Seq<Datapoint>, min_mov: int) -> Progress {
    Progress {
        centers: Seq::new(
            before.centers.len(),
            |c: int|
                if points.len() == 0 {
                    before.centers[c]
                } else {
                    moved(before.centers[c], points, friends_of(before.centers, points, c))
                },
        ),
        friends: Seq::new(before.centers.len(), |c: int| friends_of(before.centers, points, c)),
        steps: before.steps + 1,
        converged: settles(before.centers, points, min_mov),
    }
}

/// The clustering after stepping until it has converged or `max_iter` steps
/// were taken.
pub open spec fn fitted(before: Progress, points: Seq<Datapoint>, min_mov: int, max_iter: nat) -> Progress
    decreases max_iter - before.steps,
{
    if before.converged || before.steps >= max_iter {
        before
    } else {
        fitted(stepped(before, points, min_mov), points, min_mov, max_iter)
    }
}

impl<'a> KMeans<'a> {
    /// The centroids in the order of their clusters.
    pub open spec fn list(&self) -> Seq<Centroid> {
        listed(self.centroids@, self.k as nat)
    }

    /// Whether the clustering is sound: there is a centroid for every
    /// cluster and no other, the points and the centres lie in the coordinate
    /// domain, and every centroid's points are points of the data set.
    pub open spec fn wf(&self) -> bool {
        &&& keyed(self.centroids@, self.k as nat)
        &&& forall|i: int|
            0 <= i < self.data.data@.len() ==> point_in_domain(#[trigger] self.data.data@[i])
        &&& forall|c: int|
            0 <= c < self.k ==> point_in_domain((#[trigger] self.list()[c]).center) && all_below(
                self.list()[c].friends@,
                self.data.data@.len(),
            )
    }

    /// How far the clustering has come.
    pub open spec fn progress(&self) -> Progress {
        Progress {
            centers: centers_of(self.list()),
            friends: self.list().map_values(|c: Centroid| c.friends@),
            steps: self.curr_iter as nat,
            converged: self.has_converged,
        }
    }

    /// Whether the centroids can be placed at random: the data are in the
    /// coordinate domain and span some width and some height in it.
    pub open spec fn placeable(data: &Dataset) -> bool {
        &&& forall|i: int| 0 <= i < data.data@.len() ==> point_in_domain(#[trigger] data.data@[i])
        &&& in_domain(data.range_min.x as int)
        &&& in_domain(data.range_max.x as int)
        &&& in_domain(data.range_min.y as int)
        &&& in_domain(data.range_max.y as int)
        &&& data.range_min.x < data.range_max.x
        &&& data.range_min.y < data.range_max.y
    }

    /// Whether the centroids of the `k` clusters are freshly placed: each is
    /// there, within the ranges of the data and without points.
    pub open spec fn freshly_placed(&self) -> bool {
        forall|c: usize| c < self.k ==> #[trigger] fresh_at(self.centroids@, c, self.data)
    }

    /// The clustering of `data` into `k` clusters with centroids at random
    /// places, before any step.
    #[must_use]
    pub fn new(k: usize, data: &'a Dataset) -> (r: Self)
        requires
            Self::placeable(data),
        ensures
            r.k == k,
            r.data == data,
            r.max_iter == DEFAULT_MAX_ITER,
            r.curr_iter == 0,
            r.min_mov == DEFAULT_MIN_MOV,
            !r.has_converged,
            r.freshly_placed(),
            r.wf(),
    {
        let mut me = KMeans {
            k,
            centroids: HashMap::with_capacity(k),
            data,
            max_iter: DEFAULT_MAX_ITER,
            curr_iter: 0,
            min_mov: DEFAULT_MIN_MOV,
            has_converged: false,
        };
        me.initialize();
        me
    }

    /// Places the centroids of the `k` clusters at random within the ranges
    /// of the data. Centroids under other indices stay as they are.
    pub fn initialize(&mut self)
        requires
            Self::placeable(old(self).data),
        ensures
            final(self).k == old(self).k,
            final(self).data == old(self).data,
            final(self).max_iter == old(self).max_iter,
            final(self).curr_iter == old(self).curr_iter,
            final(self).min_mov == old(self).min_mov,
            final(self).has_converged == old(self).has_converged,
            final(self).freshly_placed(),
            forall|c: usize|
                c >= old(self).k ==> #[trigger] untouched(
                    old(self).centroids@,
                    final(self).centroids@,
                    c,
                ),
            no_key_from(old(self).centroids@, old(self).k as nat) ==> final(self).wf(),
    {
        broadcast use vstd::std_specs::hash::group_hash_axioms;

        let k: usize = self.k;
        let data: &Dataset = self.data;
        let ghost before = self.centroids@;
        let mut placed: HashMap<usize, Centroid> = HashMap::new();
        std::mem::swap(&mut placed, &mut self.centroids);
        let mut c: usize = 0;
        while c < k
            invariant
                c <= k,
                Self::placeable(data),
                forall|j: usize| j < c ==> #[trigger] fresh_at(placed@, j, data),
                forall|j: usize| j >= c ==> #[trigger] untouched(before, placed@, j),
            decreases k - c,
        {
            let x: i64 = random_between(data.range_min.x, data.range_max.x);
            let y: i64 = random_between(data.range_min.y, data.range_max.y);
            let ghost old_map = placed@;
            placed.insert(c, Centroid { center: Datapoint::new(x, y), friends: Vec::new() });
            assert(placed@ == old_map.insert(c, placed@[c]));
            assert forall|j: usize| j >= c + 1 implies #[trigger] untouched(before, placed@, j) by {
                assert(untouched(before, old_map, j));
            }
            assert forall|j: usize| j < c + 1 implies #[trigger] fresh_at(placed@, j, data) by {
                if j < c {
                    assert(fresh_at(old_map, j, data));
                }
            }
            c = c + 1;
        }
        self.centroids = placed;
        proof {
            assert forall|j: usize| j < k implies #[trigger] fresh_at(
                self.centroids@,
                j,
                self.data,
            ) by {}
            if no_key_from(before, k as nat) {
                assert forall|j: usize| self.centroids@.contains_key(j) <==> j < k by {
                    if j >= k {
                        assert(untouched(before, self.centroids@, j));
                    } else {
                        assert(fresh_at(self.centroids@, j, self.data));
                    }
                }
                assert forall|j: int| 0 <= j < k implies point_in_domain(
                    (#[trigger] self.list()[j]).center,
                ) && all_below(self.list()[j].friends@, self.data.data@.len()) by {
                    assert(fresh_at(self.centroids@, j as usize, self.data));
                }
            }
        }
    }

    /// Assigns every point to its nearest centroid. Where several centroids
    /// are nearest, the point goes to the one with the largest index.
    pub fn assign(&mut self)
        requires
            old(self).wf(),
            old(self).k > 0 || old(self).data.data@.len() == 0,
        ensures
            final(self).wf(),
            final(self).k == old(self).k,
            final(self).data == old(self).data,
            final(self).max_iter == old(self).max_iter,
            final(self).curr_iter == old(self).curr_iter,
            final(self).min_mov == old(self).min_mov,
            final(self).has_converged == old(self).has_converged,
            centers_of(final(self).list()) == centers_of(old(self).list()),
            forall|c: int|
                0 <= c < final(self).k ==> #[trigger] friends_at(final(self).list(), c)
                    == friends_of(centers_of(old(self).list()), old(self).data.data@, c),
    {
        broadcast use vstd::std_specs::hash::group_hash_axioms;

        let n: usize = self.data.data.len();
        let k: usize = self.k;
        let ghost before = self.list();
        let ghost centers = centers_of(before);
        let ghost points = self.data.data@;
        let mut nearest: Vec<usize> = Vec::new();
        let mut i: usize = 0;
        while i < n
            invariant
                i <= n == self.data.data@.len(),
                k == self.k,
                k > 0 || n == 0,
                self.wf(),
                before == self.list(),
                centers == centers_of(before),
                points == self.data.data@,
                nearest@.len() == i,
                forall|j: int|
                    0 <= j < i ==> is_nearest(centers, points[j], (#[trigger] nearest@[j]) as int),
            decreases n - i,
        {
            let c: usize = nearest_centroid(&self.centroids, k, &self.data.data[i]);
            nearest.push(c);
            i = i + 1;
        }
        let mut fresh: HashMap<usize, Centroid> = HashMap::with_capacity(k);
        let mut c: usize = 0;
        while c < k
            invariant
                c <= k == self.k,
                n == self.data.data@.len(),
                self.wf(),
                before == self.list(),
                centers == centers_of(before),
                points == self.data.data@,
                nearest@.len() == n,
                forall|j: int|
                    0 <= j < n ==> is_nearest(centers, points[j], (#[trigger] nearest@[j]) as int),
                keyed(fresh@, c as nat),
                forall|j: usize|
                    j < c ==> (#[trigger] fresh@[j]).center == centers[j as int] && fresh@[j].friends@
                        == friends_of(centers, points, j as int),
            decreases k - c,
        {
            let ghost pred = assigned_to(centers, points, c as int);
            let mut friends: Vec<usize> = Vec::new();
            let mut i: usize = 0;
            assert(indices(0).filter(pred) =~= Seq::<usize>::empty());
            while i < n
                invariant
                    i <= n == points.len(),
                    c < k == centers.len(),
                    nearest@.len() == n,
                    pred == assigned_to(centers, points, c as int),
                    forall|j: int|
                        0 <= j < n ==> is_nearest(
                            centers,
                            points[j],
                            (#[trigger] nearest@[j]) as int,
                        ),
                    friends@ == indices(i as nat).filter(pred),
                decreases n - i,
            {
                proof {
                    assert(indices((i + 1) as nat) =~= indices(i as nat).push(i));
                    lemma_filter_push(indices(i as nat), i, pred);
                    lemma_nearest_unique(centers, points[i as int], nearest@[i as int] as int, c as int);
                }
                if nearest[i] == c {
                    friends.push(i);
                }
                i = i + 1;
            }
            proof {
                assert forall|j: int| 0 <= j < friends@.len() implies (#[trigger] friends@[j])
                    < n by {
                    indices(n as nat).lemma_filter_pred(pred, j);
                }
            }
            let center: Datapoint = center_at(&self.centroids, c);
            assert(center == before[c as int].center);
            fresh.insert(c, Centroid { center, friends });
            c = c + 1;
        }
        self.centroids = fresh;
        proof {
            let after = self.list();
            assert(centers_of(after) =~= centers);
            assert forall|c: int| 0 <= c < self.k implies point_in_domain(
                (#[trigger] after[c]).center,
            ) && all_below(after[c].friends@, self.data.data@.len()) by {
                assert(after[c] == self.centroids@[c as usize]);
                assert(before[c].center == centers[c]);
                assert forall|j: int| 0 <= j < after[c].friends@.len() implies (
                #[trigger] after[c].friends@[j]) < n by {
                    indices(n as nat).lemma_filter_pred(assigned_to(centers, points, c), j);
                }
            }
        }
    }

    /// Moves every centroid that has points to their mean, and notes whether
    /// none of them moved by as much as `min_mov`. Nothing happens where
    /// there are no points or no centroids.
    pub fn update(&mut self)
        requires
            old(self).wf(),
        ensures
            final(self).wf(),
            final(self).k == old(self).k,
            final(self).data == old(self).data,
            final(self).max_iter == old(self).max_iter,
            final(self).curr_iter == old(self).curr_iter,
            final(self).min_mov == old(self).min_mov,
            forall|c: int|
                0 <= c < old(self).k ==> {
                    let before = #[trigger] old(self).list()[c];
                    let after = final(self).list()[c];
                    &&& after.friends@ == before.friends@
                    &&& after.center == if old(self).data.data@.len() == 0 {
                        before.center
                    } else {
                        moved(before.center, old(self).data.data@, before.friends@)
                    }
                },
            final(self).has_converged == (old(self).has_converged || (old(self).data.data@.len() > 0
                && old(self).k > 0 && forall|c: int|
                0 <= c < old(self).k ==> stays_put(
                    (#[trigger] old(self).list()[c]).center,
                    old(self).data.data@,
                    old(self).list()[c].friends@,
                    old(self).min_mov as int,
                ))),
    {
        broadcast use vstd::std_specs::hash::group_hash_axioms;

        let n: usize = self.data.data.len();
        let k: usize = self.k;
        if n == 0 || self.centroids.is_empty() {
            proof {
                if k > 0 {
                    assert(self.centroids@.contains_key(0));
                    assert(self.centroids@.dom().contains(0));
                }
            }
            return ;
        }
        proof {
            if k == 0 {
                assert(self.centroids@.dom() =~= Set::<usize>::empty());
            }
        }
        let ghost points = self.data.data@;
        let ghost before = self.list();
        let min_mov: i64 = self.min_mov;
        let mut all_put: bool = true;
        let mut fresh: HashMap<usize, Centroid> = HashMap::with_capacity(k);
        let mut rest: HashMap<usize, Centroid> = HashMap::new();
        std::mem::swap(&mut rest, &mut self.centroids);
        let mut c: usize = 0;
        while c < k
            invariant
                c <= k == before.len(),
                k == self.k,
                n == points.len() > 0,
                points == self.data.data@,
                min_mov == self.min_mov,
                self.k == old(self).k,
                self.data == old(self).data,
                self.max_iter == old(self).max_iter,
                self.curr_iter == old(self).curr_iter,
                self.min_mov == old(self).min_mov,
                self.has_converged == old(self).has_converged,
                before == old(self).list(),
                forall|i: int| 0 <= i < points.len() ==> point_in_domain(#[trigger] points[i]),
                forall|j: int|
                    0 <= j < before.len() ==> point_in_domain((#[trigger] before[j]).center)
                        && all_below(before[j].friends@, points.len()),
                forall|j: usize| rest@.contains_key(j) <==> c <= j < k,
                forall|j: usize| c <= j < k ==> #[trigger] rest@[j] == before[j as int],
                keyed(fresh@, c as nat),
                forall|j: usize|
                    j < c ==> {
                        &&& (#[trigger] fresh@[j]).friends@ == before[j as int].friends@
                        &&& fresh@[j].center == moved(
                            before[j as int].center,
                            points,
                            before[j as int].friends@,
                        )
                        &&& point_in_domain(fresh@[j].center)
                    },
                all_put == forall|j: int|
                    0 <= j < c ==> stays_put(
                        (#[trigger] before[j]).center,
                        points,
                        before[j].friends@,
                        min_mov as int,
                    ),
            decreases k - c,
        {
            let centroid = take_centroid(&mut rest, c);
            assert(centroid == before[c as int]);
            let m: usize = centroid.friends.len();
            let mut center: Datapoint = centroid.center;
            let ghost put_before = all_put;
            if m > 0 {
                let mean = mean_point(&self.data.data, &centroid.friends);
                let dx: i128 = mean.x as i128 - center.x as i128;
                let dy: i128 = mean.y as i128 - center.y as i128;
                assert(0 <= dx * dx <= 4_000_000_000_000_000_000_000_000_000_000) by (nonlinear_arith)
                    requires
                        -2_000_000_000_000_000 <= dx <= 2_000_000_000_000_000,
                ;
                assert(0 <= dy * dy <= 4_000_000_000_000_000_000_000_000_000_000) by (nonlinear_arith)
                    requires
                        -2_000_000_000_000_000 <= dy <= 2_000_000_000_000_000,
                ;
                assert(0 <= (min_mov as i128) * (min_mov as i128) <= 0x8000_0000_0000_0000
                    * 0x8000_0000_0000_0000) by (nonlinear_arith)
                    requires
                        -0x8000_0000_0000_0000 <= min_mov <= 0x7fff_ffff_ffff_ffff,
                ;
                let moved_squared: i128 = dx * dx + dy * dy;
                let put: bool = min_mov > 0 && moved_squared < (min_mov as i128) * (min_mov as i128);
                if !put {
                    all_put = false;
                }
                center = mean;
            }
            fresh.insert(c, Centroid { center, friends: centroid.friends });
            c = c + 1;
            proof {
                let here = stays_put(
                    before[c - 1].center,
                    points,
                    before[c - 1].friends@,
                    min_mov as int,
                );
                assert(all_put == (put_before && here));
                if all_put {
                    assert forall|j: int| 0 <= j < c implies stays_put(
                        (#[trigger] before[j]).center,
                        points,
                        before[j].friends@,
                        min_mov as int,
                    ) by {}
                }
            }
        }
        self.centroids = fresh;
        proof {
            let after = self.list();
            assert forall|j: int| 0 <= j < k implies {
                &&& (#[trigger] after[j]).friends@ == before[j].friends@
                &&& after[j].center == moved(before[j].center, points, before[j].friends@)
                &&& point_in_domain(after[j].center)
            } by {
                assert(after[j] == self.centroids@[j as usize]);
            }
        }
        if all_put {
            self.has_converged = true;
        }
    }

    /// One round of assigning and updating, unless the clustering has
    /// converged or the steps have run out.
    pub fn step(&mut self)
        requires
            old(self).wf(),
            old(self).k > 0 || old(self).data.data@.len() == 0,
        ensures
            final(self).wf(),
            final(self).k == old(self).k,
            final(self).data == old(self).data,
            final(self).max_iter == old(self).max_iter,
            final(self).min_mov == old(self).min_mov,
            old(self).has_converged || old(self).curr_iter >= old(self).max_iter ==> {
                &&& final(self).curr_iter == old(self).curr_iter
                &&& final(self).has_converged == old(self).has_converged
                &&& final(self).centroids@ == old(self).centroids@
            },
            !old(self).has_converged && old(self).curr_iter < old(self).max_iter ==> stepped(
                old(self).progress(),
                old(self).data.data@,
                old(self).min_mov as int,
            ) == final(self).progress(),
    {
        if self.has_converged || self.curr_iter >= self.max_iter {
            return ;
        }
        let ghost centers = centers_of(self.list());
        let ghost points = self.data.data@;
        self.assign();
        let ghost assigned = self.list();
        assert forall|c: int| 0 <= c < assigned.len() implies (#[trigger] assigned[c]).center
            == centers[c] && assigned[c].friends@ == friends_of(centers, points, c) by {
            assert(centers_of(assigned)[c] == centers[c]);
            assert(friends_at(assigned, c) == friends_of(centers, points, c));
        }
        self.update();
        self.curr_iter = self.curr_iter + 1;
        proof {
            let done = self.list();
            assert forall|c: int| 0 <= c < done.len() implies {
                let after = #[trigger] done[c];
                &&& after.friends@ == friends_of(centers, points, c)
                &&& after.center == if points.len() == 0 {
                    centers[c]
                } else {
                    moved(centers[c], points, friends_of(centers, points, c))
                }
            } by {
                assert(assigned[c].center == centers[c]);
            }
            let settled = forall|c: int|
                0 <= c < centers.len() ==> stays_put(
                    #[trigger] centers[c],
                    points,
                    friends_of(centers, points, c),
                    self.min_mov as int,
                );
            let put = forall|c: int|
                0 <= c < assigned.len() ==> stays_put(
                    (#[trigger] assigned[c]).center,
                    points,
                    assigned[c].friends@,
                    self.min_mov as int,
                );
            if settled {
                assert forall|c: int| 0 <= c < assigned.len() implies stays_put(
                    (#[trigger] assigned[c]).center,
                    points,
                    assigned[c].friends@,
                    self.min_mov as int,
                ) by {
                    assert(stays_put(
                        centers[c],
                        points,
                        friends_of(centers, points, c),
                        self.min_mov as int,
                    ));
                }
            }
            if put {
                assert forall|c: int| 0 <= c < centers.len() implies stays_put(
                    #[trigger] centers[c],
                    points,
                    friends_of(centers, points, c),
                    self.min_mov as int,
                ) by {
                    assert(stays_put(
                        assigned[c].center,
                        points,
                        assigned[c].friends@,
                        self.min_mov as int,
                    ));
                }
            }
            assert(settled == put);
            let want = stepped(old(self).progress(), points, self.min_mov as int);
            let got = self.progress();
            assert(got.centers =~= want.centers) by {
                assert forall|c: int| 0 <= c < done.len() implies got.centers[c]
                    == want.centers[c] by {
                    assert(done[c].center == got.centers[c]);
                }
            }
            assert(got.friends =~= want.friends) by {
                assert forall|c: int| 0 <= c < done.len() implies got.friends[c]
                    == want.friends[c] by {
                    assert(done[c].friends@ == got.friends[c]);
                }
            }
        }
    }

    /// This clustering as something to draw.
    #[must_use]
    pub fn plot(&'a self) -> (r: KMeansPlot<'a>)
        ensures
            r.kmeans == self,
    {
        KMeansPlot::new(self)
    }

    /// This clustering as something to draw while it can still be stepped.
    pub fn dynamic_plot(&'a mut self) -> (r: DynKMeansPlot<'a>)
        ensures
            mut_ref_current(r.kmeans) == *old(self),
    {
        DynKMeansPlot::new(self)
    }

    /// Steps until the clustering has converged or the steps have run out.
    pub fn fit(&mut self)
        requires
            old(self).wf(),
            old(self).k > 0 || old(self).data.data@.len() == 0,
        ensures
            final(self).wf(),
            final(self).k == old(self).k,
            final(self).data == old(self).data,
            final(self).max_iter == old(self).max_iter,
            final(self).min_mov == old(self).min_mov,
            final(self).has_converged || final(self).curr_iter >= final(self).max_iter,
            old(self).has_converged || old(self).curr_iter >= old(self).max_iter ==> {
                &&& final(self).curr_iter == old(self).curr_iter
                &&& final(self).has_converged == old(self).has_converged
                &&& final(self).centroids@ == old(self).centroids@
            },
            final(self).curr_iter >= old(self).curr_iter,
            final(self).progress() == fitted(
                old(self).progress(),
                old(self).data.data@,
                old(self).min_mov as int,
                old(self).max_iter as nat,
            ),
    {
        while !self.has_converged && self.curr_iter < self.max_iter
            invariant
                fitted(
                    self.progress(),
                    self.data.data@,
                    self.min_mov as int,
                    self.max_iter as nat,
                ) == fitted(
                    old(self).progress(),
                    old(self).data.data@,
                    old(self).min_mov as int,
                    old(self).max_iter as nat,
                ),
                self.wf(),
                self.k > 0 || self.data.data@.len() == 0,
                self.k == old(self).k,
                self.data == old(self).data,
                self.max_iter == old(self).max_iter,
                self.min_mov == old(self).min_mov,
                self.curr_iter >= old(self).curr_iter,
                old(self).has_converged || old(self).curr_iter >= old(self).max_iter ==> {
                    &&& self.curr_iter == old(self).curr_iter
                    &&& self.has_converged == old(self).has_converged
                    &&& self.centroids@ == old(self).centroids@
                },
            decreases self.max_iter - self.curr_iter,
        {
            self.step();
        }
    }
}

/// A clustering as something to draw: its points and centroids, each
/// cluster in its colour.
pub struct KMeansPlot<'a> {
    /// The clustering that is drawn.
    pub kmeans: &'a KMeans<'a>,
}

impl<'a> KMeansPlot<'a> {
    /// The plot of the given clustering.
    #[must_use]
    pub fn new(kmeans: &'a KMeans<'a>) -> (r: Self)
        ensures
            r.kmeans == kmeans,
    {
        KMeansPlot { kmeans }
    }

    /// The bounding box of the plot in data coordinates: the ranges of the
    /// data set as they are recorded.
    pub fn data_bounds(&self) -> (r: DataBBox)
        ensures
            r.minimum == (Datapoint {
                x: self.kmeans.data.range_min.x,
                y: self.kmeans.data.range_min.y,
            }),
            r.maximum == (Datapoint {
                x: self.kmeans.data.range_max.x,
                y: self.kmeans.data.range_max.y,
            }),
    {
        BBox {
            minimum: Datapoint::new(self.kmeans.data.range_min.x, self.kmeans.data.range_min.y),
            maximum: Datapoint::new(self.kmeans.data.range_max.x, self.kmeans.data.range_max.y),
        }
    }
}

/// A clustering as something to draw while it can still be stepped.
pub struct DynKMeansPlot<'a> {
    /// The clustering that is drawn.
    pub kmeans: &'a mut KMeans<'a>,
}

impl<'a> DynKMeansPlot<'a> {
    /// The plot of the given clustering.
    pub fn new(kmeans: &'a mut KMeans<'a>) -> (r: Self)
        ensures
            mut_ref_current(r.kmeans) == *old(kmeans),
    {
        DynKMeansPlot { kmeans }
    }

    /// The bounding box of the plot in data coordinates: the ranges of the
    /// data set as they are recorded.
    pub fn data_bounds(&self) -> (r: DataBBox)
        ensures
            r.minimum == (Datapoint {
                x: mut_ref_current(self.kmeans).data.range_min.x,
                y: mut_ref_current(self.kmeans).data.range_min.y,
            }),
            r.maximum == (Datapoint {
                x: mut_ref_current(self.kmeans).data.range_max.x,
                y: mut_ref_current(self.kmeans).data.range_max.y,
            }),
    {
        BBox {
            minimum: Datapoint::new(self.kmeans.data.range_min.x, self.kmeans.data.range_min.y),
            maximum: Datapoint::new(self.kmeans.data.range_max.x, self.kmeans.data.range_max.y),
        }
    }
}

impl<'a> vstd::std_specs::convert::FromSpecImpl<DynKMeansPlot<'a>> for KMeansPlot<'a> {
    open spec fn obeys_from_spec() -> bool {
        true
    }

    open spec fn from_spec(value: DynKMeansPlot<'a>) -> Self {
        KMeansPlot { kmeans: &mut_ref_current(value.kmeans) }
    }
}

impl<'a> From<DynKMeansPlot<'a>> for KMeansPlot<'a> {
    /// The same plot with the clustering held fast.
    fn from(value: DynKMeansPlot<'a>) -> (r: Self)
        ensures
            *r.kmeans == mut_ref_current(value.kmeans),
    {
        KMeansPlot { kmeans: value.kmeans }
    }
}

impl<'a> vstd::std_specs::convert::FromSpecImpl<&'a DynKMeansPlot<'a>> for KMeansPlot<'a> {
    open spec fn obeys_from_spec() -> bool {
        true
    }

    open spec fn from_spec(value: &'a DynKMeansPlot<'a>) -> Self {
        KMeansPlot { kmeans: &mut_ref_current(value.kmeans) }
    }
}

impl<'a> From<&'a DynKMeansPlot<'a>> for KMeansPlot<'a> {
    /// The same plot, the clustering lent for as long as the plot is held.
    fn from(value: &'a DynKMeansPlot<'a>) -> (r: Self)
        ensures
            *r.kmeans == mut_ref_current(value.kmeans),
    {
        KMeansPlot { kmeans: value.kmeans }
    }
}

/// The place of the centroid with index `c`.
fn center_at(centroids: &HashMap<usize, Centroid>, c: usize) -> (p: Datapoint)
    requires
        centroids@.contains_key(c),
    ensures
        p == centroids@[c].center,
{
    broadcast use vstd::std_specs::hash::group_hash_axioms;

    match centroids.get(&c) {
        Some(centroid) => centroid.center,
        None => {
            assert(false);
            Datapoint::new(0, 0)
        },
    }
}

/// Takes the centroid with index `c` out of a map.
fn take_centroid(centroids: &mut HashMap<usize, Centroid>, c: usize) -> (r: Centroid)
    requires
        old(centroids)@.contains_key(c),
    ensures
        r == old(centroids)@[c],
        final(centroids)@ == old(centroids)@.remove(c),
{
    broadcast use vstd::std_specs::hash::group_hash_axioms;

    match centroids.remove(&c) {
        Some(centroid) => centroid,
        None => {
            assert(false);
            Centroid { center: Datapoint::new(0, 0), friends: Vec::new() }
        },
    }
}

/// At most one centre is the one that a point is assigned to.
pub proof fn lemma_nearest_unique(centers: Seq<Datapoint>, p: Datapoint, a: int, b: int)
    requires
        is_nearest(centers, p, a),
        0 <= b < centers.len(),
    ensures
        is_nearest(centers, p, b) <==> a == b,
{
    if is_nearest(centers, p, b) && a != b {
        if a < b {
            assert(distance_squared(centers[a], p) < distance_squared(centers[b], p));
            assert(distance_squared(centers[b], p) <= distance_squared(centers[a], p));
        } else {
            assert(distance_squared(centers[b], p) < distance_squared(centers[a], p));
            assert(distance_squared(centers[a], p) <= distance_squared(centers[b], p));
        }
    }
}

/// The index of the centroid, among those of the `k` clusters, that a point
/// is assigned to.
pub fn nearest_centroid(centroids: &HashMap<usize, Centroid>, k: usize, p: &Datapoint) -> (r: usize)
    requires
        k > 0,
        keyed(centroids@, k as nat),
        point_in_domain(*p),
        forall|c: int|
            0 <= c < k ==> point_in_domain((#[trigger] listed(centroids@, k as nat)[c]).center),
    ensures
        is_nearest(centers_of(listed(centroids@, k as nat)), *p, r as int),
{
    let ghost list = listed(centroids@, k as nat);
    let ghost centers = centers_of(list);
    let mut best: usize = 0;
    assert(point_in_domain(list[0].center));
    let first: Datapoint = center_at(centroids, 0);
    let mut best_distance: i128 = squared_distance(&first, p);
    let mut c: usize = 1;
    while c < k
        invariant
            1 <= c <= k,
            keyed(centroids@, k as nat),
            list == listed(centroids@, k as nat),
            centers == centers_of(list),
            point_in_domain(*p),
            forall|j: int| 0 <= j < k ==> point_in_domain((#[trigger] list[j]).center),
            best < c,
            best_distance == distance_squared(centers[best as int], *p),
            forall|j: int|
                0 <= j < c ==> best_distance <= distance_squared(#[trigger] centers[j], *p),
            forall|j: int|
                best < j < c ==> best_distance < distance_squared(#[trigger] centers[j], *p),
        decreases k - c,
    {
        assert(point_in_domain(list[c as int].center));
        let center: Datapoint = center_at(centroids, c);
        let d: i128 = squared_distance(&center, p);
        assert(d == distance_squared(centers[c as int], *p));
        if d <= best_distance {
            best = c;
            best_distance = d;
        }
        c = c + 1;
    }
    best
}

/// The square of the distance between two points of the coordinate domain.
pub fn squared_distance(a: &Datapoint, b: &Datapoint) -> (r: i128)
    requires
        point_in_domain(*a),
        point_in_domain(*b),
    ensures
        r == distance_squared(*a, *b),
        0 <= r,
{
    let dx: i128 = a.x as i128 - b.x as i128;
    let dy: i128 = a.y as i128 - b.y as i128;
    assert(0 <= dx * dx <= 4_000_000_000_000_000_000_000_000_000_000) by (nonlinear_arith)
        requires
            -2_000_000_000_000_000 <= dx <= 2_000_000_000_000_000,
    ;
    assert(0 <= dy * dy <= 4_000_000_000_000_000_000_000_000_000_000) by (nonlinear_arith)
        requires
            -2_000_000_000_000_000 <= dy <= 2_000_000_000_000_000,
    ;
    dx * dx + dy * dy
}

/// The sums of coordinates of points of the coordinate domain are bounded by
/// their number.
proof fn lemma_sum_bounds(points: Seq<Datapoint>, friends: Seq<usize>)
    requires
        forall|i: int| 0 <= i < points.len() ==> point_in_domain(#[trigger] points[i]),
        all_below(friends, points.len()),
    ensures
        -friends.len() * 1_000_000_000_000_000 <= sum_x(points, friends) <= friends.len()
            * 1_000_000_000_000_000,
        -friends.len() * 1_000_000_000_000_000 <= sum_y(points, friends) <= friends.len()
            * 1_000_000_000_000_000,
    decreases friends.len(),
{
    if friends.len() > 0 {
        let head = friends.drop_last();
        assert(all_below(head, points.len())) by {
            assert forall|i: int| 0 <= i < head.len() implies (#[trigger] head[i])
                < points.len() by {
                assert(head[i] == friends[i]);
            }
        }
        lemma_sum_bounds(points, head);
        let last = friends[friends.len() - 1];
        assert(point_in_domain(points[last as int]));
        assert((head.len() + 1) * 1_000_000_000_000_000 == head.len() * 1_000_000_000_000_000
            + 1_000_000_000_000_000) by (nonlinear_arith);
    }
}

/// The mean of values of the coordinate domain lies in the coordinate domain.
proof fn lemma_mean_in_domain(sum: int, count: int)
    requires
        count > 0,
        -count * 1_000_000_000_000_000 <= sum <= count * 1_000_000_000_000_000,
    ensures
        in_domain(quot_round(sum, count)),
{
    lemma_round_of_multiple(1_000_000_000_000_000, count);
    lemma_round_of_multiple(-1_000_000_000_000_000, count);
    assert((-1_000_000_000_000_000) * count == -count * 1_000_000_000_000_000) by (nonlinear_arith);
    assert(1_000_000_000_000_000 * count == count * 1_000_000_000_000_000) by (nonlinear_arith);
    lemma_round_monotone(sum, 1_000_000_000_000_000 * count, count);
    lemma_round_monotone((-1_000_000_000_000_000) * count, sum, count);
}

/// The mean of the points with the given indices, of which there is at least
/// one.
pub fn mean_point(points: &Vec<Datapoint>, friends: &Vec<usize>) -> (r: Datapoint)
    requires
        friends@.len() > 0,
        forall|i: int| 0 <= i < points@.len() ==> point_in_domain(#[trigger] points@[i]),
        all_below(friends@, points@.len()),
    ensures
        r == mean_of(points@, friends@),
        point_in_domain(r),
{
    let m: usize = friends.len();
    let mut sx: i128 = 0;
    let mut sy: i128 = 0;
    let mut i: usize = 0;
    assert(friends@.take(0) =~= Seq::<usize>::empty());
    while i < m
        invariant
            i <= m == friends@.len(),
            forall|j: int| 0 <= j < points@.len() ==> point_in_domain(#[trigger] points@[j]),
            all_below(friends@, points@.len()),
            sx == sum_x(points@, friends@.take(i as int)),
            sy == sum_y(points@, friends@.take(i as int)),
            -i * 1_000_000_000_000_000 <= sx <= i * 1_000_000_000_000_000,
            -i * 1_000_000_000_000_000 <= sy <= i * 1_000_000_000_000_000,
        decreases m - i,
    {
        let index: usize = friends[i];
        assert(friends@[i as int] < points@.len());
        let p: Datapoint = points[index];
        assert(point_in_domain(points@[index as int]));
        proof {
            assert(friends@.take(i + 1).drop_last() =~= friends@.take(i as int));
            assert((i + 1) * 1_000_000_000_000_000 == i * 1_000_000_000_000_000
                + 1_000_000_000_000_000) by (nonlinear_arith);
            assert(0 <= i * 1_000_000_000_000_000 <= 0xffff_ffff_ffff_ffff * 1_000_000_000_000_000)
                by (nonlinear_arith)
                requires
                    0 <= i <= 0xffff_ffff_ffff_ffff,
            ;
        }
        sx = sx + p.x as i128;
        sy = sy + p.y as i128;
        i = i + 1;
    }
    proof {
        assert(friends@.take(m as int) =~= friends@);
        lemma_mean_in_domain(sx as int, m as int);
        lemma_mean_in_domain(sy as int, m as int);
        assert(0 <= m * 1_000_000_000_000_000 <= 0xffff_ffff_ffff_ffff * 1_000_000_000_000_000)
            by (nonlinear_arith)
            requires
                0 <= m <= 0xffff_ffff_ffff_ffff,
        ;
    }
    let x: i64 = div_round(sx, m as i128) as i64;
    let y: i64 = div_round(sy, m as i128) as i64;
    Datapoint::new(x, y)
}

} // verus!
