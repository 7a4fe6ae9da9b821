use locus::colorscheme::{dracula, Color, Themable};
use locus::dataset::Dataset;
use locus::fixed::from_int;
use locus::kmeans::{
    mean_point, nearest_centroid, squared_distance, Centroid, DynKMeansPlot, KMeans, KMeansPlot,
    DEFAULT_MAX_ITER, DEFAULT_MIN_MOV,
};
use locus::point::{Datapoint, Shape, Vector2};
use locus::scatter::{decide, ScatterPlot, ScatterPlotConfig, Strategy, DEFAULT_SIZE};
use std::collections::HashMap;

type SizeFn = fn(&Datapoint, usize) -> i64;
type ColorFn = fn(&Datapoint, usize) -> Color;
type ShapeFn = fn(&Datapoint, usize) -> Shape;
type Config = ScatterPlotConfig<SizeFn, ColorFn, ShapeFn>;

const BLUE: Color = Color { r: 0, g: 121, b: 241, a: 255 };

fn points(raw: &[(i32, i32)]) -> Vec<Datapoint> {
    raw.iter().map(|(x, y)| Datapoint::new(from_int(*x), from_int(*y))).collect()
}

fn two_blobs() -> Dataset {
    Dataset::new(points(&[(0, 0), (1, 0), (0, 1), (1, 1), (10, 10), (11, 10), (10, 11), (11, 11)]))
}

fn centroid(x: i32, y: i32) -> Centroid {
    Centroid { center: Datapoint::new(from_int(x), from_int(y)), friends: Vec::new() }
}

fn keyed(centroids: Vec<Centroid>) -> HashMap<usize, Centroid> {
    centroids.into_iter().enumerate().collect()
}

fn clustering<'a>(data: &'a Dataset, centroids: Vec<Centroid>) -> KMeans<'a> {
    KMeans {
        k: centroids.len(),
        centroids: keyed(centroids),
        data,
        max_iter: DEFAULT_MAX_ITER,
        curr_iter: 0,
        min_mov: DEFAULT_MIN_MOV,
        has_converged: false,
    }
}

#[test]
fn a_data_set_knows_its_extent() {
    let d = Dataset::new(points(&[(1, 2), (3, 4), (5, 1)]));
    assert_eq!(d.range_min, Vector2::new(from_int(1), from_int(1)));
    assert_eq!(d.range_max, Vector2::new(from_int(5), from_int(4)));
    assert_eq!(d.data.len(), 3);
    let one = Dataset::new(points(&[(-7, 9)]));
    assert_eq!((one.range_min, one.range_max), (Vector2::new(from_int(-7), from_int(9)), Vector2::new(from_int(-7), from_int(9))));
    let given = Dataset::with_ranges(points(&[(1, 1)]), Vector2::new(0, 0), Vector2::new(9, 9));
    assert_eq!((given.range_min, given.range_max), (Vector2::new(0, 0), Vector2::new(9, 9)));
}

#[test]
fn a_scatter_plot_spans_the_ranges_of_its_data() {
    let d = Dataset::new(points(&[(1, 2), (3, 4), (5, 1)]));
    let b = ScatterPlot::new(&d).data_bounds();
    assert_eq!(b.minimum, Datapoint::new(from_int(1), from_int(1)));
    assert_eq!(b.maximum, Datapoint::new(from_int(5), from_int(4)));
    assert_eq!(d.scatter_plot().data_bounds().maximum, b.maximum);
}

#[test]
fn marker_attributes_are_fixed_mapped_or_defaulted() {
    let p = Datapoint::new(from_int(3), from_int(-4));
    let open: Config = ScatterPlotConfig::new();
    let c = open.point_config(&p, 2);
    assert_eq!((c.size, c.color, c.shape), (DEFAULT_SIZE, Color::black(), Shape::Circle));
    let fixed: Config = ScatterPlotConfig::new()
        .fixed_size(from_int(4))
        .fixed_color(BLUE)
        .fixed_shape(Shape::Rectangle);
    let c = fixed.point_config(&p, 2);
    assert_eq!((c.size, c.color, c.shape), (from_int(4), BLUE, Shape::Rectangle));
    let by_y: SizeFn = |pt, _| pt.y.abs();
    let by_index: ColorFn = |_, i| Color::new(i as u8, 0, 0, 255);
    let by_side: ShapeFn = |pt, _| if pt.x > 0 { Shape::Triangle } else { Shape::Circle };
    let mapped: Config =
        ScatterPlotConfig::new().mapped_size(by_y).mapped_color(by_index).mapped_shape(by_side);
    let c = mapped.point_config(&p, 2);
    assert_eq!((c.size, c.color, c.shape), (from_int(4), Color::new(2, 0, 0, 255), Shape::Triangle));
    let s: Option<Strategy<i64, SizeFn>> = Some(Strategy::Dynamic(by_y));
    assert_eq!(decide(&s, &p, 0, 7), from_int(4));
    let none: Option<Strategy<i64, SizeFn>> = None;
    assert_eq!(decide(&none, &p, 0, 7), 7);
}

#[test]
fn a_scatter_plot_takes_the_first_accent() {
    let scheme = dracula();
    let p = Datapoint::new(0, 0);
    let mut c: Config = ScatterPlotConfig::new();
    c.apply_theme(&scheme);
    assert_eq!(c.point_config(&p, 0).color, scheme.cycle[0]);
    let mut c: Config = ScatterPlotConfig::new().fixed_color(BLUE);
    c.apply_theme(&scheme);
    assert_eq!(c.point_config(&p, 0).color, BLUE);
    let mut c: Config = ScatterPlotConfig::new();
    c.apply_theme(&locus::colorscheme::Colorscheme::new(BLUE, BLUE, BLUE, BLUE, vec![]));
    assert_eq!(c.point_config(&p, 0).color, Color::black());
}

#[test]
fn distances_are_squared() {
    let a = Datapoint::new(0, 0);
    let b = Datapoint::new(3, -4);
    assert_eq!(squared_distance(&a, &b), 25);
    assert_eq!(squared_distance(&b, &b), 0);
}

#[test]
fn a_point_goes_to_the_last_of_the_nearest_centroids() {
    let centroids = keyed(vec![centroid(0, 0), centroid(10, 0), centroid(0, 0)]);
    assert_eq!(nearest_centroid(&centroids, 3, &Datapoint::new(from_int(9), 0)), 1);
    assert_eq!(nearest_centroid(&centroids, 3, &Datapoint::new(from_int(1), 0)), 2);
    assert_eq!(nearest_centroid(&centroids, 3, &Datapoint::new(from_int(5), 0)), 2);
    assert_eq!(nearest_centroid(&keyed(vec![centroid(3, 3)]), 1, &Datapoint::new(0, 0)), 0);
}

#[test]
fn means_are_rounded_to_the_nearest_raw_unit() {
    let pts = vec![Datapoint::new(0, 0), Datapoint::new(1, 1), Datapoint::new(1, 3), Datapoint::new(9, 9)];
    assert_eq!(mean_point(&pts, &vec![0, 1, 2]), Datapoint::new(1, 1));
    assert_eq!(mean_point(&pts, &vec![3]), Datapoint::new(9, 9));
    assert_eq!(mean_point(&pts, &vec![0, 1]), Datapoint::new(1, 1));
    assert_eq!(mean_point(&pts, &vec![0, 3]), Datapoint::new(5, 5));
}

#[test]
fn assigning_gives_each_centroid_its_points_in_order() {
    let data = two_blobs();
    let mut km = clustering(&data, vec![centroid(2, 2), centroid(9, 9), centroid(100, 100)]);
    km.assign();
    assert_eq!(km.centroids[&0].friends, vec![0, 1, 2, 3]);
    assert_eq!(km.centroids[&1].friends, vec![4, 5, 6, 7]);
    assert!(km.centroids[&2].friends.is_empty());
    assert_eq!(km.centroids[&0].center, Datapoint::new(from_int(2), from_int(2)));
    assert_eq!(km.curr_iter, 0);
}

#[test]
fn updating_moves_centroids_to_the_mean_of_their_points() {
    let data = two_blobs();
    let mut km = clustering(&data, vec![centroid(2, 2), centroid(9, 9), centroid(100, 100)]);
    km.assign();
    km.update();
    assert_eq!(km.centroids[&0].center, Datapoint::new(500_000, 500_000));
    assert_eq!(km.centroids[&1].center, Datapoint::new(10_500_000, 10_500_000));
    assert_eq!(km.centroids[&2].center, Datapoint::new(from_int(100), from_int(100)));
    assert!(!km.has_converged);
    km.assign();
    km.update();
    assert!(km.has_converged);
    assert_eq!(km.centroids[&0].center, Datapoint::new(500_000, 500_000));
}

#[test]
fn updating_without_centroids_changes_nothing() {
    let data = two_blobs();
    let mut km = clustering(&data, Vec::new());
    km.update();
    assert!(!km.has_converged);
    assert!(km.centroids.is_empty());
}

#[test]
fn a_movement_that_does_not_count_needs_a_positive_threshold() {
    let data = two_blobs();
    let mut km = clustering(&data, vec![centroid(2, 2), centroid(9, 9)]);
    km.min_mov = 0;
    km.assign();
    km.update();
    km.assign();
    km.update();
    assert!(!km.has_converged);
}

#[test]
fn a_step_assigns_updates_and_counts() {
    let data = two_blobs();
    let mut km = clustering(&data, vec![centroid(2, 2), centroid(9, 9)]);
    km.step();
    assert_eq!(km.curr_iter, 1);
    assert_eq!(km.centroids[&1].friends, vec![4, 5, 6, 7]);
    assert_eq!(km.centroids[&1].center, Datapoint::new(10_500_000, 10_500_000));
    km.step();
    assert!(km.has_converged);
    assert_eq!(km.curr_iter, 2);
    km.step();
    assert_eq!(km.curr_iter, 2);
}

#[test]
fn a_step_does_nothing_once_the_steps_have_run_out() {
    let data = two_blobs();
    let mut km = clustering(&data, vec![centroid(2, 2), centroid(9, 9)]);
    km.max_iter = 0;
    km.step();
    assert_eq!(km.curr_iter, 0);
    assert!(km.centroids[&0].friends.is_empty());
    km.fit();
    assert_eq!(km.curr_iter, 0);
    assert!(!km.has_converged);
}

#[test]
fn fitting_finds_the_two_blobs() {
    let data = two_blobs();
    let mut km = clustering(&data, vec![centroid(0, 5), centroid(6, 6)]);
    km.fit();
    assert!(km.has_converged);
    assert!(km.curr_iter <= km.max_iter);
    assert_eq!(km.centroids[&0].center, Datapoint::new(500_000, 500_000));
    assert_eq!(km.centroids[&1].center, Datapoint::new(10_500_000, 10_500_000));
    assert_eq!(km.centroids[&0].friends, vec![0, 1, 2, 3]);
}

#[test]
fn new_centroids_are_placed_at_random_within_the_ranges() {
    let data = two_blobs();
    let km = KMeans::new(64, &data);
    assert_eq!((km.k, km.centroids.len()), (64, 64));
    assert_eq!((km.max_iter, km.curr_iter, km.min_mov), (1000, 0, 100));
    assert!(!km.has_converged);
    assert!((0..64).all(|c| km.centroids.contains_key(&c)));
    for c in km.centroids.values() {
        assert!(data.range_min.x <= c.center.x && c.center.x < data.range_max.x);
        assert!(data.range_min.y <= c.center.y && c.center.y < data.range_max.y);
        assert!(c.friends.is_empty());
    }
    // sixty-four draws from eleven million values do not all return a bound
    assert!(km.centroids.values().any(|c| c.center.x != data.range_min.x));
    assert!(km.centroids.values().any(|c| c.center.y != data.range_min.y));
    assert!(km.centroids.values().any(|c| c.center.x != km.centroids[&0].center.x));
}

#[test]
fn placing_leaves_centroids_of_other_indices_alone() {
    let data = two_blobs();
    let mut km = clustering(&data, Vec::new());
    km.centroids.insert(7, centroid(100, 100));
    km.k = 2;
    km.initialize();
    assert_eq!(km.centroids.len(), 3);
    assert_eq!(km.centroids[&7].center, Datapoint::new(from_int(100), from_int(100)));
    assert!(km.centroids.contains_key(&0) && km.centroids.contains_key(&1));
}

#[test]
fn placing_again_replaces_the_centroids() {
    let data = two_blobs();
    let mut km = KMeans::new(3, &data);
    km.step();
    km.has_converged = false;
    km.initialize();
    assert_eq!(km.centroids.len(), 3);
    assert!(km.centroids.values().all(|c| c.friends.is_empty()));
    assert_eq!(km.curr_iter, 1);
    km.fit();
    assert!(km.has_converged || km.curr_iter >= km.max_iter);
    let total: usize = km.centroids.values().map(|c| c.friends.len()).sum();
    assert_eq!(total, 8);
}

#[test]
fn the_plot_of_a_clustering_spans_the_ranges_of_its_data() {
    let data = Dataset::with_ranges(
        points(&[(1, 2), (3, 4)]),
        Vector2::new(from_int(-1), from_int(-2)),
        Vector2::new(from_int(7), from_int(9)),
    );
    let km = clustering(&data, vec![centroid(1, 1), centroid(4, 4)]);
    let plot = km.plot();
    assert_eq!(plot.kmeans.k, 2);
    assert_eq!(plot.kmeans.centroids[&1].center, Datapoint::new(from_int(4), from_int(4)));
    let bounds = plot.data_bounds();
    assert_eq!(bounds.minimum, Datapoint::new(from_int(-1), from_int(-2)));
    assert_eq!(bounds.maximum, Datapoint::new(from_int(7), from_int(9)));
    assert_eq!(KMeansPlot::new(&km).data_bounds().maximum, bounds.maximum);
}

#[test]
fn a_plot_that_can_be_stepped_shows_the_clustering_as_it_stands() {
    let data = two_blobs();
    let mut km = clustering(&data, vec![centroid(0, 0), centroid(11, 11)]);
    let plot = km.dynamic_plot();
    let bounds = plot.data_bounds();
    assert_eq!(bounds.minimum, Datapoint::new(from_int(0), from_int(0)));
    assert_eq!(bounds.maximum, Datapoint::new(from_int(11), from_int(11)));
    plot.kmeans.step();
    assert_eq!(plot.kmeans.curr_iter, 1);
    assert_eq!(plot.kmeans.centroids[&0].friends, vec![0, 1, 2, 3]);
    let held = KMeansPlot::from(plot);
    assert_eq!(held.kmeans.curr_iter, 1);
    assert_eq!(held.kmeans.centroids[&1].friends, vec![4, 5, 6, 7]);
    assert_eq!(held.data_bounds().maximum, Datapoint::new(from_int(11), from_int(11)));
}

#[test]
fn a_plot_that_can_be_stepped_lends_itself_as_a_plain_plot() {
    let data = two_blobs();
    let mut km = clustering(&data, vec![centroid(0, 0), centroid(11, 11)]);
    let stepped = DynKMeansPlot::new(&mut km);
    let bounds = KMeansPlot::from(&stepped).data_bounds();
    assert_eq!(bounds.minimum, Datapoint::new(from_int(0), from_int(0)));
    assert_eq!(bounds.maximum, Datapoint::new(from_int(11), from_int(11)));
}
