use locus::fixed::from_int;
use locus::line::{positions_between, Axis, GridLines, Line, Orientation, Separation, TickLabels};
use locus::point::Datapoint;
use locus::ticks::{Scale, TickSet, TickSpec};
use locus::view::{ViewTransformer, Viewport};

#[test]
fn fitting_builds_two_segments_from_the_corner_of_the_minima() {
    let axis = Axis::fitting(from_int(0)..from_int(10), from_int(0)..from_int(100), 50_000, 10);
    let corner = Datapoint::new(from_int(-1), from_int(-10));
    assert_eq!(axis.x_axis.from, corner);
    assert_eq!(axis.y_axis.from, corner);
    assert_eq!(axis.x_axis.to, Datapoint::new(from_int(11), from_int(-10)));
    assert_eq!(axis.y_axis.to, Datapoint::new(from_int(-1), from_int(110)));
}

#[test]
fn fitting_takes_ranges_in_either_order() {
    let a = Axis::fitting(from_int(10)..from_int(0), from_int(3)..from_int(-3), 50_000, 10);
    let b = Axis::fitting(from_int(0)..from_int(10), from_int(-3)..from_int(3), 50_000, 10);
    assert_eq!(a, b);
}

#[test]
fn fitting_widens_a_single_point() {
    // each point is widened by one, padded by a twentieth and snapped to steps of 0.2
    let axis = Axis::fitting(from_int(5)..from_int(5), from_int(-2)..from_int(-2), 50_000, 10);
    assert_eq!(axis.x_axis.from, Datapoint::new(3_800_000, -3_200_000));
    assert_eq!(axis.y_axis.from, Datapoint::new(3_800_000, -3_200_000));
    assert_eq!(axis.x_axis.to, Datapoint::new(6_200_000, -3_200_000));
    assert_eq!(axis.y_axis.to, Datapoint::new(3_800_000, -800_000));
}

#[test]
fn fitting_with_full_padding_doubles_the_range_on_either_side() {
    let axis = Axis::fitting(from_int(0)..from_int(10), from_int(0)..from_int(10), from_int(1), 10);
    // padded to -10..20, thirty units in ten steps of five (three is rounded to five)
    assert_eq!(axis.x_axis.from.x, from_int(-10));
    assert_eq!(axis.x_axis.to.x, from_int(20));
}

#[test]
fn data_bounds_do_not_depend_on_the_order_of_the_ends() {
    let axis = Axis::new(
        Line::new(Datapoint::new(7, 100), Datapoint::new(-2, 200)),
        Line::new(Datapoint::new(300, 9), Datapoint::new(400, 1)),
    );
    let b = axis.data_bounds();
    assert_eq!(b.minimum, Datapoint::new(-2, 1));
    assert_eq!(b.maximum, Datapoint::new(7, 9));
    assert_eq!(axis.length_x_axis(), 9);
    assert_eq!(axis.length_y_axis(), 8);
    assert_eq!(GridLines::new(axis, Orientation::default()).data_bounds().minimum, b.minimum);
    assert_eq!(TickLabels::new(axis).data_bounds().maximum, b.maximum);
}

#[test]
fn an_axis_from_ranges_spans_them_as_given() {
    let axis = Axis::from_ranges(1..5, 9..2);
    assert_eq!(axis.x_axis, Line::new(Datapoint::new(1, 9), Datapoint::new(5, 9)));
    assert_eq!(axis.y_axis, Line::new(Datapoint::new(1, 9), Datapoint::new(1, 2)));
    let b = axis.data_bounds();
    assert_eq!((b.minimum, b.maximum), (Datapoint::new(1, 2), Datapoint::new(5, 9)));
}

#[test]
fn grid_positions_are_the_multiples_of_the_spacing_in_the_range() {
    assert_eq!(positions_between(-5, 12, 5), vec![-5, 0, 5, 10]);
    assert_eq!(positions_between(1, 4, 5), Vec::<i64>::new());
    assert_eq!(positions_between(-7, -7, 7), vec![-7]);
    assert_eq!(positions_between(3, 11, 4), vec![4, 8]);
}

#[test]
fn grid_lines_follow_the_axis() {
    let axis = Axis::fitting(from_int(0)..from_int(10), from_int(0)..from_int(4), 0, 10);
    let grid = GridLines::new(axis, Orientation::default());
    assert_eq!(
        grid.vertical_positions(Separation::Auto, 10),
        (0..=10).map(from_int).collect::<Vec<i64>>()
    );
    assert_eq!(
        grid.horizontal_positions(Separation::Value(from_int(2)), 10),
        vec![from_int(0), from_int(2), from_int(4)]
    );
}

#[test]
fn the_fitted_axis_feeds_ticks_and_projection() {
    let axis = Axis::fitting(300_000..9_700_000, from_int(-4)..from_int(4), 50_000, 10);
    let bounds = axis.data_bounds();
    assert_eq!((bounds.minimum.x, bounds.maximum.x), (from_int(-1), from_int(11)));
    let spec = TickSpec { scale: Scale::Linear, max_ticks: 13, separation: Separation::Auto };
    let ticks = TickSet::generate_ticks(bounds.minimum.x, bounds.maximum.x, spec);
    assert_eq!(ticks.step, Some(from_int(1)));
    assert_eq!(ticks.ticks.len(), 13);
    let view = ViewTransformer::new(bounds, Viewport::new(0, 0, from_int(120), from_int(100)));
    let p = view.to_screen(&Datapoint::new(ticks.ticks[1].value, bounds.minimum.y)).unwrap();
    assert_eq!((p.x, p.y), (from_int(10), from_int(100)));
}

#[test]
fn fitting_is_repeatable() {
    let a = Axis::fitting(123_456..987_654_321, -5..77, 333_333, 7);
    let b = Axis::fitting(123_456..987_654_321, -5..77, 333_333, 7);
    assert_eq!(a, b);
    assert_eq!(a.data_bounds().minimum, b.data_bounds().minimum);
}
