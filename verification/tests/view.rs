use locus::fixed::from_int;
use locus::point::{Datapoint, Screenpoint};
use locus::view::{map_val, BBox, Margins, ViewTransformer, Viewport};

fn assert_approx(a: i64, b: f64) {
    let got = a as f64 / 1_000_000.0;
    assert!((got - b).abs() < 1e-5, "expected {b}, got {got}");
}

#[test]
fn to_screen_flips_y_cartesian_to_raylib() {
    let data = BBox::new(
        Datapoint::new(from_int(0), from_int(0)),
        Datapoint::new(from_int(10), from_int(10)),
    );
    let viewport = Viewport::new(from_int(0), from_int(0), from_int(100), from_int(100));
    let view = ViewTransformer::new(data, viewport);

    // data bottom-left -> screen bottom-left
    let p = view.to_screen(&Datapoint::new(from_int(0), from_int(0))).unwrap();
    assert_approx(p.x, 0.0);
    assert_approx(p.y, 100.0);

    // data top-left -> screen top-left
    let p = view.to_screen(&Datapoint::new(from_int(0), from_int(10))).unwrap();
    assert_approx(p.x, 0.0);
    assert_approx(p.y, 0.0);

    // data bottom-right -> screen bottom-right
    let p = view.to_screen(&Datapoint::new(from_int(10), from_int(0))).unwrap();
    assert_approx(p.x, 100.0);
    assert_approx(p.y, 100.0);
}

fn unit_square_view() -> ViewTransformer {
    let data = BBox::new(
        Datapoint::new(from_int(0), from_int(0)),
        Datapoint::new(from_int(10), from_int(10)),
    );
    ViewTransformer::new(data, Viewport::new(from_int(0), from_int(0), from_int(100), from_int(100)))
}

#[test]
fn to_screen_maps_the_corners_exactly() {
    let view = unit_square_view();
    let p = view.to_screen(&Datapoint::new(from_int(0), from_int(0))).unwrap();
    assert_eq!((p.x, p.y), (from_int(0), from_int(100)));
    let p = view.to_screen(&Datapoint::new(from_int(0), from_int(10))).unwrap();
    assert_eq!((p.x, p.y), (from_int(0), from_int(0)));
    let p = view.to_screen(&Datapoint::new(from_int(10), from_int(0))).unwrap();
    assert_eq!((p.x, p.y), (from_int(100), from_int(100)));
    let p = view.to_screen(&Datapoint::new(from_int(10), from_int(10))).unwrap();
    assert_eq!((p.x, p.y), (from_int(100), from_int(0)));
}

#[test]
fn to_screen_is_affine_in_x_and_inverting_in_y() {
    let view = unit_square_view();
    let p = view.to_screen(&Datapoint::new(2_500_000, 7_500_000)).unwrap();
    assert_eq!((p.x, p.y), (from_int(25), from_int(25)));
    let p = view.to_screen(&Datapoint::new(from_int(-5), from_int(20))).unwrap();
    assert_eq!((p.x, p.y), (from_int(-50), from_int(-100)));
    let mut last: Option<(i64, i64)> = None;
    for i in -5..=15 {
        let p = view.to_screen(&Datapoint::new(from_int(i), from_int(i))).unwrap();
        if let Some((x, y)) = last {
            assert_eq!(p.x - x, from_int(10));
            assert_eq!(p.y - y, from_int(-10));
        }
        last = Some((p.x, p.y));
    }
}

#[test]
fn to_screen_rounds_to_the_nearest_raw_unit() {
    let data = BBox::new(Datapoint::new(0, 0), Datapoint::new(3, 3));
    let view = ViewTransformer::new(data, Viewport::new(0, 0, 10, 10));
    let p = view.to_screen(&Datapoint::new(1, 1)).unwrap();
    assert_eq!((p.x, p.y), (3, 7));
    let p = view.to_screen(&Datapoint::new(2, 2)).unwrap();
    assert_eq!((p.x, p.y), (7, 3));
}

#[test]
fn to_screen_lands_inside_the_inner_box() {
    let data = BBox::new(
        Datapoint::new(from_int(-3), from_int(2)),
        Datapoint::new(from_int(7), from_int(4)),
    );
    let viewport = Viewport::new(from_int(10), from_int(20), from_int(800), from_int(600))
        .with_margins(Margins {
            left: from_int(60),
            right: from_int(20),
            top: from_int(50),
            bottom: from_int(55),
        });
    let inner = viewport.inner_bbox();
    assert_eq!((inner.minimum.x, inner.minimum.y), (from_int(70), from_int(70)));
    assert_eq!((inner.maximum.x, inner.maximum.y), (from_int(790), from_int(565)));
    let view = ViewTransformer::new(data, viewport);
    for (x, y) in [(-3, 2), (7, 4), (0, 3), (7, 2), (-3, 4)] {
        let p = view.to_screen(&Datapoint::new(from_int(x), from_int(y))).unwrap();
        assert!(inner.minimum.x <= p.x && p.x <= inner.maximum.x);
        assert!(inner.minimum.y <= p.y && p.y <= inner.maximum.y);
    }
    let p = view.to_screen(&Datapoint::new(from_int(-3), from_int(2))).unwrap();
    assert_eq!((p.x, p.y), (from_int(70), from_int(565)));
    let p = view.to_screen(&Datapoint::new(from_int(7), from_int(4))).unwrap();
    assert_eq!((p.x, p.y), (from_int(790), from_int(70)));
}

#[test]
fn a_data_range_of_no_width_maps_to_the_start_of_the_screen_range() {
    let data = BBox::new(
        Datapoint::new(from_int(5), from_int(0)),
        Datapoint::new(from_int(5), from_int(10)),
    );
    let view =
        ViewTransformer::new(data, Viewport::new(from_int(0), from_int(0), from_int(100), from_int(100)));
    for x in [-1_000, 0, 5, 1_000_000] {
        let p = view.to_screen(&Datapoint::new(from_int(x), from_int(5))).unwrap();
        assert_eq!(p.x, from_int(0));
        assert_eq!(p.y, from_int(50));
    }
    let flat = BBox::new(
        Datapoint::new(from_int(0), from_int(5)),
        Datapoint::new(from_int(10), from_int(5)),
    );
    let view =
        ViewTransformer::new(flat, Viewport::new(from_int(0), from_int(0), from_int(100), from_int(100)));
    let p = view.to_screen(&Datapoint::new(from_int(5), from_int(-77))).unwrap();
    assert_eq!((p.x, p.y), (from_int(50), from_int(100)));
}

#[test]
fn a_point_too_far_off_the_screen_has_no_screen_point() {
    let sliver = BBox::new(Datapoint::new(0, 0), Datapoint::new(1, 1));
    let view = ViewTransformer::new(
        sliver,
        Viewport::new(0, 0, 1_000_000_000_000_000, 1_000_000_000_000_000),
    );
    assert!(view.to_screen(&Datapoint::new(1_000_000_000_000_000, 0)).is_none());
    assert!(view.to_screen(&Datapoint::new(0, -1_000_000_000_000_000)).is_none());
    let p = view.to_screen(&Datapoint::new(1, 1)).unwrap();
    assert_eq!((p.x, p.y), (1_000_000_000_000_000, 0));
}

#[test]
fn map_val_maps_linearly() {
    assert_eq!(map_val(5, 0, 10, 0, 100), Some(50));
    assert_eq!(map_val(5, 0, 10, 100, 0), Some(50));
    assert_eq!(map_val(0, 0, 10, 100, 0), Some(100));
    assert_eq!(map_val(-5, 0, 10, 0, 100), Some(-50));
    assert_eq!(map_val(7, 3, 3, 42, 99), Some(42));
    assert_eq!(map_val(2, 10, 0, 0, 100), Some(80));
    assert_eq!(map_val(1, 0, 3, 0, 1), Some(0));
    assert_eq!(map_val(2, 0, 3, 0, 1), Some(1));
}

#[test]
fn bbox_new_orders_its_corners() {
    let b = BBox::new(Datapoint::new(5, -2), Datapoint::new(-1, 7));
    assert_eq!((b.minimum.x, b.minimum.y), (-1, -2));
    assert_eq!((b.maximum.x, b.maximum.y), (5, 7));
    assert_eq!(b.width(), 6);
    assert_eq!(b.height(), 9);
    let s = BBox::new(Screenpoint::new(1, 1), Screenpoint::new(1, 1));
    assert_eq!((s.width(), s.height()), (0, 0));
}

#[test]
fn bbox_from_min_max_keeps_its_corners() {
    let b = BBox::from_min_max(Screenpoint::new(1, 2), Screenpoint::new(3, 4));
    assert_eq!(b.minimum, Screenpoint::new(1, 2));
    assert_eq!(b.maximum, Screenpoint::new(3, 4));
    assert_eq!((b.width(), b.height()), (2, 2));
}

#[test]
fn viewport_boxes_follow_position_extent_and_margins() {
    let v = Viewport::new(from_int(10), from_int(10), from_int(800), from_int(600));
    let outer = v.outer_bbox();
    assert_eq!((outer.minimum.x, outer.minimum.y), (from_int(10), from_int(10)));
    assert_eq!((outer.maximum.x, outer.maximum.y), (from_int(810), from_int(610)));
    let inner = v.inner_bbox();
    assert_eq!(inner.minimum, outer.minimum);
    assert_eq!(inner.maximum, outer.maximum);
    let inner = v.with_margins(Margins::all(from_int(50))).inner_bbox();
    assert_eq!((inner.minimum.x, inner.minimum.y), (from_int(60), from_int(60)));
    assert_eq!((inner.maximum.x, inner.maximum.y), (from_int(760), from_int(560)));
    // margins wider than the viewport turn the corners over; the box puts them in order
    let inner = Viewport::new(0, 0, 10, 10).with_margins(Margins::all(8)).inner_bbox();
    assert_eq!((inner.minimum.x, inner.minimum.y), (2, 2));
    assert_eq!((inner.maximum.x, inner.maximum.y), (8, 8));
}

#[test]
fn viewport_and_margins_have_defaults() {
    let v = Viewport::default();
    assert_eq!((v.x, v.y, v.width, v.height), (0, 0, from_int(800), from_int(600)));
    assert_eq!(v.margins, Margins::default());
    assert_eq!(Margins::default(), Margins::all(0));
}

#[test]
fn projection_is_repeatable() {
    let view = unit_square_view();
    let p = Datapoint::new(1_234_567, 7_654_321);
    assert_eq!(view.to_screen(&p), view.to_screen(&p));
}
