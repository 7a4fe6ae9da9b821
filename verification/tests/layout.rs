use locus::fixed::{from_int, isqrt};
use locus::layout::{
    arrow_head, legend_origin, legend_row, legend_size, legend_square, legend_triangle,
    max_label_width, midpoint, plot_viewport, scale_by, scissor_rect_from_bbox, tick_is_labelled,
    title_origin, to_pixel, triangle_marker, visible_ticks, x_tick_mark, xlabel_origin,
    y_tick_mark, ylabel_origin, LegendMetrics, LegendPosition,
};
use locus::point::{Screenpoint, Vector2};
use locus::ticks::Tick;
use locus::view::{BBox, Margins, Viewport};

fn chart_viewport() -> Viewport {
    Viewport::new(from_int(10), from_int(10), from_int(800), from_int(600)).with_margins(Margins {
        left: from_int(60),
        right: from_int(20),
        top: from_int(50),
        bottom: from_int(55),
    })
}

fn plain_metrics() -> LegendMetrics {
    LegendMetrics {
        padding: from_int(8),
        entry_spacing: from_int(4),
        indicator_size: from_int(8),
        indicator_gap: from_int(6),
        row_height: from_int(14),
    }
}

fn tick(value: i64, label: &str, major: bool) -> Tick {
    Tick { value, label: label.to_string(), major }
}

#[test]
fn integer_square_roots_are_rounded_down() {
    assert_eq!(isqrt(0), 0);
    assert_eq!(isqrt(1), 1);
    assert_eq!(isqrt(3), 1);
    assert_eq!(isqrt(4), 2);
    assert_eq!(isqrt(24), 4);
    assert_eq!(isqrt(25), 5);
    assert_eq!(isqrt(1_000_000_000_000), 1_000_000);
    assert_eq!(isqrt(999_999_999_999), 999_999);
    let big: i128 = 1_000_000_000_000_000_000_000_000_000_000_000;
    let r = isqrt(big);
    assert!(r * r <= big && big < (r + 1) * (r + 1));
}

#[test]
fn pixels_are_the_nearest_whole_numbers() {
    assert_eq!(to_pixel(1_500_000), 2);
    assert_eq!(to_pixel(-1_500_000), -2);
    assert_eq!(to_pixel(1_499_999), 1);
    assert_eq!(to_pixel(400_000), 0);
    assert_eq!(to_pixel(-400_000), 0);
    assert_eq!(to_pixel(from_int(640)), 640);
    assert_eq!(to_pixel(i64::MAX), i32::MAX);
    assert_eq!(to_pixel(i64::MIN), i32::MIN);
}

#[test]
fn the_scissor_rectangle_rounds_corner_and_size() {
    let b = BBox::new(
        Screenpoint::new(10_400_000, 20_600_000),
        Screenpoint::new(110_400_000, 80_100_000),
    );
    assert_eq!(scissor_rect_from_bbox(b), (10, 21, 100, 60));
    let point = BBox::new(Screenpoint::new(5, 5), Screenpoint::new(5, 5));
    assert_eq!(scissor_rect_from_bbox(point), (0, 0, 0, 0));
}

#[test]
fn midpoints_are_rounded_down() {
    assert_eq!(midpoint(0, 10), 5);
    assert_eq!(midpoint(0, 11), 5);
    assert_eq!(midpoint(-11, 0), -6);
    assert_eq!(midpoint(7, 7), 7);
    assert_eq!(midpoint(i64::MAX, i64::MAX), i64::MAX);
}

#[test]
fn title_and_axis_labels_are_placed_against_the_viewport() {
    let v = chart_viewport();
    assert_eq!(title_origin(&v), Screenpoint::new(from_int(430), from_int(35)));
    assert_eq!(xlabel_origin(&v), Screenpoint::new(from_int(430), from_int(610)));
    assert_eq!(ylabel_origin(&v), Screenpoint::new(from_int(70), 307_500_000));
}

#[test]
fn data_is_projected_into_the_inner_box() {
    let v = plot_viewport(&chart_viewport());
    assert_eq!((v.x, v.y), (from_int(70), from_int(60)));
    assert_eq!((v.width, v.height), (from_int(720), from_int(495)));
    assert_eq!(v.margins, Margins::all(0));
    assert_eq!(v.inner_bbox().maximum, Screenpoint::new(from_int(790), from_int(555)));
}

#[test]
fn ticks_are_drawn_from_the_lower_bound_up_to_the_upper() {
    let ticks = vec![tick(-1, "a", true), tick(0, "b", true), tick(5, "", false), tick(10, "d", true)];
    let got: Vec<i64> = visible_ticks(&ticks, 0, 10).iter().map(|t| t.value).collect();
    assert_eq!(got, vec![0, 5]);
    assert!(visible_ticks(&ticks, 3, 3).is_empty());
    assert_eq!(visible_ticks(&ticks, -5, 50).len(), 4);
    assert_eq!(visible_ticks(&ticks, 0, 10)[0].label, "b");
}

#[test]
fn tick_marks_hang_from_the_axis() {
    let at = Screenpoint::new(from_int(100), from_int(500));
    let m = x_tick_mark(at, from_int(7), from_int(4));
    assert_eq!(m.from, at);
    assert_eq!(m.to, Screenpoint::new(from_int(100), from_int(507)));
    assert_eq!(m.label_origin, Screenpoint::new(from_int(100), from_int(511)));
    let m = y_tick_mark(at, from_int(7), from_int(4));
    assert_eq!(m.from, Screenpoint::new(from_int(93), from_int(500)));
    assert_eq!(m.to, at);
    assert_eq!(m.label_origin, Screenpoint::new(from_int(89), from_int(500)));
}

#[test]
fn only_major_ticks_with_a_label_are_labelled() {
    assert!(tick_is_labelled(&tick(1, "1", true), true));
    assert!(!tick_is_labelled(&tick(1, "1", true), false));
    assert!(!tick_is_labelled(&tick(1, "1", false), true));
    assert!(!tick_is_labelled(&tick(1, "", true), true));
}

#[test]
fn the_widest_label_decides() {
    assert_eq!(max_label_width(&vec![3, 9, 4]), 9);
    assert_eq!(max_label_width(&vec![]), 0);
    assert_eq!(max_label_width(&vec![-3, -9]), 0);
}

#[test]
fn the_legend_box_holds_rows_swatch_and_labels() {
    let m = plain_metrics();
    assert_eq!(legend_size(&m, 3, from_int(50)), Vector2::new(from_int(80), from_int(66)));
    assert_eq!(legend_size(&m, 1, 0), Vector2::new(from_int(30), from_int(30)));
    assert_eq!(legend_size(&m, 0, 0), Vector2::new(from_int(30), from_int(16)));
}

#[test]
fn the_legend_box_is_anchored_in_a_corner() {
    let inner = BBox::new(Screenpoint::new(0, 0), Screenpoint::new(from_int(100), from_int(100)));
    let size = Vector2::new(from_int(80), from_int(66));
    assert_eq!(legend_origin(LegendPosition::TopRight, inner, size), Vector2::new(from_int(20), 0));
    assert_eq!(legend_origin(LegendPosition::TopLeft, inner, size), Vector2::new(0, 0));
    assert_eq!(
        legend_origin(LegendPosition::BottomRight, inner, size),
        Vector2::new(from_int(20), from_int(34))
    );
    assert_eq!(legend_origin(LegendPosition::BottomLeft, inner, size), Vector2::new(0, from_int(34)));
    assert_eq!(legend_origin(LegendPosition::Custom(7, -9), inner, size), Vector2::new(7, -9));
    assert_eq!(LegendPosition::default(), LegendPosition::TopRight);
}

#[test]
fn legend_rows_step_down_by_height_and_spacing() {
    let m = plain_metrics();
    let corner = Vector2::new(from_int(20), 0);
    let r = legend_row(&m, corner, 0);
    assert_eq!((r.top, r.swatch_x, r.swatch_cy), (from_int(8), from_int(28), from_int(15)));
    assert_eq!(r.text_origin, Screenpoint::new(from_int(40), from_int(8)));
    let r = legend_row(&m, corner, 1);
    assert_eq!((r.top, r.swatch_x, r.swatch_cy), (from_int(26), from_int(28), from_int(33)));
    assert_eq!(r.text_origin, Screenpoint::new(from_int(40), from_int(26)));
    let (tip, left, right) = legend_triangle(&r, from_int(8));
    assert_eq!(tip, Screenpoint::new(from_int(32), from_int(29)));
    assert_eq!(left, Screenpoint::new(from_int(28), from_int(37)));
    assert_eq!(right, Screenpoint::new(from_int(36), from_int(37)));
    assert_eq!(legend_square(&r, from_int(8)), Screenpoint::new(from_int(28), from_int(29)));
}

#[test]
fn a_factor_scales_a_length() {
    assert_eq!(scale_by(from_int(10), 500_000), from_int(5));
    assert_eq!(scale_by(from_int(10), -500_000), from_int(-5));
    assert_eq!(scale_by(3, 500_000), 1);
    assert_eq!(scale_by(-3, 500_000), -2);
    assert_eq!(scale_by(from_int(10), 1_000_000), from_int(10));
    assert_eq!(scale_by(from_int(10), 0), 0);
}

#[test]
fn a_triangular_marker_points_down() {
    let (a, b, c) = triangle_marker(Screenpoint::new(from_int(100), from_int(100)), from_int(10));
    assert_eq!(a, Screenpoint::new(108_660_250, from_int(95)));
    assert_eq!(b, Screenpoint::new(91_339_750, from_int(95)));
    assert_eq!(c, Screenpoint::new(from_int(100), from_int(110)));
}

#[test]
fn an_arrowhead_sits_at_the_end_of_its_segment() {
    let from = Screenpoint::new(0, 0);
    let to = Screenpoint::new(from_int(10), 0);
    let (a, b, tip) = arrow_head(from, to, from_int(4), from_int(3)).unwrap();
    assert_eq!(a, Screenpoint::new(from_int(6), from_int(-3)));
    assert_eq!(b, Screenpoint::new(from_int(6), from_int(3)));
    assert_eq!(tip, to);
    // along the diagonal of a three-four-five triangle
    let to = Screenpoint::new(from_int(3), from_int(4));
    let (a, b, tip) = arrow_head(from, to, from_int(5), from_int(5)).unwrap();
    assert_eq!(tip, to);
    assert_eq!(a, Screenpoint::new(from_int(4), from_int(-3)));
    assert_eq!(b, Screenpoint::new(from_int(-4), from_int(3)));
}

#[test]
fn a_segment_without_length_has_no_arrowhead() {
    let p = Screenpoint::new(from_int(3), from_int(4));
    assert!(arrow_head(p, p, from_int(4), from_int(3)).is_none());
}
