use locus::graph::{ConfiguredElement, GraphBuilderError};
use locus::line::{Axis, Orientation};
use locus::point::{Datapoint, Screenpoint, Shape, Vector2, Planar};
use locus::text::{anchor_text_top_left, Anchor, HAlign, VAlign};
use locus::view::Margins;

#[test]
fn a_configured_element_keeps_element_and_configuration() {
    let axis = Axis::from_ranges(0..1, 0..1);
    let e = ConfiguredElement::new(axis, Margins::all(3));
    assert_eq!(e.element, axis);
    assert_eq!(e.configs, Margins::all(3));
}

#[test]
fn with_defaults_takes_the_default_configuration() {
    let e: ConfiguredElement<u8, Orientation> = ConfiguredElement::with_defaults(7);
    assert_eq!(e.element, 7);
    assert_eq!(e.configs, Orientation::default());
    let e: ConfiguredElement<Shape, Margins> = ConfiguredElement::with_defaults(Shape::Triangle);
    assert_eq!(e.element, Shape::Triangle);
    assert_eq!(e.configs, Margins::all(0));
}

#[test]
fn configure_changes_the_configuration_only() {
    let e = ConfiguredElement::new(1_u8, Margins::all(0)).configure(|m| m.left = 40);
    assert_eq!(e.element, 1);
    assert_eq!(e.configs, Margins { left: 40, right: 0, top: 0, bottom: 0 });
}

#[test]
fn the_builder_error_names_itself() {
    let e = GraphBuilderError::new("no viewport".to_string());
    assert_eq!(e.message(), "GraphBuilderError: no viewport");
    assert_eq!(GraphBuilderError::new(String::new()).message(), "GraphBuilderError: ");
}

#[test]
fn anchors_are_named_pairs_of_alignments() {
    assert_eq!(Anchor::center(), Anchor { h: HAlign::Center, v: VAlign::Middle });
    assert_eq!(Anchor::top_center(), Anchor { h: HAlign::Center, v: VAlign::Top });
    assert_eq!(Anchor::top_left(), Anchor { h: HAlign::Left, v: VAlign::Top });
    assert_eq!(Anchor::right_middle(), Anchor { h: HAlign::Right, v: VAlign::Middle });
    assert_eq!(Anchor::left_middle(), Anchor { h: HAlign::Left, v: VAlign::Middle });
    assert_eq!(Anchor::center_bottom(), Anchor { h: HAlign::Center, v: VAlign::Bottom });
}

#[test]
fn anchoring_shifts_by_the_text_size() {
    let size = Vector2::new(100, 20);
    let none = Vector2::new(0, 0);
    assert_eq!(anchor_text_top_left(size, Anchor::top_left(), none), Vector2::new(0, 0));
    assert_eq!(anchor_text_top_left(size, Anchor::center(), none), Vector2::new(50, 10));
    assert_eq!(anchor_text_top_left(size, Anchor::center_bottom(), none), Vector2::new(50, 20));
    assert_eq!(anchor_text_top_left(size, Anchor::top_center(), Vector2::new(3, -4)), Vector2::new(53, -4));
    // a right-held box is shifted by the height of the text
    assert_eq!(anchor_text_top_left(size, Anchor::right_middle(), none), Vector2::new(20, 10));
    assert_eq!(anchor_text_top_left(Vector2::new(7, 7), Anchor::center(), none), Vector2::new(3, 3));
}

#[test]
fn points_hand_out_their_coordinates() {
    let d = Datapoint::new(3, -4);
    assert_eq!((d.x, d.y), (3, -4));
    assert_eq!((Planar::x(&d), Planar::y(&d)), (3, -4));
    assert_eq!(<Datapoint as Planar>::at(3, -4), d);
    let s = Screenpoint::new(8, 9);
    assert_eq!((Planar::x(&s), Planar::y(&s)), (8, 9));
    assert_eq!(<Screenpoint as Planar>::at(8, 9), s);
}
