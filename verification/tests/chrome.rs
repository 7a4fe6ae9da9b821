use locus::annotation::{AnnotLineConfig, Annotation, AnnotationConfig, AnnotationPosition};
use locus::colorscheme::{
    dracula, github_dark, github_light, matplotlib_light, nord, solarized_dark, solarized_light,
    viridis, Color, Colorscheme, Themable,
};
use locus::fixed::from_int;
use locus::graph::{ConfiguredElement, GraphBuilder};
use locus::layout::LegendPosition;
use locus::legend::{Legend, LegendConfig, LegendEntry};
use locus::line::{Axis, GridLines, Orientation, Separation, TickLabels, Visibility};
use locus::point::{Datapoint, Screenpoint, Shape, Vector2};
use locus::style::{AxisConfigs, GridLinesConfig, LineConfig, PointConfig, TickLabelsConfig};
use locus::text::{Anchor, TextLabel, TextStyle};
use locus::ticks::Scale;
use locus::view::{BBox, Margins, ViewTransformer, Viewport};

const WHITE: Color = Color { r: 255, g: 255, b: 255, a: 255 };
const BLUE: Color = Color { r: 0, g: 121, b: 241, a: 255 };

#[test]
fn the_default_scheme_is_the_light_matplotlib_one() {
    let d = Colorscheme::default();
    let m = matplotlib_light();
    assert_eq!(d.background, WHITE);
    assert_eq!((d.background, d.text, d.grid, d.axis), (m.background, m.text, m.grid, m.axis));
    assert_eq!(d.cycle, m.cycle);
    assert_eq!(d.cycle.len(), 7);
    assert_eq!(d.cycle[0], Color::new(31, 119, 180, 255));
}

#[test]
fn the_palettes_hold_their_colours() {
    let d = dracula();
    assert_eq!(d.background, Color::new(40, 42, 54, 255));
    assert_eq!(d.text, Color::new(248, 248, 242, 255));
    assert_eq!(d.grid, Color::new(68, 71, 90, 200));
    assert_eq!(d.axis, Color::new(68, 71, 90, 255));
    assert_eq!(d.cycle.len(), 7);
    assert_eq!(d.cycle[6], Color::new(255, 121, 198, 255));
    let sizes: Vec<usize> = [
        nord(),
        viridis(),
        solarized_dark(),
        github_dark(),
        solarized_light(),
        github_light(),
    ]
    .iter()
    .map(|s| s.cycle.len())
    .collect();
    assert_eq!(sizes, vec![7, 5, 8, 6, 6, 5]);
}

#[test]
fn a_scheme_can_take_more_accents() {
    let base = Colorscheme::new(WHITE, WHITE, BLUE, BLUE, vec![BLUE]);
    let more = base.clone().extend(vec![WHITE, Color::red()]);
    assert_eq!(more.cycle, vec![BLUE, WHITE, Color::red()]);
    assert_eq!((more.background, more.text), (WHITE, BLUE));
    let mut same = base;
    same.extend_in_place(vec![WHITE]);
    assert_eq!(same.cycle, vec![BLUE, WHITE]);
    assert_eq!(same.accent(0), BLUE);
    assert_eq!(same.accent(3), WHITE);
    assert_eq!(Colorscheme::new(WHITE, WHITE, WHITE, WHITE, vec![]).accent(5), Color::black());
}

#[test]
fn line_and_point_defaults() {
    let l = LineConfig::default();
    assert_eq!((l.thickness, l.arrow_length, l.arrow_width), (1_500_000, 6_000_000, 5_250_000));
    assert_eq!((l.color, l.arrow), (None, Visibility::Visible));
    assert_eq!(l.base_color(), Color::black());
    let p = PointConfig::default();
    assert_eq!((p.color, p.size, p.shape), (Color::red(), from_int(10), Shape::Circle));
    let p = p.color(BLUE).size(from_int(6)).shape(Shape::Triangle);
    assert_eq!((p.color, p.size, p.shape), (BLUE, from_int(6), Shape::Triangle));
}

#[test]
fn axis_configurations_strip_axes_and_arrows() {
    let a = AxisConfigs::default();
    assert_eq!((a.thickness, a.arrow_length, a.arrow_width), (from_int(2), from_int(8), from_int(8)));
    let all = [a.x_arrow, a.y_arrow, a.x_axis, a.y_axis];
    assert_eq!(all, [Visibility::Visible; 4]);
    let s = a.strip_both_arrows();
    assert_eq!((s.x_arrow, s.y_arrow, s.x_axis, s.y_axis), (
        Visibility::Invisible,
        Visibility::Invisible,
        Visibility::Visible,
        Visibility::Visible,
    ));
    assert_eq!(a.strip_x_arrow().x_arrow, Visibility::Invisible);
    assert_eq!(a.strip_x_arrow().y_arrow, Visibility::Visible);
    assert_eq!(a.strip_y_arrow().y_arrow, Visibility::Invisible);
    let s = a.strip_x_axis();
    assert_eq!((s.x_axis, s.x_arrow, s.y_axis, s.y_arrow), (
        Visibility::Invisible,
        Visibility::Invisible,
        Visibility::Visible,
        Visibility::Visible,
    ));
    let s = a.strip_y_axis();
    assert_eq!((s.y_axis, s.y_arrow, s.x_axis), (
        Visibility::Invisible,
        Visibility::Invisible,
        Visibility::Visible,
    ));
    let s = a.strip_both_axis();
    assert_eq!([s.x_arrow, s.y_arrow, s.x_axis, s.y_axis], [Visibility::Invisible; 4]);
    let x = a.strip_x_arrow().x_line();
    assert_eq!((x.arrow, x.thickness, x.arrow_length), (Visibility::Invisible, from_int(2), from_int(8)));
    assert_eq!(a.strip_x_arrow().y_line().arrow, Visibility::Visible);
}

#[test]
fn open_colours_are_taken_from_the_scheme() {
    let scheme = dracula();
    let mut a = AxisConfigs::default();
    a.apply_theme(&scheme);
    assert_eq!(a.color, Some(scheme.axis));
    let mut g = GridLinesConfig::default();
    assert_eq!((g.alpha, g.thickness, g.max_ticks), (300_000, from_int(1), 10));
    g.apply_theme(&scheme);
    assert_eq!(g.color, Some(scheme.grid));
    let mut t = TickLabelsConfig::default();
    t.apply_theme(&scheme);
    assert_eq!((t.color, t.label_style.color), (Some(scheme.axis), Some(scheme.text)));
    let mut s = TextStyle::default();
    s.apply_theme(&scheme);
    assert_eq!(s.color, Some(scheme.text));
    let mut l = LegendConfig::default();
    l.apply_theme(&scheme);
    assert_eq!(l.label_style.color, Some(scheme.text));
    assert_eq!(l.background, Some(Color::new(0, 0, 0, 140)));
}

#[test]
fn colours_that_are_set_stay() {
    let scheme = nord();
    let mut a = AxisConfigs { color: Some(BLUE), ..AxisConfigs::default() };
    a.apply_theme(&scheme);
    assert_eq!(a.color, Some(BLUE));
    let mut s = TextStyle::default().color(WHITE);
    s.apply_theme(&scheme);
    assert_eq!(s.color, Some(WHITE));
    assert_eq!(s.base_color(), WHITE);
}

#[test]
fn tick_configurations_choose_scales_and_axes() {
    let t = TickLabelsConfig::default();
    assert_eq!((t.major_size, t.minor_size, t.label_offset), (from_int(7), from_int(5), from_int(4)));
    assert_eq!((t.max_ticks, t.separation, t.show_labels), (10, Separation::Auto, true));
    assert_eq!(t.label_style.font_size, from_int(14));
    assert_eq!(t.label_style.anchor, Anchor::top_center());
    let log = Scale::Log { base: from_int(10), include_minor: true };
    let s = t.strip_x_axis().with_x_scale(log);
    assert_eq!((s.x_axis, s.x_axis_scale, s.y_axis_scale), (Visibility::Visible, log, Scale::Linear));
    let s = t.with_y_scale(log);
    assert_eq!((s.y_axis_scale, s.x_axis_scale), (log, Scale::Linear));
    let s = t.with_both_axis_scale(log);
    assert_eq!((s.y_axis_scale, s.x_axis_scale), (log, log));
    assert_eq!(t.strip_x_axis().x_axis, Visibility::Invisible);
    assert_eq!(t.strip_y_axis().y_axis, Visibility::Invisible);
    assert_eq!(t.strip_y_axis().x_axis, Visibility::Visible);
    assert_eq!((t.mark_length(true), t.mark_length(false)), (from_int(7), from_int(5)));
    let turned = TickLabelsConfig { label_rotation: from_int(45), ..t };
    assert_eq!(turned.x_label_style().rotation, from_int(45));
    assert_eq!(turned.x_label_style().anchor, Anchor::top_center());
    assert_eq!(turned.y_label_style().anchor, Anchor::right_middle());
    assert_eq!(turned.y_label_style().rotation, 0);
}

#[test]
fn text_styles_change_field_by_field() {
    let s = TextStyle::default();
    assert_eq!((s.font_size, s.alpha, s.spacing, s.rotation), (from_int(20), from_int(1), from_int(1), 0));
    assert_eq!((s.color, s.anchor, s.offset), (None, Anchor::center(), Vector2::new(0, 0)));
    assert!(s.is_upright());
    let t = s
        .font_size(from_int(26))
        .alpha(500_000)
        .spacing(from_int(2))
        .anchor(Anchor::top_left())
        .rotation(from_int(-90))
        .offset(Vector2::new(3, 4));
    assert_eq!((t.font_size, t.alpha, t.spacing, t.rotation), (from_int(26), 500_000, from_int(2), from_int(-90)));
    assert_eq!((t.anchor, t.offset), (Anchor::top_left(), Vector2::new(3, 4)));
    assert!(!t.is_upright());
}

#[test]
fn a_text_label_is_drawn_from_its_anchor() {
    let label = TextLabel::new("title".to_string(), Screenpoint::new(from_int(100), from_int(50)));
    let size = Vector2::new(from_int(40), from_int(10));
    let style = TextStyle::default().offset(Vector2::new(from_int(1), from_int(2)));
    assert_eq!(label.top_left(size, &style), Vector2::new(from_int(121), from_int(57)));
    let style = TextStyle::default().anchor(Anchor::top_left());
    assert_eq!(label.top_left(size, &style), Vector2::new(from_int(100), from_int(50)));
}

#[test]
fn a_legend_is_laid_out_from_its_entries() {
    let legend = Legend {
        entries: vec![
            LegendEntry::new("Sample points".to_string(), Color::red()),
            LegendEntry::new("Cluster A".to_string(), BLUE).with_shape(Shape::Rectangle),
        ],
    };
    assert_eq!(legend.entries[0].shape, Shape::Circle);
    assert_eq!(legend.entries[1].shape, Shape::Rectangle);
    assert_eq!(legend.entries[1].label, "Cluster A");
    let inner = BBox::new(Screenpoint::new(0, 0), Screenpoint::new(from_int(200), from_int(100)));
    let configs = LegendConfig::default();
    let layout = legend.layout(&configs, inner, &vec![from_int(90), from_int(60)]).unwrap();
    assert_eq!(layout.size, Vector2::new(from_int(120), from_int(48)));
    assert_eq!(layout.corner, Vector2::new(from_int(80), 0));
    assert_eq!(layout.rows.len(), 2);
    assert_eq!(layout.rows[0].top, from_int(8));
    assert_eq!(layout.rows[1].top, from_int(26));
    assert_eq!(layout.rows[1].swatch_x, from_int(88));
    assert_eq!(layout.rows[1].text_origin, Screenpoint::new(from_int(100), from_int(26)));
    let low = LegendConfig { position: LegendPosition::BottomLeft, ..configs };
    let layout = legend.layout(&low, inner, &vec![from_int(90), from_int(60)]).unwrap();
    assert_eq!(layout.corner, Vector2::new(0, from_int(52)));
    assert!(Legend::default().layout(&configs, inner, &vec![]).is_none());
    assert_eq!(configs.metrics().row_height, from_int(14));
}

#[test]
fn annotations_are_held_in_data_or_on_the_screen() {
    let data = BBox::new(Datapoint::new(0, 0), Datapoint::new(from_int(10), from_int(10)));
    let view = ViewTransformer::new(data, Viewport::new(0, 0, from_int(100), from_int(100)));
    let a = Annotation::at_data("outlier".to_string(), Datapoint::new(from_int(5), from_int(10)));
    assert_eq!(a.position, AnnotationPosition::Data(Datapoint::new(from_int(5), from_int(10))));
    assert_eq!(a.origin(&view), Some(Screenpoint::new(from_int(50), 0)));
    let s = Annotation::at_screen("note".to_string(), Screenpoint::new(7, 9));
    assert_eq!(s.text, "note");
    assert_eq!(s.origin(&view), Some(Screenpoint::new(7, 9)));
}

#[test]
fn annotation_lines_take_their_colour_from_the_text() {
    let scheme = dracula();
    let target = Datapoint::new(1, 2);
    let plain = AnnotationConfig::default();
    assert_eq!(plain.line, None);
    let mut c = plain.with_target(target);
    let line = c.line.unwrap();
    assert_eq!((line.target, line.thickness, line.arrow_length, line.arrow_width), (
        target,
        1_500_000,
        1_500_000,
        1_500_000,
    ));
    c.apply_theme(&scheme);
    assert_eq!(c.style.color, Some(scheme.text));
    assert_eq!(c.line.unwrap().color, Some(scheme.text));
    let mut c = AnnotationConfig {
        style: TextStyle::default().color(WHITE),
        line: Some(AnnotLineConfig::new(target)),
    };
    c.apply_theme(&scheme);
    assert_eq!(c.style.color, Some(WHITE));
    assert_eq!(c.line.unwrap().color, Some(WHITE));
    let mut c = AnnotationConfig {
        style: TextStyle::default(),
        line: Some(AnnotLineConfig { color: Some(BLUE), ..AnnotLineConfig::new(target) }),
    };
    c.apply_theme(&scheme);
    assert_eq!(c.line.unwrap().color, Some(BLUE));
    let moved = c.with_target(Datapoint::new(8, 8)).line.unwrap();
    assert_eq!((moved.target, moved.color, moved.arrow_length), (Datapoint::new(8, 8), Some(BLUE), from_int(6)));
    let l = AnnotLineConfig::new(target).line_config();
    assert_eq!((l.thickness, l.arrow_length, l.arrow_width), (1_500_000, from_int(6), 5_250_000));
    let mut none = AnnotationConfig::default();
    none.apply_theme(&scheme);
    assert_eq!(none.line, None);
}

#[test]
fn building_a_graph_places_and_themes_its_chrome() {
    let axis = Axis::fitting(0..from_int(10), 0..from_int(10), 50_000, 10);
    let viewport = Viewport::new(from_int(10), from_int(10), from_int(800), from_int(600))
        .with_margins(Margins::all(from_int(50)));
    let built = GraphBuilder::<TextStyle>::default()
        .viewport(viewport)
        .axis(ConfiguredElement::with_defaults(axis))
        .grid(ConfiguredElement::with_defaults(GridLines::new(axis, Orientation::default())))
        .ticks(ConfiguredElement::with_defaults(TickLabels::new(axis)))
        .title("My Plot".to_string())
        .xlabel("X".to_string())
        .ylabel("Y".to_string())
        .colorscheme(dracula())
        .legend(vec![LegendEntry::new("a".to_string(), BLUE)])
        .annotate("here".to_string(), Datapoint::new(1, 2))
        .build();
    let cfg = built.ok().unwrap();
    let scheme = dracula();
    assert_eq!(cfg.viewport, viewport);
    assert_eq!(cfg.colorscheme.background, scheme.background);
    assert_eq!(cfg.axis.unwrap().configs.color, Some(scheme.axis));
    assert_eq!(cfg.grid.unwrap().configs.color, Some(scheme.grid));
    let ticks = cfg.ticks.unwrap();
    assert_eq!((ticks.configs.color, ticks.configs.label_style.color), (Some(scheme.axis), Some(scheme.text)));
    let title = cfg.title.unwrap();
    assert_eq!(title.element.text, "My Plot");
    assert_eq!(title.element.position, Screenpoint::new(from_int(410), from_int(35)));
    assert_eq!((title.configs.font_size, title.configs.anchor), (from_int(26), Anchor::top_center()));
    assert_eq!(title.configs.color, Some(scheme.text));
    let xlabel = cfg.xlabel.unwrap();
    assert_eq!(xlabel.element.position, Screenpoint::new(from_int(410), from_int(610)));
    assert_eq!((xlabel.configs.font_size, xlabel.configs.anchor), (from_int(20), Anchor::center_bottom()));
    let ylabel = cfg.ylabel.unwrap();
    assert_eq!(ylabel.element.position, Screenpoint::new(from_int(60), from_int(310)));
    assert_eq!((ylabel.configs.rotation, ylabel.configs.anchor), (from_int(-90), Anchor::center()));
    let legend = cfg.legend.unwrap();
    assert_eq!(legend.element.entries.len(), 1);
    assert_eq!(legend.configs.label_style.color, Some(scheme.text));
    let notes = cfg.annotations.unwrap();
    assert_eq!(notes.len(), 1);
    assert_eq!(notes[0].element.text, "here");
    assert_eq!(notes[0].configs.style.color, Some(scheme.text));
    assert_eq!(cfg.subject_configs.color, Some(scheme.text));
}

#[test]
fn an_empty_builder_builds_the_defaults() {
    let cfg = GraphBuilder::<AxisConfigs>::default().build().ok().unwrap();
    assert_eq!(cfg.viewport, Viewport::default());
    assert_eq!(cfg.colorscheme.cycle, matplotlib_light().cycle);
    assert!(cfg.axis.is_none() && cfg.grid.is_none() && cfg.ticks.is_none());
    assert!(cfg.title.is_none() && cfg.xlabel.is_none() && cfg.ylabel.is_none());
    assert!(cfg.legend.is_none() && cfg.annotations.is_none());
    assert_eq!(cfg.subject_configs.color, Some(matplotlib_light().axis));
}

#[test]
fn styled_chrome_starts_from_the_plain_style() {
    let cfg = GraphBuilder::<TextStyle>::default()
        .subject_configs(TextStyle::default().color(BLUE))
        .title_styled("t".to_string(), |s| s.font_size(from_int(30)))
        .xlabel_styled("x".to_string(), |s| s.color(WHITE))
        .ylabel_styled("y".to_string(), |s| s.rotation(0))
        .legend_styled(vec![], |c| c.position = LegendPosition::BottomLeft)
        .annotate_styled(Annotation::at_screen("s".to_string(), Screenpoint::new(1, 1)), |c| {
            c.line = Some(AnnotLineConfig::new(Datapoint::new(3, 3)))
        })
        .annotate("plain".to_string(), Datapoint::new(0, 0))
        .build()
        .ok()
        .unwrap();
    let title = cfg.title.unwrap().configs;
    assert_eq!((title.font_size, title.anchor), (from_int(30), Anchor::top_center()));
    let xlabel = cfg.xlabel.unwrap().configs;
    assert_eq!((xlabel.color, xlabel.anchor), (Some(WHITE), Anchor::center_bottom()));
    let ylabel = cfg.ylabel.unwrap().configs;
    assert_eq!((ylabel.rotation, ylabel.font_size), (0, from_int(20)));
    assert_eq!(cfg.legend.unwrap().configs.position, LegendPosition::BottomLeft);
    let notes = cfg.annotations.unwrap();
    assert_eq!(notes.len(), 2);
    assert_eq!(notes[0].configs.line.unwrap().target, Datapoint::new(3, 3));
    assert_eq!(notes[1].configs.line, None);
    assert_eq!(cfg.subject_configs.color, Some(BLUE));
}

#[test]
fn a_graph_is_seen_through_its_axes_or_its_subject() {
    let axis = Axis::from_ranges(0..from_int(10), 0..from_int(20));
    let subject = BBox::new(Datapoint::new(1, 1), Datapoint::new(5, 5));
    let viewport = Viewport::new(0, 0, from_int(100), from_int(100)).with_margins(Margins::all(from_int(10)));
    let with_axis = GraphBuilder::<TextStyle>::default()
        .viewport(viewport)
        .axis(ConfiguredElement::with_defaults(axis))
        .build()
        .ok()
        .unwrap();
    let view = with_axis.view(subject);
    assert_eq!(view.data_bounds.maximum, Datapoint::new(from_int(10), from_int(20)));
    assert_eq!(view.screen_bounds, Viewport::new(from_int(10), from_int(10), from_int(80), from_int(80)));
    let without = GraphBuilder::<TextStyle>::default().viewport(viewport).build().ok().unwrap();
    assert_eq!(without.view(subject).data_bounds.maximum, Datapoint::new(5, 5));
}
