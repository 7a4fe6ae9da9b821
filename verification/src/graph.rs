//! The configuration of a whole graph and its builder.
//!
//! A graph is a subject, such as a scatter plot, with the chrome around it:
//! axes, grid, ticks, title, axis labels, legend and annotations. The builder
//! collects what is wanted; building places the title and the axis labels
//! against the viewport and fills every colour that was left open from the
//! colour scheme.

use vstd::prelude::*;
use vstd::string::StringExecFns;
use crate::annotation::{AnnotLineConfig, Annotation, AnnotationConfig};
use crate::colorscheme::{matplotlib_light_colors, themed, Colorscheme, Themable};
use crate::layout::{
    halfway, plot_viewport, title_origin, xlabel_origin, ylabel_origin,
};
use crate::legend::{Legend, LegendConfig, LegendEntry};
use crate::line::{Axis, GridLines, TickLabels};
use crate::point::{Datapoint, Screenpoint};
use crate::style::{AxisConfigs, GridLinesConfig, TickLabelsConfig};
use crate::text::{Anchor, HAlign, TextLabel, TextStyle, VAlign};
use crate::view::{DataBBox, Margins, ViewTransformer, Viewport};

verus! {

/// A visual element together with the configuration it is drawn with.
#[derive(Debug)]
pub struct ConfiguredElement<E, C> {
    /// The element.
    pub element: E,
    /// Its configuration.
    pub configs: C,
}

impl<E, C> ConfiguredElement<E, C> {
    /// The element with the given configuration.
    pub fn new(element: E, configs: C) -> (r: Self)
        ensures
            r.element == element,
            r.configs == configs,
    {
        ConfiguredElement { element, configs }
    }

    /// The same element with its configuration changed by `f`.
    #[must_use]
    pub fn configure(self, f: impl FnOnce(&mut C)) -> (r: Self)
        requires
            forall|c: &mut C| *c == self.configs ==> call_requires(f, (c,)),
        ensures
            r.element == self.element,
            exists|c: &mut C|
                *c == self.configs && *final(c) == r.configs && call_ensures(f, (c,), ()),
    {
        let mut me = self;
        f(&mut me.configs);
        me
    }
}

impl<E, C: Default> ConfiguredElement<E, C> {
    /// The element with the default configuration.
    pub fn with_defaults(element: E) -> (r: Self)
        ensures
            r.element == element,
            call_ensures(C::default, (), r.configs),
    {
        ConfiguredElement { element, configs: C::default() }
    }
}

/// The error of a graph configuration that cannot be built.
#[derive(Debug)]
pub struct GraphBuilderError(pub String);

impl GraphBuilderError {
    /// The text that every message of this error starts with.
    pub open spec fn prefix() -> Seq<char> {
        "GraphBuilderError: "@
    }

    /// The error with the given reason.
    pub fn new(reason: String) -> (r: Self)
        ensures
            r.0@ == reason@,
    {
        GraphBuilderError(reason)
    }

    /// The message of the error: the prefix followed by the reason.
    pub fn message(&self) -> (s: String)
        ensures
            s@ == Self::prefix() + self.0@,
    {
        let mut out = String::from_str("GraphBuilderError: ");
        out.append(self.0.as_str());
        out
    }
}

/// The style of a title: size twenty-six, held at the middle of the top
/// edge.
pub open spec fn title_style() -> TextStyle {
    TextStyle {
        font_size: 26_000_000,
        anchor: Anchor { h: HAlign::Center, v: VAlign::Top },
        ..TextStyle::plain()
    }
}

/// The style of the label of the x axis: size twenty, held at the middle of
/// the bottom edge.
pub open spec fn xlabel_style() -> TextStyle {
    TextStyle {
        font_size: 20_000_000,
        anchor: Anchor { h: HAlign::Center, v: VAlign::Bottom },
        ..TextStyle::plain()
    }
}

/// The style of the label of the y axis: size twenty, held at the centre and
/// turned a quarter to the left.
pub open spec fn ylabel_style() -> TextStyle {
    TextStyle {
        font_size: 20_000_000,
        anchor: Anchor { h: HAlign::Center, v: VAlign::Middle },
        rotation: (-90_000_000) as i64,
        ..TextStyle::plain()
    }
}

/// A text style with its colour filled from the text colour of a scheme.
pub open spec fn themed_text(style: TextStyle, scheme: Colorscheme) -> TextStyle {
    TextStyle { color: Some(themed(style.color, scheme.text)), ..style }
}

/// An annotation configuration with its colours filled from a scheme: the
/// text from the text colour, the leader line from the text.
pub open spec fn themed_annotation(configs: AnnotationConfig, scheme: Colorscheme) -> AnnotationConfig {
    AnnotationConfig {
        style: themed_text(configs.style, scheme),
        line: match configs.line {
            Some(line) => Some(
                AnnotLineConfig {
                    color: Some(themed(line.color, themed(configs.style.color, scheme.text))),
                    ..line
                },
            ),
            None => None,
        },
    }
}

/// Where the title goes in a viewport.
pub open spec fn title_place(viewport: Viewport) -> Screenpoint {
    Screenpoint {
        x: halfway(viewport.inner_min_x(), viewport.inner_max_x()) as i64,
        y: halfway(
            crate::common::lesser(viewport.y as int, viewport.y + viewport.height),
            viewport.inner_min_y(),
        ) as i64,
    }
}

/// Where the label of the x axis goes in a viewport.
pub open spec fn xlabel_place(viewport: Viewport) -> Screenpoint {
    Screenpoint {
        x: halfway(viewport.inner_min_x(), viewport.inner_max_x()) as i64,
        y: crate::common::greater(viewport.y as int, viewport.y + viewport.height) as i64,
    }
}

/// Where the label of the y axis goes in a viewport.
pub open spec fn ylabel_place(viewport: Viewport) -> Screenpoint {
    Screenpoint {
        x: viewport.inner_min_x() as i64,
        y: halfway(viewport.inner_min_y(), viewport.inner_max_y()) as i64,
    }
}

/// A piece of text of the chrome with its style, placed and themed.
pub open spec fn placed_text(
    entry: Option<(String, TextStyle)>,
    place: Screenpoint,
    scheme: Colorscheme,
) -> Option<ConfiguredElement<TextLabel, TextStyle>> {
    match entry {
        Some((text, style)) => Some(
            ConfiguredElement {
                element: TextLabel { text, position: place },
                configs: themed_text(style, scheme),
            },
        ),
        None => None,
    }
}

/// The viewport that a graph is drawn into where none is configured: at the
/// origin, eight hundred by six hundred, without margins.
pub open spec fn default_viewport() -> Viewport {
    Viewport {
        x: 0,
        y: 0,
        width: 800_000_000,
        height: 600_000_000,
        margins: Margins { left: 0, right: 0, top: 0, bottom: 0 },
    }
}

/// The resolved configuration of a graph whose subject is configured by `C`.
#[derive(Debug)]
pub struct GraphConfig<C> {
    pub subject_configs: C,
    pub viewport: Viewport,
    pub axis: Option<ConfiguredElement<Axis, AxisConfigs>>,
    pub grid: Option<ConfiguredElement<GridLines, GridLinesConfig>>,
    pub colorscheme: Colorscheme,
    pub ticks: Option<ConfiguredElement<TickLabels, TickLabelsConfig>>,
    pub title: Option<ConfiguredElement<TextLabel, TextStyle>>,
    pub xlabel: Option<ConfiguredElement<TextLabel, TextStyle>>,
    pub ylabel: Option<ConfiguredElement<TextLabel, TextStyle>>,
    pub legend: Option<ConfiguredElement<Legend, LegendConfig>>,
    pub annotations: Option<Vec<ConfiguredElement<Annotation, AnnotationConfig>>>,
}

/// What a graph is to be, as far as it has been said.
pub struct GraphBuilder<C> {
    pub subject_configs: Option<C>,
    pub viewport: Option<Viewport>,
    pub axis: Option<ConfiguredElement<Axis, AxisConfigs>>,
    pub grid: Option<ConfiguredElement<GridLines, GridLinesConfig>>,
    pub colorscheme: Option<Colorscheme>,
    pub ticks: Option<ConfiguredElement<TickLabels, TickLabelsConfig>>,
    pub title: Option<(String, TextStyle)>,
    pub xlabel: Option<(String, TextStyle)>,
    pub ylabel: Option<(String, TextStyle)>,
    pub legend: Option<ConfiguredElement<Legend, LegendConfig>>,
    pub annotations: Option<Vec<ConfiguredElement<Annotation, AnnotationConfig>>>,
}

impl<C> GraphBuilder<C> {
    /// The builder of which nothing has been said.
    pub open spec fn empty(&self) -> bool {
        &&& self.subject_configs is None
        &&& self.viewport is None
        &&& self.axis is None
        &&& self.grid is None
        &&& self.colorscheme is None
        &&& self.ticks is None
        &&& self.title is None
        &&& self.xlabel is None
        &&& self.ylabel is None
        &&& self.legend is None
        &&& self.annotations is None
    }

    /// The annotations said so far.
    pub open spec fn noted(&self) -> Seq<ConfiguredElement<Annotation, AnnotationConfig>> {
        match self.annotations {
            Some(v) => v@,
            None => Seq::empty(),
        }
    }

    /// Whether the two builders agree on everything but the annotations.
    pub open spec fn same_but_annotations(&self, other: &Self) -> bool {
        &&& self.subject_configs == other.subject_configs
        &&& self.viewport == other.viewport
        &&& self.axis == other.axis
        &&& self.grid == other.grid
        &&& self.colorscheme == other.colorscheme
        &&& self.ticks == other.ticks
        &&& self.title == other.title
        &&& self.xlabel == other.xlabel
        &&& self.ylabel == other.ylabel
        &&& self.legend == other.legend
    }
}

impl<C> Default for GraphBuilder<C> {
    fn default() -> (r: Self)
        ensures
            r.empty(),
    {
        GraphBuilder {
            subject_configs: None,
            viewport: None,
            axis: None,
            grid: None,
            colorscheme: None,
            ticks: None,
            title: None,
            xlabel: None,
            ylabel: None,
            legend: None,
            annotations: None,
        }
    }
}

impl<C: Default + Themable> GraphBuilder<C> {
    /// Sets the configuration of the subject.
    #[must_use]
    pub fn subject_configs(self, val: C) -> (r: Self)
        ensures
            r == (GraphBuilder { subject_configs: Some(val), ..self }),
    {
        GraphBuilder { subject_configs: Some(val), ..self }
    }

    /// Sets the region of the screen that the graph is drawn into.
    #[must_use]
    pub fn viewport(self, val: Viewport) -> (r: Self)
        ensures
            r == (GraphBuilder { viewport: Some(val), ..self }),
    {
        GraphBuilder { viewport: Some(val), ..self }
    }

    /// Adds axis lines.
    #[must_use]
    pub fn axis(self, val: ConfiguredElement<Axis, AxisConfigs>) -> (r: Self)
        ensures
            r == (GraphBuilder { axis: Some(val), ..self }),
    {
        GraphBuilder { axis: Some(val), ..self }
    }

    /// Adds grid lines.
    #[must_use]
    pub fn grid(self, val: ConfiguredElement<GridLines, GridLinesConfig>) -> (r: Self)
        ensures
            r == (GraphBuilder { grid: Some(val), ..self }),
    {
        GraphBuilder { grid: Some(val), ..self }
    }

    /// Sets the colour scheme.
    #[must_use]
    pub fn colorscheme(self, val: Colorscheme) -> (r: Self)
        ensures
            r == (GraphBuilder { colorscheme: Some(val), ..self }),
    {
        GraphBuilder { colorscheme: Some(val), ..self }
    }

    /// Adds tick marks and their labels.
    #[must_use]
    pub fn ticks(self, val: ConfiguredElement<TickLabels, TickLabelsConfig>) -> (r: Self)
        ensures
            r == (GraphBuilder { ticks: Some(val), ..self }),
    {
        GraphBuilder { ticks: Some(val), ..self }
    }

    /// Sets the title, in the style of titles.
    #[must_use]
    pub fn title(self, text: String) -> (r: Self)
        ensures
            r == (GraphBuilder { title: Some((text, title_style())), ..self }),
    {
        let style = TextStyle::default().font_size(26_000_000).anchor(Anchor::top_center());
        GraphBuilder { title: Some((text, style)), ..self }
    }

    /// Sets the title, in the style that `f` makes of the style of titles.
    #[must_use]
    pub fn title_styled(self, text: String, f: impl FnOnce(TextStyle) -> TextStyle) -> (r: Self)
        requires
            call_requires(f, (title_style(),)),
        ensures
            r.title matches Some((t, style)) && t == text && call_ensures(
                f,
                (title_style(),),
                style,
            ),
            r == (GraphBuilder { title: r.title, ..self }),
    {
        let base = TextStyle::default().font_size(26_000_000).anchor(Anchor::top_center());
        let style = f(base);
        GraphBuilder { title: Some((text, style)), ..self }
    }

    /// Sets the label of the x axis, in the style of such labels.
    #[must_use]
    pub fn xlabel(self, text: String) -> (r: Self)
        ensures
            r == (GraphBuilder { xlabel: Some((text, xlabel_style())), ..self }),
    {
        let style = TextStyle::default().font_size(20_000_000).anchor(Anchor::center_bottom());
        GraphBuilder { xlabel: Some((text, style)), ..self }
    }

    /// Sets the label of the x axis, in the style that `f` makes of the style
    /// of such labels.
    #[must_use]
    pub fn xlabel_styled(self, text: String, f: impl FnOnce(TextStyle) -> TextStyle) -> (r: Self)
        requires
            call_requires(f, (xlabel_style(),)),
        ensures
            r.xlabel matches Some((t, style)) && t == text && call_ensures(
                f,
                (xlabel_style(),),
                style,
            ),
            r == (GraphBuilder { xlabel: r.xlabel, ..self }),
    {
        let base = TextStyle::default().font_size(20_000_000).anchor(Anchor::center_bottom());
        let style = f(base);
        GraphBuilder { xlabel: Some((text, style)), ..self }
    }

    /// Sets the label of the y axis, in the style of such labels.
    #[must_use]
    pub fn ylabel(self, text: String) -> (r: Self)
        ensures
            r == (GraphBuilder { ylabel: Some((text, ylabel_style())), ..self }),
    {
        let style = TextStyle::default().font_size(20_000_000).anchor(Anchor::center()).rotation(
            -90_000_000,
        );
        GraphBuilder { ylabel: Some((text, style)), ..self }
    }

    /// Sets the label of the y axis, in the style that `f` makes of the style
    /// of such labels.
    #[must_use]
    pub fn ylabel_styled(self, text: String, f: impl FnOnce(TextStyle) -> TextStyle) -> (r: Self)
        requires
            call_requires(f, (ylabel_style(),)),
        ensures
            r.ylabel matches Some((t, style)) && t == text && call_ensures(
                f,
                (ylabel_style(),),
                style,
            ),
            r == (GraphBuilder { ylabel: r.ylabel, ..self }),
    {
        let base = TextStyle::default().font_size(20_000_000).anchor(Anchor::center()).rotation(
            -90_000_000,
        );
        let style = f(base);
        GraphBuilder { ylabel: Some((text, style)), ..self }
    }

    /// Adds a legend in the plain configuration.
    #[must_use]
    pub fn legend(self, entries: Vec<LegendEntry>) -> (r: Self)
        ensures
            r.legend matches Some(l) && l.element.entries == entries && l.configs
                == LegendConfig::plain(),
            r == (GraphBuilder { legend: r.legend, ..self }),
    {
        let element = ConfiguredElement::new(Legend { entries }, LegendConfig::default());
        GraphBuilder { legend: Some(element), ..self }
    }

    /// Adds a legend in the configuration that `f` makes of the plain one.
    #[must_use]
    pub fn legend_styled(self, entries: Vec<LegendEntry>, f: impl FnOnce(&mut LegendConfig)) -> (r:
        Self)
        requires
            forall|c: &mut LegendConfig| *c == LegendConfig::plain() ==> call_requires(f, (c,)),
        ensures
            r.legend matches Some(l) && l.element.entries == entries && (exists|c: &mut LegendConfig|
                *c == LegendConfig::plain() && *final(c) == l.configs && call_ensures(f, (c,), ())),
            r == (GraphBuilder { legend: r.legend, ..self }),
    {
        let mut config = LegendConfig::default();
        f(&mut config);
        let element = ConfiguredElement::new(Legend { entries }, config);
        GraphBuilder { legend: Some(element), ..self }
    }

    /// Adds an annotation at a data point, in the plain configuration.
    #[must_use]
    pub fn annotate(self, text: String, data_point: Datapoint) -> (r: Self)
        ensures
            r.same_but_annotations(&self),
            r.annotations is Some,
            r.noted().len() == self.noted().len() + 1,
            r.noted().drop_last() == self.noted(),
            r.noted().last().element.text == text,
            r.noted().last().element.position == crate::annotation::AnnotationPosition::Data(
                data_point,
            ),
            r.noted().last().configs == (AnnotationConfig { style: TextStyle::plain(), line: None }),
    {
        let annotation = Annotation::at_data(text, data_point);
        self.note(annotation, AnnotationConfig::default())
    }

    /// Adds an annotation in the configuration that `f` makes of the plain
    /// one.
    #[must_use]
    pub fn annotate_styled(self, annotation: Annotation, f: impl FnOnce(&mut AnnotationConfig)) -> (r:
        Self)
        requires
            forall|c: &mut AnnotationConfig|
                *c == (AnnotationConfig { style: TextStyle::plain(), line: None })
                    ==> call_requires(f, (c,)),
        ensures
            r.same_but_annotations(&self),
            r.annotations is Some,
            r.noted().len() == self.noted().len() + 1,
            r.noted().drop_last() == self.noted(),
            r.noted().last().element == annotation,
            exists|c: &mut AnnotationConfig|
                *c == (AnnotationConfig { style: TextStyle::plain(), line: None }) && *final(c)
                    == r.noted().last().configs && call_ensures(f, (c,), ()),
    {
        let mut configs = AnnotationConfig::default();
        f(&mut configs);
        self.note(annotation, configs)
    }

    /// Appends a configured annotation.
    fn note(self, annotation: Annotation, configs: AnnotationConfig) -> (r: Self)
        ensures
            r.same_but_annotations(&self),
            r.annotations is Some,
            r.noted() == self.noted().push(ConfiguredElement { element: annotation, configs }),
    {
        let mut me = self;
        let mut list: Vec<ConfiguredElement<Annotation, AnnotationConfig>> = match me.annotations {
            Some(v) => v,
            None => Vec::new(),
        };
        list.push(ConfiguredElement { element: annotation, configs });
        GraphBuilder {
            subject_configs: me.subject_configs,
            viewport: me.viewport,
            axis: me.axis,
            grid: me.grid,
            colorscheme: me.colorscheme,
            ticks: me.ticks,
            title: me.title,
            xlabel: me.xlabel,
            ylabel: me.ylabel,
            legend: me.legend,
            annotations: Some(list),
        }
    }

    /// The viewport that the graph will be drawn into.
    pub open spec fn chosen_viewport(&self) -> Viewport {
        match self.viewport {
            Some(v) => v,
            None => default_viewport(),
        }
    }

    /// Builds the configuration: the title and the axis labels are placed
    /// against the viewport, what was not said takes its default, and every
    /// colour left open is filled from the colour scheme.
    pub fn build(self) -> (r: Result<GraphConfig<C>, GraphBuilderError>)
        requires
            self.chosen_viewport().bounded(),
        ensures
            r matches Ok(cfg) && {
                &&& cfg.viewport == self.chosen_viewport()
                &&& self.colorscheme matches Some(s) ==> cfg.colorscheme == s
                &&& self.colorscheme is None ==> {
                    &&& cfg.colorscheme.background == matplotlib_light_colors().0
                    &&& cfg.colorscheme.text == matplotlib_light_colors().1
                    &&& cfg.colorscheme.grid == matplotlib_light_colors().2
                    &&& cfg.colorscheme.axis == matplotlib_light_colors().3
                    &&& cfg.colorscheme.cycle@ == matplotlib_light_colors().4
                }
                &&& cfg.title == placed_text(
                    self.title,
                    title_place(self.chosen_viewport()),
                    cfg.colorscheme,
                )
                &&& cfg.xlabel == placed_text(
                    self.xlabel,
                    xlabel_place(self.chosen_viewport()),
                    cfg.colorscheme,
                )
                &&& cfg.ylabel == placed_text(
                    self.ylabel,
                    ylabel_place(self.chosen_viewport()),
                    cfg.colorscheme,
                )
                &&& cfg.chrome_themed_from(
                    self.axis,
                    self.grid,
                    self.ticks,
                    self.legend,
                    self.annotations,
                )
                &&& exists|c: &mut C|
                    (match self.subject_configs {
                        Some(s) => *c == s,
                        None => call_ensures(C::default, (), *c),
                    }) && *final(c) == cfg.subject_configs && call_ensures(
                        C::apply_theme,
                        (c, &cfg.colorscheme),
                        (),
                    )
            },
    {
        let viewport: Viewport = match self.viewport {
            Some(v) => v,
            None => Viewport::default(),
        };
        let title = match self.title {
            Some((text, configs)) => Some(
                ConfiguredElement { element: TextLabel::new(text, title_origin(&viewport)), configs },
            ),
            None => None,
        };
        let xlabel = match self.xlabel {
            Some((text, configs)) => Some(
                ConfiguredElement { element: TextLabel::new(text, xlabel_origin(&viewport)), configs },
            ),
            None => None,
        };
        let ylabel = match self.ylabel {
            Some((text, configs)) => Some(
                ConfiguredElement { element: TextLabel::new(text, ylabel_origin(&viewport)), configs },
            ),
            None => None,
        };
        let subject_configs: C = match self.subject_configs {
            Some(c) => c,
            None => C::default(),
        };
        let colorscheme: Colorscheme = match self.colorscheme {
            Some(s) => s,
            None => Colorscheme::default(),
        };
        let config = GraphConfig {
            subject_configs,
            viewport,
            axis: self.axis,
            grid: self.grid,
            colorscheme,
            ticks: self.ticks,
            title,
            xlabel,
            ylabel,
            legend: self.legend,
            annotations: self.annotations,
        };
        Ok(config.resolve_theme())
    }
}

impl<C> GraphConfig<C> {
    /// Whether the axes, grid, ticks, legend and annotations of this
    /// configuration are the given ones with their open colours filled from
    /// the colour scheme of this configuration.
    pub open spec fn chrome_themed_from(
        &self,
        axis: Option<ConfiguredElement<Axis, AxisConfigs>>,
        grid: Option<ConfiguredElement<GridLines, GridLinesConfig>>,
        ticks: Option<ConfiguredElement<TickLabels, TickLabelsConfig>>,
        legend: Option<ConfiguredElement<Legend, LegendConfig>>,
        annotations: Option<Vec<ConfiguredElement<Annotation, AnnotationConfig>>>,
    ) -> bool {
        let scheme = self.colorscheme;
        &&& self.axis == match axis {
            Some(a) => Some(
                ConfiguredElement {
                    element: a.element,
                    configs: AxisConfigs {
                        color: Some(themed(a.configs.color, scheme.axis)),
                        ..a.configs
                    },
                },
            ),
            None => None,
        }
        &&& self.grid == match grid {
            Some(g) => Some(
                ConfiguredElement {
                    element: g.element,
                    configs: GridLinesConfig {
                        color: Some(themed(g.configs.color, scheme.grid)),
                        ..g.configs
                    },
                },
            ),
            None => None,
        }
        &&& self.ticks == match ticks {
            Some(t) => Some(
                ConfiguredElement {
                    element: t.element,
                    configs: TickLabelsConfig {
                        color: Some(themed(t.configs.color, scheme.axis)),
                        label_style: themed_text(t.configs.label_style, scheme),
                        ..t.configs
                    },
                },
            ),
            None => None,
        }
        &&& self.legend == match legend {
            Some(l) => Some(
                ConfiguredElement {
                    element: l.element,
                    configs: LegendConfig {
                        label_style: themed_text(l.configs.label_style, scheme),
                        ..l.configs
                    },
                },
            ),
            None => None,
        }
        &&& match annotations {
            Some(list) => self.annotations matches Some(mine) && mine@.len() == list@.len()
                && forall|i: int|
                0 <= i < list@.len() ==> (#[trigger] mine@[i]).element == list@[i].element
                    && mine@[i].configs == themed_annotation(list@[i].configs, scheme),
            None => self.annotations is None,
        }
    }
}

impl<C: Themable> GraphConfig<C> {
    /// Fills every colour that the chrome leaves open from the colour
    /// scheme, and lets the subject's configuration do the same.
    #[must_use]
    pub fn resolve_theme(self) -> (r: Self)
        ensures
            r.viewport == self.viewport,
            r.colorscheme == self.colorscheme,
            r.title == match self.title {
                Some(t) => Some(
                    ConfiguredElement {
                        element: t.element,
                        configs: themed_text(t.configs, self.colorscheme),
                    },
                ),
                None => None,
            },
            r.xlabel == match self.xlabel {
                Some(t) => Some(
                    ConfiguredElement {
                        element: t.element,
                        configs: themed_text(t.configs, self.colorscheme),
                    },
                ),
                None => None,
            },
            r.ylabel == match self.ylabel {
                Some(t) => Some(
                    ConfiguredElement {
                        element: t.element,
                        configs: themed_text(t.configs, self.colorscheme),
                    },
                ),
                None => None,
            },
            r.chrome_themed_from(self.axis, self.grid, self.ticks, self.legend, self.annotations),
            exists|c: &mut C|
                *c == self.subject_configs && *final(c) == r.subject_configs && call_ensures(
                    C::apply_theme,
                    (c, &self.colorscheme),
                    (),
                ),
    {
        let scheme = self.colorscheme;
        let axis = match self.axis {
            Some(a) => {
                let mut configs = a.configs;
                configs.apply_theme(&scheme);
                Some(ConfiguredElement { element: a.element, configs })
            },
            None => None,
        };
        let grid = match self.grid {
            Some(g) => {
                let mut configs = g.configs;
                configs.apply_theme(&scheme);
                Some(ConfiguredElement { element: g.element, configs })
            },
            None => None,
        };
        let ticks = match self.ticks {
            Some(t) => {
                let mut configs = t.configs;
                configs.apply_theme(&scheme);
                Some(ConfiguredElement { element: t.element, configs })
            },
            None => None,
        };
        let title = match self.title {
            Some(t) => {
                let mut configs = t.configs;
                configs.apply_theme(&scheme);
                Some(ConfiguredElement { element: t.element, configs })
            },
            None => None,
        };
        let xlabel = match self.xlabel {
            Some(t) => {
                let mut configs = t.configs;
                configs.apply_theme(&scheme);
                Some(ConfiguredElement { element: t.element, configs })
            },
            None => None,
        };
        let ylabel = match self.ylabel {
            Some(t) => {
                let mut configs = t.configs;
                configs.apply_theme(&scheme);
                Some(ConfiguredElement { element: t.element, configs })
            },
            None => None,
        };
        let legend = match self.legend {
            Some(l) => {
                let mut configs = l.configs;
                configs.apply_theme(&scheme);
                Some(ConfiguredElement { element: l.element, configs })
            },
            None => None,
        };
        let annotations = match self.annotations {
            Some(list) => Some(themed_annotations(list, &scheme)),
            None => None,
        };
        let mut subject_configs = self.subject_configs;
        subject_configs.apply_theme(&scheme);
        GraphConfig {
            subject_configs,
            viewport: self.viewport,
            axis,
            grid,
            colorscheme: scheme,
            ticks,
            title,
            xlabel,
            ylabel,
            legend,
            annotations,
        }
    }
}

impl<C> GraphConfig<C> {
    /// The box of data that the graph shows: that of the axes, where there
    /// are axes, else that of the subject.
    pub open spec fn shown_bounds(&self, subject_bounds: DataBBox) -> DataBBox {
        match self.axis {
            Some(a) => a.element.spec_data_bounds(),
            None => subject_bounds,
        }
    }

    /// The projection that the graph is drawn through: from the box of data
    /// that it shows into the inner box of its viewport.
    pub fn view(&self, subject_bounds: DataBBox) -> (r: ViewTransformer)
        requires
            self.viewport.bounded(),
        ensures
            r.data_bounds == self.shown_bounds(subject_bounds),
            r.screen_bounds.x == self.viewport.inner_min_x(),
            r.screen_bounds.y == self.viewport.inner_min_y(),
            r.screen_bounds.width == self.viewport.inner_max_x() - self.viewport.inner_min_x(),
            r.screen_bounds.height == self.viewport.inner_max_y() - self.viewport.inner_min_y(),
            r.screen_bounds.margins == (Margins { left: 0, right: 0, top: 0, bottom: 0 }),
    {
        let data = match &self.axis {
            Some(a) => a.element.data_bounds(),
            None => subject_bounds,
        };
        ViewTransformer::new(data, plot_viewport(&self.viewport))
    }
}

/// The annotations with their open colours filled from a scheme.
fn themed_annotations(
    list: Vec<ConfiguredElement<Annotation, AnnotationConfig>>,
    scheme: &Colorscheme,
) -> (r: Vec<ConfiguredElement<Annotation, AnnotationConfig>>)
    ensures
        r@.len() == list@.len(),
        forall|i: int|
            0 <= i < list@.len() ==> (#[trigger] r@[i]).element == list@[i].element && r@[i].configs
                == themed_annotation(list@[i].configs, *scheme),
{
    let mut rest = list;
    let mut out: Vec<ConfiguredElement<Annotation, AnnotationConfig>> = Vec::new();
    let ghost all = list@;
    while rest.len() > 0
        invariant
            rest@.len() + out@.len() == all.len(),
            forall|i: int| 0 <= i < rest@.len() ==> rest@[i] == all[out@.len() + i],
            forall|i: int|
                0 <= i < out@.len() ==> (#[trigger] out@[i]).element == all[i].element
                    && out@[i].configs == themed_annotation(all[i].configs, *scheme),
        decreases rest@.len(),
    {
        let next = rest.remove(0);
        let mut configs = next.configs;
        configs.apply_theme(scheme);
        out.push(ConfiguredElement { element: next.element, configs });
    }
    out
}

} // verus!
