//! Text annotations with an optional leader line to a data point.

use vstd::prelude::*;
use crate::colorscheme::{themed, Color, Colorscheme, Themable};
use crate::fixed::in_domain;
use crate::line::Visibility;
use crate::point::{Datapoint, Screenpoint};
use crate::style::LineConfig;
use crate::text::TextStyle;
use crate::view::{representable, ViewTransformer};

verus! {

/// Where the text of an annotation is placed.
#[derive(Clone, Copy, Debug, PartialEq, Eq, Structural)]
pub enum AnnotationPosition {
    /// A position in data coordinates, projected when the chart is drawn.
    Data(Datapoint),
    /// A position in screen coordinates.
    Screen(Screenpoint),
}

/// A text annotation placed at a position.
#[derive(Clone, Debug)]
pub struct Annotation {
    pub text: String,
    pub position: AnnotationPosition,
}

/// How the leader line of an annotation is drawn, and where it points.
#[derive(Clone, Copy, Debug, PartialEq, Eq, Structural)]
pub struct AnnotLineConfig {
    /// Width of the line.
    pub thickness: i64,
    /// Colour of the line; `None` leaves it to the theme.
    pub color: Option<Color>,
    /// Whether the line ends in an arrowhead.
    pub arrow: Visibility,
    /// Length of the arrowhead.
    pub arrow_length: i64,
    /// Half-width of the arrowhead.
    pub arrow_width: i64,
    /// The data point that the line points to.
    pub target: Datapoint,
}

impl AnnotLineConfig {
    /// The plain leader line to a target: one and a half wide, with an
    /// arrowhead six long and five and a quarter to either side.
    pub open spec fn towards(target: Datapoint) -> AnnotLineConfig {
        AnnotLineConfig {
            thickness: 1_500_000,
            color: None,
            arrow: Visibility::Visible,
            arrow_length: 6_000_000,
            arrow_width: 5_250_000,
            target,
        }
    }

    /// The plain leader line to a target.
    pub fn new(target: Datapoint) -> (r: Self)
        ensures
            r == AnnotLineConfig::towards(target),
    {
        AnnotLineConfig {
            thickness: 1_500_000,
            color: None,
            arrow: Visibility::Visible,
            arrow_length: 6_000_000,
            arrow_width: 5_250_000,
            target,
        }
    }

    /// How the leader line is drawn as a segment.
    pub fn line_config(&self) -> (r: LineConfig)
        ensures
            r == (LineConfig {
                thickness: self.thickness,
                color: self.color,
                arrow: self.arrow,
                arrow_length: self.arrow_length,
                arrow_width: self.arrow_width,
            }),
    {
        LineConfig {
            thickness: self.thickness,
            color: self.color,
            arrow: self.arrow,
            arrow_length: self.arrow_length,
            arrow_width: self.arrow_width,
        }
    }
}

/// How an annotation is drawn.
#[derive(Clone, Copy, Debug, PartialEq, Eq, Structural)]
pub struct AnnotationConfig {
    /// Style of the text.
    pub style: TextStyle,
    /// The leader line, if there is one.
    pub line: Option<AnnotLineConfig>,
}

impl AnnotationConfig {
    /// The same configuration with a leader line to `target`: the line it
    /// has is turned to the target, or else it gets a thin line with a small
    /// arrowhead.
    pub fn with_target(self, target: Datapoint) -> (r: Self)
        ensures
            r.style == self.style,
            r.line == Some(
                match self.line {
                    Some(line) => AnnotLineConfig { target, ..line },
                    None => AnnotLineConfig {
                        thickness: 1_500_000,
                        color: None,
                        arrow: Visibility::Visible,
                        arrow_length: 1_500_000,
                        arrow_width: 1_500_000,
                        target,
                    },
                },
            ),
    {
        let line = match self.line {
            Some(line) => AnnotLineConfig { target, ..line },
            None => AnnotLineConfig {
                thickness: 1_500_000,
                color: None,
                arrow: Visibility::Visible,
                arrow_length: 1_500_000,
                arrow_width: 1_500_000,
                target,
            },
        };
        AnnotationConfig { style: self.style, line: Some(line) }
    }
}

impl Default for AnnotationConfig {
    fn default() -> (r: Self)
        ensures
            r == (AnnotationConfig { style: TextStyle::plain(), line: None }),
    {
        AnnotationConfig { style: TextStyle::default(), line: None }
    }
}

impl Themable for AnnotationConfig {
    fn apply_theme(&mut self, scheme: &Colorscheme)
        ensures
            final(self).style == (TextStyle {
                color: Some(themed(old(self).style.color, scheme.text)),
                ..old(self).style
            }),
            final(self).line == match old(self).line {
                Some(line) => Some(
                    AnnotLineConfig {
                        color: Some(themed(line.color, themed(old(self).style.color, scheme.text))),
                        ..line
                    },
                ),
                None => None,
            },
    {
        let mut style = self.style;
        style.apply_theme(scheme);
        self.style = style;
        match self.line {
            Some(line) => {
                if line.color.is_none() {
                    self.line = Some(AnnotLineConfig { color: style.color, ..line });
                }
            },
            None => {},
        }
    }
}

impl Annotation {
    /// The annotation at a position in data coordinates.
    #[must_use]
    pub fn at_data(text: String, point: Datapoint) -> (r: Self)
        ensures
            r.text == text,
            r.position == AnnotationPosition::Data(point),
    {
        Annotation { text, position: AnnotationPosition::Data(point) }
    }

    /// The annotation at a fixed position on the screen.
    #[must_use]
    pub fn at_screen(text: String, point: Screenpoint) -> (r: Self)
        ensures
            r.text == text,
            r.position == AnnotationPosition::Screen(point),
    {
        Annotation { text, position: AnnotationPosition::Screen(point) }
    }

    /// Where the annotation is held on the screen: a data position goes
    /// through the projection, a screen position stays. The result is `None`
    /// where a data position falls too far off the screen for a screen point
    /// to hold it.
    pub fn origin(&self, view: &ViewTransformer) -> (r: Option<Screenpoint>)
        requires
            view.bounded(),
            self.position matches AnnotationPosition::Data(p) ==> in_domain(p.x as int)
                && in_domain(p.y as int),
        ensures
            match self.position {
                AnnotationPosition::Screen(p) => r == Some(p),
                AnnotationPosition::Data(p) => {
                    &&& r.is_some() <==> representable(view.screen_x(p.x as int))
                        && representable(view.screen_y(p.y as int))
                    &&& r matches Some(s) ==> s.x == view.screen_x(p.x as int) && s.y
                        == view.screen_y(p.y as int)
                },
            },
    {
        match self.position {
            AnnotationPosition::Data(p) => view.to_screen(&p),
            AnnotationPosition::Screen(p) => Some(p),
        }
    }
}

} // verus!
