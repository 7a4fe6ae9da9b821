//! How lines, axes, grids, ticks and points look.
//!
//! Every configuration has a default, can be changed field by field, and
//! takes the colour it leaves open from a [`Colorscheme`].

use vstd::prelude::*;
use crate::colorscheme::{themed, Color, Colorscheme, Themable};
use crate::line::{Separation, Visibility};
use crate::point::{Shape, Vector2};
use crate::text::{Anchor, HAlign, TextStyle, VAlign};
use crate::ticks::Scale;

verus! {

/// How a segment is drawn.
#[derive(Clone, Copy, Debug, PartialEq, Eq, Structural)]
pub struct LineConfig {
    /// Width of the line.
    pub thickness: i64,
    /// Colour of the line; `None` leaves it to the theme.
    pub color: Option<Color>,
    /// Whether an arrowhead is drawn at the end.
    pub arrow: Visibility,
    /// Length of the arrowhead along the line.
    pub arrow_length: i64,
    /// Half-width of the arrowhead across the line.
    pub arrow_width: i64,
}

impl LineConfig {
    /// The configuration of a plain line: one and a half wide, with an
    /// arrowhead four widths long and three and a half widths to either side.
    pub open spec fn plain() -> LineConfig {
        LineConfig {
            thickness: 1_500_000,
            color: None,
            arrow: Visibility::Visible,
            arrow_length: 6_000_000,
            arrow_width: 5_250_000,
        }
    }

    /// The colour that the line is drawn in: its own, or black where none is
    /// set.
    pub fn base_color(&self) -> (c: Color)
        ensures
            c == themed(self.color, Color { r: 0, g: 0, b: 0, a: 255 }),
    {
        match self.color {
            Some(c) => c,
            None => Color::black(),
        }
    }
}

impl Default for LineConfig {
    fn default() -> (r: Self)
        ensures
            r == LineConfig::plain(),
    {
        LineConfig {
            thickness: 1_500_000,
            color: None,
            arrow: Visibility::Visible,
            arrow_length: 6_000_000,
            arrow_width: 5_250_000,
        }
    }
}

/// How the pair of axis lines is drawn.
#[derive(Clone, Copy, Debug, PartialEq, Eq, Structural)]
pub struct AxisConfigs {
    /// Whether the x axis ends in an arrowhead.
    pub x_arrow: Visibility,
    /// Whether the y axis ends in an arrowhead.
    pub y_arrow: Visibility,
    /// Whether the x axis is drawn.
    pub x_axis: Visibility,
    /// Whether the y axis is drawn.
    pub y_axis: Visibility,
    /// Length of the arrowheads.
    pub arrow_length: i64,
    /// Half-width of the arrowheads.
    pub arrow_width: i64,
    /// Colour of the axes; `None` leaves it to the theme.
    pub color: Option<Color>,
    /// Width of the lines.
    pub thickness: i64,
}

impl AxisConfigs {
    /// The configuration of plain axes: both drawn, both with arrowheads,
    /// two wide.
    pub open spec fn plain() -> AxisConfigs {
        AxisConfigs {
            x_arrow: Visibility::Visible,
            y_arrow: Visibility::Visible,
            x_axis: Visibility::Visible,
            y_axis: Visibility::Visible,
            arrow_length: 8_000_000,
            arrow_width: 8_000_000,
            color: None,
            thickness: 2_000_000,
        }
    }

    /// The same axes without arrowheads.
    #[must_use]
    pub fn strip_both_arrows(self) -> (r: Self)
        ensures
            r == (AxisConfigs {
                x_arrow: Visibility::Invisible,
                y_arrow: Visibility::Invisible,
                ..self
            }),
    {
        AxisConfigs { x_arrow: Visibility::Invisible, y_arrow: Visibility::Invisible, ..self }
    }

    /// The same axes without the arrowhead of the y axis.
    #[must_use]
    pub fn strip_y_arrow(self) -> (r: Self)
        ensures
            r == (AxisConfigs { y_arrow: Visibility::Invisible, ..self }),
    {
        AxisConfigs { y_arrow: Visibility::Invisible, ..self }
    }

    /// The same axes without the arrowhead of the x axis.
    #[must_use]
    pub fn strip_x_arrow(self) -> (r: Self)
        ensures
            r == (AxisConfigs { x_arrow: Visibility::Invisible, ..self }),
    {
        AxisConfigs { x_arrow: Visibility::Invisible, ..self }
    }

    /// Neither axis is drawn, and so neither arrowhead.
    #[must_use]
    pub fn strip_both_axis(self) -> (r: Self)
        ensures
            r == (AxisConfigs {
                x_axis: Visibility::Invisible,
                y_axis: Visibility::Invisible,
                x_arrow: Visibility::Invisible,
                y_arrow: Visibility::Invisible,
                ..self
            }),
    {
        AxisConfigs {
            x_axis: Visibility::Invisible,
            y_axis: Visibility::Invisible,
            x_arrow: Visibility::Invisible,
            y_arrow: Visibility::Invisible,
            ..self
        }
    }

    /// The y axis is not drawn, and so not its arrowhead.
    #[must_use]
    pub fn strip_y_axis(self) -> (r: Self)
        ensures
            r == (AxisConfigs {
                y_axis: Visibility::Invisible,
                y_arrow: Visibility::Invisible,
                ..self
            }),
    {
        AxisConfigs { y_axis: Visibility::Invisible, y_arrow: Visibility::Invisible, ..self }
    }

    /// The x axis is not drawn, and so not its arrowhead.
    #[must_use]
    pub fn strip_x_axis(self) -> (r: Self)
        ensures
            r == (AxisConfigs {
                x_axis: Visibility::Invisible,
                x_arrow: Visibility::Invisible,
                ..self
            }),
    {
        AxisConfigs { x_axis: Visibility::Invisible, x_arrow: Visibility::Invisible, ..self }
    }

    /// How the line of the x axis is drawn.
    pub fn x_line(&self) -> (r: LineConfig)
        ensures
            r == (LineConfig {
                thickness: self.thickness,
                color: self.color,
                arrow: self.x_arrow,
                arrow_length: self.arrow_length,
                arrow_width: self.arrow_width,
            }),
    {
        LineConfig {
            thickness: self.thickness,
            color: self.color,
            arrow: self.x_arrow,
            arrow_length: self.arrow_length,
            arrow_width: self.arrow_width,
        }
    }

    /// How the line of the y axis is drawn.
    pub fn y_line(&self) -> (r: LineConfig)
        ensures
            r == (LineConfig {
                thickness: self.thickness,
                color: self.color,
                arrow: self.y_arrow,
                arrow_length: self.arrow_length,
                arrow_width: self.arrow_width,
            }),
    {
        LineConfig {
            thickness: self.thickness,
            color: self.color,
            arrow: self.y_arrow,
            arrow_length: self.arrow_length,
            arrow_width: self.arrow_width,
        }
    }
}

impl Default for AxisConfigs {
    fn default() -> (r: Self)
        ensures
            r == AxisConfigs::plain(),
    {
        AxisConfigs {
            x_arrow: Visibility::Visible,
            y_arrow: Visibility::Visible,
            x_axis: Visibility::Visible,
            y_axis: Visibility::Visible,
            arrow_length: 8_000_000,
            arrow_width: 8_000_000,
            color: None,
            thickness: 2_000_000,
        }
    }
}

impl Themable for AxisConfigs {
    fn apply_theme(&mut self, scheme: &Colorscheme)
        ensures
            *final(self) == (AxisConfigs {
                color: Some(themed(old(self).color, scheme.axis)),
                ..*old(self)
            }),
    {
        if self.color.is_none() {
            self.color = Some(scheme.axis);
        }
    }
}

/// How grid lines are drawn.
#[derive(Clone, Copy, Debug, PartialEq, Eq, Structural)]
pub struct GridLinesConfig {
    /// Colour of the grid; `None` leaves it to the theme.
    pub color: Option<Color>,
    /// Opacity applied on top of the colour's own.
    pub alpha: i64,
    /// Width of the lines.
    pub thickness: i64,
    /// Number of lines per axis to aim for.
    pub max_ticks: usize,
}

impl GridLinesConfig {
    /// The configuration of a plain grid: faint lines, one wide, about ten
    /// to an axis.
    pub open spec fn plain() -> GridLinesConfig {
        GridLinesConfig { color: None, alpha: 300_000, thickness: 1_000_000, max_ticks: 10 }
    }
}

impl Default for GridLinesConfig {
    fn default() -> (r: Self)
        ensures
            r == GridLinesConfig::plain(),
    {
        GridLinesConfig { color: None, alpha: 300_000, thickness: 1_000_000, max_ticks: 10 }
    }
}

impl Themable for GridLinesConfig {
    fn apply_theme(&mut self, scheme: &Colorscheme)
        ensures
            *final(self) == (GridLinesConfig {
                color: Some(themed(old(self).color, scheme.grid)),
                ..*old(self)
            }),
    {
        if self.color.is_none() {
            self.color = Some(scheme.grid);
        }
    }
}

/// How tick marks and their labels are drawn.
#[derive(Clone, Copy, Debug, PartialEq, Eq, Structural)]
pub struct TickLabelsConfig {
    /// Colour of the marks; `None` leaves it to the theme.
    pub color: Option<Color>,
    /// Opacity of the marks.
    pub alpha: i64,
    /// Length of the mark of a major tick.
    pub major_size: i64,
    /// Length of the mark of a minor tick.
    pub minor_size: i64,
    /// Number of ticks per axis to aim for.
    pub max_ticks: usize,
    /// Spacing between ticks.
    pub separation: Separation,
    /// Whether the x axis gets ticks.
    pub x_axis: Visibility,
    /// Scale of the ticks of the x axis.
    pub x_axis_scale: Scale,
    /// Whether the y axis gets ticks.
    pub y_axis: Visibility,
    /// Scale of the ticks of the y axis.
    pub y_axis_scale: Scale,
    /// Whether labels are drawn next to the marks.
    pub show_labels: bool,
    /// Style of the labels.
    pub label_style: TextStyle,
    /// Gap between a mark and its label.
    pub label_offset: i64,
    /// Rotation of the labels of the x axis, in degrees.
    pub label_rotation: i64,
}

impl TickLabelsConfig {
    /// The configuration of plain ticks: linear on both axes, about ten to
    /// an axis, labelled in size fourteen.
    pub open spec fn plain() -> TickLabelsConfig {
        TickLabelsConfig {
            color: None,
            alpha: 1_000_000,
            major_size: 7_000_000,
            minor_size: 5_000_000,
            max_ticks: 10,
            separation: Separation::Auto,
            x_axis: Visibility::Visible,
            x_axis_scale: Scale::Linear,
            y_axis: Visibility::Visible,
            y_axis_scale: Scale::Linear,
            show_labels: true,
            label_style: TextStyle {
                font_size: 14_000_000,
                alpha: 1_000_000,
                color: None,
                spacing: 1_000_000,
                anchor: Anchor { h: HAlign::Center, v: VAlign::Top },
                rotation: 0,
                offset: Vector2 { x: 0, y: 0 },
            },
            label_offset: 4_000_000,
            label_rotation: 0,
        }
    }

    /// Ticks on the x axis, along the given scale.
    #[must_use]
    pub fn with_x_scale(self, scale: Scale) -> (r: Self)
        ensures
            r == (TickLabelsConfig { x_axis: Visibility::Visible, x_axis_scale: scale, ..self }),
    {
        TickLabelsConfig { x_axis: Visibility::Visible, x_axis_scale: scale, ..self }
    }

    /// Ticks on the y axis, along the given scale.
    #[must_use]
    pub fn with_y_scale(self, scale: Scale) -> (r: Self)
        ensures
            r == (TickLabelsConfig { y_axis: Visibility::Visible, y_axis_scale: scale, ..self }),
    {
        TickLabelsConfig { y_axis: Visibility::Visible, y_axis_scale: scale, ..self }
    }

    /// Ticks on both axes, along the given scale.
    #[must_use]
    pub fn with_both_axis_scale(self, scale: Scale) -> (r: Self)
        ensures
            r == (TickLabelsConfig {
                y_axis: Visibility::Visible,
                y_axis_scale: scale,
                x_axis: Visibility::Visible,
                x_axis_scale: scale,
                ..self
            }),
    {
        TickLabelsConfig {
            y_axis: Visibility::Visible,
            y_axis_scale: scale,
            x_axis: Visibility::Visible,
            x_axis_scale: scale,
            ..self
        }
    }

    /// No ticks on the x axis.
    #[must_use]
    pub fn strip_x_axis(self) -> (r: Self)
        ensures
            r == (TickLabelsConfig { x_axis: Visibility::Invisible, ..self }),
    {
        TickLabelsConfig { x_axis: Visibility::Invisible, ..self }
    }

    /// No ticks on the y axis.
    #[must_use]
    pub fn strip_y_axis(self) -> (r: Self)
        ensures
            r == (TickLabelsConfig { y_axis: Visibility::Invisible, ..self }),
    {
        TickLabelsConfig { y_axis: Visibility::Invisible, ..self }
    }

    /// The length of the mark of a tick of the given rank.
    pub fn mark_length(&self, major: bool) -> (r: i64)
        ensures
            r == if major {
                self.major_size
            } else {
                self.minor_size
            },
    {
        if major {
            self.major_size
        } else {
            self.minor_size
        }
    }

    /// The style of the labels of the x axis: the label style, held at the
    /// middle of the top edge and turned by the label rotation.
    pub fn x_label_style(&self) -> (r: TextStyle)
        ensures
            r == (TextStyle {
                anchor: Anchor { h: HAlign::Center, v: VAlign::Top },
                rotation: self.label_rotation,
                ..self.label_style
            }),
    {
        TextStyle {
            anchor: Anchor::top_center(),
            rotation: self.label_rotation,
            ..self.label_style
        }
    }

    /// The style of the labels of the y axis: the label style, held at the
    /// middle of the right edge.
    pub fn y_label_style(&self) -> (r: TextStyle)
        ensures
            r == (TextStyle {
                anchor: Anchor { h: HAlign::Right, v: VAlign::Middle },
                ..self.label_style
            }),
    {
        TextStyle { anchor: Anchor::right_middle(), ..self.label_style }
    }
}

impl Default for TickLabelsConfig {
    fn default() -> (r: Self)
        ensures
            r == TickLabelsConfig::plain(),
    {
        TickLabelsConfig {
            color: None,
            alpha: 1_000_000,
            major_size: 7_000_000,
            minor_size: 5_000_000,
            max_ticks: 10,
            separation: Separation::Auto,
            x_axis: Visibility::Visible,
            x_axis_scale: Scale::Linear,
            y_axis: Visibility::Visible,
            y_axis_scale: Scale::Linear,
            show_labels: true,
            label_style: TextStyle {
                font_size: 14_000_000,
                alpha: 1_000_000,
                color: None,
                spacing: 1_000_000,
                anchor: Anchor::top_center(),
                rotation: 0,
                offset: Vector2::new(0, 0),
            },
            label_offset: 4_000_000,
            label_rotation: 0,
        }
    }
}

impl Themable for TickLabelsConfig {
    fn apply_theme(&mut self, scheme: &Colorscheme)
        ensures
            *final(self) == (TickLabelsConfig {
                color: Some(themed(old(self).color, scheme.axis)),
                label_style: TextStyle {
                    color: Some(themed(old(self).label_style.color, scheme.text)),
                    ..old(self).label_style
                },
                ..*old(self)
            }),
    {
        if self.color.is_none() {
            self.color = Some(scheme.axis);
        }
        let mut style = self.label_style;
        style.apply_theme(scheme);
        self.label_style = style;
    }
}

/// How a single point is drawn.
#[derive(Clone, Copy, Debug, PartialEq, Eq, Structural)]
pub struct PointConfig {
    /// Fill colour.
    pub color: Color,
    /// Radius of a circle, or half the extent of another shape.
    pub size: i64,
    /// Shape of the marker.
    pub shape: Shape,
}

impl PointConfig {
    /// The configuration of a plain point: a red circle of radius ten.
    pub open spec fn plain() -> PointConfig {
        PointConfig {
            color: Color { r: 230, g: 41, b: 55, a: 255 },
            size: 10_000_000,
            shape: Shape::Circle,
        }
    }

    /// The same point in another colour.
    pub fn color(self, color: Color) -> (r: Self)
        ensures
            r == (PointConfig { color, ..self }),
    {
        PointConfig { color, ..self }
    }

    /// The same point in another size.
    pub fn size(self, size: i64) -> (r: Self)
        ensures
            r == (PointConfig { size, ..self }),
    {
        PointConfig { size, ..self }
    }

    /// The same point in another shape.
    pub fn shape(self, shape: Shape) -> (r: Self)
        ensures
            r == (PointConfig { shape, ..self }),
    {
        PointConfig { shape, ..self }
    }
}

impl Default for PointConfig {
    fn default() -> (r: Self)
        ensures
            r == PointConfig::plain(),
    {
        PointConfig { color: Color::red(), size: 10_000_000, shape: Shape::Circle }
    }
}

} // verus!
