//! Anchoring of text boxes.

use vstd::prelude::*;
use crate::colorscheme::{themed, Color, Colorscheme, Themable};
use crate::fixed::{div_floor, in_domain};
use crate::point::{Screenpoint, Vector2};

verus! {

/// Horizontal alignment of a text box against its anchor point.
#[derive(Clone, Copy, Debug, PartialEq, Eq, Structural)]
pub enum HAlign {
    Left,
    Center,
    Right,
}

/// Vertical alignment of a text box against its anchor point.
#[derive(Clone, Copy, Debug, PartialEq, Eq, Structural)]
pub enum VAlign {
    Top,
    Middle,
    Bottom,
}

/// Where a text box is held: one alignment for each axis.
#[derive(Clone, Copy, Debug, PartialEq, Eq, Structural)]
pub struct Anchor {
    /// Horizontal alignment.
    pub h: HAlign,
    /// Vertical alignment.
    pub v: VAlign,
}

impl Anchor {
    /// Held at the centre.
    pub fn center() -> (r: Self)
        ensures
            r == (Anchor { h: HAlign::Center, v: VAlign::Middle }),
    {
        Anchor { h: HAlign::Center, v: VAlign::Middle }
    }

    /// Held at the middle of the top edge.
    pub fn top_center() -> (r: Self)
        ensures
            r == (Anchor { h: HAlign::Center, v: VAlign::Top }),
    {
        Anchor { h: HAlign::Center, v: VAlign::Top }
    }

    /// Held at the top-left corner.
    pub fn top_left() -> (r: Self)
        ensures
            r == (Anchor { h: HAlign::Left, v: VAlign::Top }),
    {
        Anchor { h: HAlign::Left, v: VAlign::Top }
    }

    /// Held at the middle of the right edge.
    pub fn right_middle() -> (r: Self)
        ensures
            r == (Anchor { h: HAlign::Right, v: VAlign::Middle }),
    {
        Anchor { h: HAlign::Right, v: VAlign::Middle }
    }

    /// Held at the middle of the left edge.
    pub fn left_middle() -> (r: Self)
        ensures
            r == (Anchor { h: HAlign::Left, v: VAlign::Middle }),
    {
        Anchor { h: HAlign::Left, v: VAlign::Middle }
    }

    /// Held at the middle of the bottom edge.
    pub fn center_bottom() -> (r: Self)
        ensures
            r == (Anchor { h: HAlign::Center, v: VAlign::Bottom }),
    {
        Anchor { h: HAlign::Center, v: VAlign::Bottom }
    }
}

/// The horizontal shift of a text box of the given size under an alignment.
pub open spec fn anchor_shift_x(size: Vector2, h: HAlign) -> int {
    match h {
        HAlign::Left => 0,
        HAlign::Center => size.x / 2,
        HAlign::Right => size.y as int,
    }
}

/// The vertical shift of a text box of the given size under an alignment.
pub open spec fn anchor_shift_y(size: Vector2, v: VAlign) -> int {
    match v {
        VAlign::Top => 0,
        VAlign::Middle => size.y / 2,
        VAlign::Bottom => size.y as int,
    }
}

/// The shift of a text box of size `text_specs` held at `anchor`, plus the
/// given offsets.
#[must_use]
pub fn anchor_text_top_left(text_specs: Vector2, anchor: Anchor, offsets: Vector2) -> (r: Vector2)
    requires
        in_domain(text_specs.x as int),
        in_domain(text_specs.y as int),
        in_domain(offsets.x as int),
        in_domain(offsets.y as int),
    ensures
        r.x == anchor_shift_x(text_specs, anchor.h) + offsets.x,
        r.y == anchor_shift_y(text_specs, anchor.v) + offsets.y,
        -2 * crate::fixed::COORD_MAX <= r.x <= 2 * crate::fixed::COORD_MAX,
        -2 * crate::fixed::COORD_MAX <= r.y <= 2 * crate::fixed::COORD_MAX,
{
    proof {
        crate::fixed::lemma_quotient_size(text_specs.x as int, 2);
        crate::fixed::lemma_quotient_size(text_specs.y as int, 2);
    }
    let x: i64 = match anchor.h {
        HAlign::Left => 0,
        HAlign::Center => div_floor(text_specs.x as i128, 2) as i64,
        HAlign::Right => text_specs.y,
    };
    let y: i64 = match anchor.v {
        VAlign::Top => 0,
        VAlign::Middle => div_floor(text_specs.y as i128, 2) as i64,
        VAlign::Bottom => text_specs.y,
    };
    Vector2 { x: x + offsets.x, y: y + offsets.y }
}

/// Everything about the look of a piece of text but the font.
#[derive(Clone, Copy, Debug, PartialEq, Eq, Structural)]
pub struct TextStyle {
    /// Height of the text.
    pub font_size: i64,
    /// Opacity, from zero to one.
    pub alpha: i64,
    /// Colour of the text; `None` leaves it to the theme.
    pub color: Option<Color>,
    /// Distance between letters.
    pub spacing: i64,
    /// Where the text box is held.
    pub anchor: Anchor,
    /// Rotation in degrees.
    pub rotation: i64,
    /// Shift applied after the anchor.
    pub offset: Vector2,
}

impl TextStyle {
    /// The style of plain text: size twenty, opaque, held at the centre.
    pub open spec fn plain() -> TextStyle {
        TextStyle {
            font_size: 20_000_000,
            alpha: 1_000_000,
            color: None,
            spacing: 1_000_000,
            anchor: Anchor { h: HAlign::Center, v: VAlign::Middle },
            rotation: 0,
            offset: Vector2 { x: 0, y: 0 },
        }
    }

    /// The same style with another font size.
    pub fn font_size(self, font_size: i64) -> (r: Self)
        ensures
            r == (TextStyle { font_size, ..self }),
    {
        TextStyle { font_size, ..self }
    }

    /// The same style with another opacity.
    pub fn alpha(self, alpha: i64) -> (r: Self)
        ensures
            r == (TextStyle { alpha, ..self }),
    {
        TextStyle { alpha, ..self }
    }

    /// The same style with the given colour.
    pub fn color(self, color: Color) -> (r: Self)
        ensures
            r == (TextStyle { color: Some(color), ..self }),
    {
        TextStyle { color: Some(color), ..self }
    }

    /// The same style with another letter spacing.
    pub fn spacing(self, spacing: i64) -> (r: Self)
        ensures
            r == (TextStyle { spacing, ..self }),
    {
        TextStyle { spacing, ..self }
    }

    /// The same style held at another anchor.
    pub fn anchor(self, anchor: Anchor) -> (r: Self)
        ensures
            r == (TextStyle { anchor, ..self }),
    {
        TextStyle { anchor, ..self }
    }

    /// The same style with another rotation.
    pub fn rotation(self, rotation: i64) -> (r: Self)
        ensures
            r == (TextStyle { rotation, ..self }),
    {
        TextStyle { rotation, ..self }
    }

    /// The same style with another offset.
    pub fn offset(self, offset: Vector2) -> (r: Self)
        ensures
            r == (TextStyle { offset, ..self }),
    {
        TextStyle { offset, ..self }
    }

    /// Whether text of this style is drawn without rotation.
    pub fn is_upright(&self) -> (r: bool)
        ensures
            r == (self.rotation == 0),
    {
        self.rotation == 0
    }

    /// The colour that text of this style is drawn in before its opacity is
    /// applied: its own, or black where none is set.
    pub fn base_color(&self) -> (c: Color)
        ensures
            c == themed(self.color, Color { r: 0, g: 0, b: 0, a: 255 }),
    {
        match self.color {
            Some(c) => c,
            None => Color::black(),
        }
    }
}

impl Default for TextStyle {
    fn default() -> (r: Self)
        ensures
            r == TextStyle::plain(),
    {
        TextStyle {
            font_size: 20_000_000,
            alpha: 1_000_000,
            color: None,
            spacing: 1_000_000,
            anchor: Anchor::center(),
            rotation: 0,
            offset: Vector2::new(0, 0),
        }
    }
}

impl Themable for TextStyle {
    fn apply_theme(&mut self, scheme: &Colorscheme)
        ensures
            *final(self) == (TextStyle {
                color: Some(themed(old(self).color, scheme.text)),
                ..*old(self)
            }),
    {
        if self.color.is_none() {
            self.color = Some(scheme.text);
        }
    }
}

/// A string of text held at a point of the screen.
#[derive(Clone, Debug)]
pub struct TextLabel {
    /// The text.
    pub text: String,
    /// Where it is held.
    pub position: Screenpoint,
}

impl TextLabel {
    /// The text held at the given position.
    #[must_use]
    pub fn new(text: String, position: Screenpoint) -> (r: Self)
        ensures
            r.text == text,
            r.position == position,
    {
        TextLabel { text, position }
    }

    /// Where the top-left corner of the text goes, given the measured size of
    /// the text: the anchor shift and offset of the style, from the position.
    pub fn top_left(&self, size: Vector2, style: &TextStyle) -> (r: Vector2)
        requires
            in_domain(size.x as int),
            in_domain(size.y as int),
            in_domain(style.offset.x as int),
            in_domain(style.offset.y as int),
            -4 * crate::fixed::COORD_MAX <= self.position.x <= 4 * crate::fixed::COORD_MAX,
            -4 * crate::fixed::COORD_MAX <= self.position.y <= 4 * crate::fixed::COORD_MAX,
        ensures
            r.x == anchor_shift_x(size, style.anchor.h) + style.offset.x + self.position.x,
            r.y == anchor_shift_y(size, style.anchor.v) + style.offset.y + self.position.y,
    {
        let shift = anchor_text_top_left(size, style.anchor, style.offset);
        Vector2::new(shift.x + self.position.x, shift.y + self.position.y)
    }
}

} // verus!
