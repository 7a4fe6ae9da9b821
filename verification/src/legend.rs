//! Legends: rows of a colour swatch and a label.

use vstd::prelude::*;
use crate::colorscheme::{themed, Color, Colorscheme, Themable};
use crate::layout::{
    is_length, legend_corner, legend_origin, legend_row, legend_size, max_label_width, widest,
    LegendMetrics, LegendPosition, LegendRow, ROWS_MAX, SCREEN_MAX,
};
use crate::point::{Shape, Vector2};
use crate::text::{Anchor, HAlign, TextStyle, VAlign};
use crate::view::ScreenBBox;

verus! {

/// One entry of a legend: a label with the colour and shape of its swatch.
#[derive(Clone, Debug)]
pub struct LegendEntry {
    /// Text of the entry.
    pub label: String,
    /// Colour of the swatch.
    pub color: Color,
    /// Shape of the swatch.
    pub shape: Shape,
}

impl LegendEntry {
    /// The entry with the given label and colour and a round swatch.
    #[must_use]
    pub fn new(label: String, color: Color) -> (r: Self)
        ensures
            r.label == label,
            r.color == color,
            r.shape == Shape::Circle,
    {
        LegendEntry { label, color, shape: Shape::Circle }
    }

    /// The same entry with a swatch of another shape.
    #[must_use]
    pub fn with_shape(self, shape: Shape) -> (r: Self)
        ensures
            r.label == self.label,
            r.color == self.color,
            r.shape == shape,
    {
        LegendEntry { label: self.label, color: self.color, shape }
    }
}

/// A legend: its entries from top to bottom.
#[derive(Clone, Debug)]
pub struct Legend {
    pub entries: Vec<LegendEntry>,
}

impl Default for Legend {
    fn default() -> (r: Self)
        ensures
            r.entries@.len() == 0,
    {
        Legend { entries: Vec::new() }
    }
}

/// The border of a legend box.
#[derive(Clone, Copy, Debug, PartialEq, Eq, Structural)]
pub struct Border {
    /// Colour of the border.
    pub color: Color,
    /// Width of the border.
    pub thickness: i64,
}

/// How a legend is laid out and drawn.
#[derive(Clone, Copy, Debug, PartialEq, Eq, Structural)]
pub struct LegendConfig {
    /// Where the box is anchored.
    pub position: LegendPosition,
    /// Style of the labels.
    pub label_style: TextStyle,
    /// Fill behind the box; `None` draws none.
    pub background: Option<Color>,
    /// Padding inside the box.
    pub padding: i64,
    /// Vertical distance between neighbouring entries.
    pub entry_spacing: i64,
    /// Size of the swatch.
    pub indicator_size: i64,
    /// Gap between the swatch and the label.
    pub indicator_gap: i64,
    /// The border; `None` draws none.
    pub border: Option<Border>,
}

impl LegendConfig {
    /// The configuration of a plain legend: in the upper right corner, on a
    /// translucent black ground, labelled in size fourteen from the top left.
    pub open spec fn plain() -> LegendConfig {
        LegendConfig {
            position: LegendPosition::TopRight,
            label_style: TextStyle {
                font_size: 14_000_000,
                alpha: 1_000_000,
                color: None,
                spacing: 1_000_000,
                anchor: Anchor { h: HAlign::Left, v: VAlign::Top },
                rotation: 0,
                offset: Vector2 { x: 0, y: 0 },
            },
            background: Some(Color { r: 0, g: 0, b: 0, a: 140 }),
            padding: 8_000_000,
            entry_spacing: 4_000_000,
            indicator_size: 8_000_000,
            indicator_gap: 6_000_000,
            border: None,
        }
    }

    /// The sizes that lay the legend out; a row is as high as the labels'
    /// font.
    pub open spec fn spec_metrics(&self) -> LegendMetrics {
        LegendMetrics {
            padding: self.padding,
            entry_spacing: self.entry_spacing,
            indicator_size: self.indicator_size,
            indicator_gap: self.indicator_gap,
            row_height: self.label_style.font_size,
        }
    }

    /// The sizes that lay the legend out.
    pub fn metrics(&self) -> (r: LegendMetrics)
        ensures
            r == self.spec_metrics(),
    {
        LegendMetrics {
            padding: self.padding,
            entry_spacing: self.entry_spacing,
            indicator_size: self.indicator_size,
            indicator_gap: self.indicator_gap,
            row_height: self.label_style.font_size,
        }
    }
}

impl Default for LegendConfig {
    fn default() -> (r: Self)
        ensures
            r == LegendConfig::plain(),
    {
        LegendConfig {
            position: LegendPosition::TopRight,
            label_style: TextStyle {
                font_size: 14_000_000,
                alpha: 1_000_000,
                color: None,
                spacing: 1_000_000,
                anchor: Anchor::top_left(),
                rotation: 0,
                offset: Vector2::new(0, 0),
            },
            background: Some(Color::new(0, 0, 0, 140)),
            padding: 8_000_000,
            entry_spacing: 4_000_000,
            indicator_size: 8_000_000,
            indicator_gap: 6_000_000,
            border: None,
        }
    }
}

impl Themable for LegendConfig {
    fn apply_theme(&mut self, scheme: &Colorscheme)
        ensures
            *final(self) == (LegendConfig {
                label_style: TextStyle {
                    color: Some(themed(old(self).label_style.color, scheme.text)),
                    ..old(self).label_style
                },
                ..*old(self)
            }),
    {
        let mut style = self.label_style;
        style.apply_theme(scheme);
        self.label_style = style;
    }
}

/// Where a legend goes: the top-left corner and the size of its box, and the
/// geometry of its rows from top to bottom.
#[derive(Clone, Debug)]
pub struct LegendLayout {
    /// Top-left corner of the box.
    pub corner: Vector2,
    /// Width and height of the box.
    pub size: Vector2,
    /// The rows.
    pub rows: Vec<LegendRow>,
}

/// The geometry of row `i` of a legend with the given sizes and corner.
pub open spec fn row_geometry(metrics: LegendMetrics, corner: Vector2, i: int) -> LegendRow {
    let top = metrics.row_top(corner.y as int, i);
    let swatch_x = corner.x + metrics.padding;
    LegendRow {
        top: top as i64,
        swatch_x: swatch_x as i64,
        swatch_cy: (top + crate::fixed::quot_floor(metrics.row_height as int, 2)) as i64,
        text_origin: crate::point::Screenpoint {
            x: (swatch_x + 2 * metrics.indicator_gap) as i64,
            y: top as i64,
        },
    }
}

impl Legend {
    /// Lays the legend out against the inner box of the chart, given the
    /// measured widths of its labels. A legend without entries has no
    /// layout.
    pub fn layout(&self, configs: &LegendConfig, inner: ScreenBBox, label_widths: &Vec<i64>) -> (r:
        Option<LegendLayout>)
        requires
            self.entries@.len() <= ROWS_MAX,
            configs.spec_metrics().bounded(),
            inner.within(SCREEN_MAX as int),
            forall|i: int| 0 <= i < label_widths.len() ==> is_length(#[trigger] label_widths[i] as int),
            configs.position matches LegendPosition::Custom(x, y) ==> -SCREEN_MAX <= x <= SCREEN_MAX
                && -SCREEN_MAX <= y <= SCREEN_MAX,
        ensures
            r.is_some() <==> self.entries@.len() > 0,
            r matches Some(found) ==> {
                let metrics = configs.spec_metrics();
                &&& found.size.x == metrics.width(widest(label_widths@))
                &&& found.size.y == metrics.height(self.entries@.len() as int)
                &&& found.corner == legend_corner(configs.position, inner, found.size)
                &&& found.rows@.len() == self.entries@.len()
                &&& forall|i: int|
                    0 <= i < found.rows@.len() ==> #[trigger] found.rows@[i] == row_geometry(
                        metrics,
                        found.corner,
                        i,
                    )
            },
    {
        let n: usize = self.entries.len();
        if n == 0 {
            return None;
        }
        let metrics = configs.metrics();
        let widest_label: i64 = max_label_width(label_widths);
        proof {
            lemma_widest_is_length(label_widths@);
        }
        let size = legend_size(&metrics, n, widest_label);
        assert(-SCREEN_MAX <= size.y <= SCREEN_MAX) by {
            lemma_height_bounds(metrics, n as int);
        }
        let corner = legend_origin(configs.position, inner, size);
        assert(-2 * SCREEN_MAX <= corner.x <= 2 * SCREEN_MAX && -2 * SCREEN_MAX <= corner.y <= 2
            * SCREEN_MAX);
        let mut rows: Vec<LegendRow> = Vec::new();
        let mut i: usize = 0;
        while i < n
            invariant
                i <= n <= ROWS_MAX,
                metrics.bounded(),
                metrics == configs.spec_metrics(),
                -2 * SCREEN_MAX <= corner.x <= 2 * SCREEN_MAX,
                -2 * SCREEN_MAX <= corner.y <= 2 * SCREEN_MAX,
                rows@.len() == i,
                forall|k: int|
                    0 <= k < i ==> #[trigger] rows@[k] == row_geometry(metrics, corner, k),
            decreases n - i,
        {
            let row = legend_row(&metrics, corner, i);
            rows.push(row);
            i = i + 1;
        }
        Some(LegendLayout { corner, size, rows })
    }
}

/// The widest of widths that are lengths is a length.
proof fn lemma_widest_is_length(widths: Seq<i64>)
    requires
        forall|i: int| 0 <= i < widths.len() ==> is_length(#[trigger] widths[i] as int),
    ensures
        0 <= widest(widths),
        is_length(widest(widths)),
    decreases widths.len(),
{
    if widths.len() > 0 {
        lemma_widest_is_length(widths.drop_last());
    }
}

/// The height of a legend of bounded sizes and rows stays on the screen.
proof fn lemma_height_bounds(metrics: LegendMetrics, rows: int)
    requires
        metrics.bounded(),
        0 <= rows <= ROWS_MAX,
    ensures
        -SCREEN_MAX <= metrics.height(rows) <= SCREEN_MAX,
{
    let gaps = if rows > 0 {
        rows - 1
    } else {
        0
    };
    assert(-1_000 * 1_000_000_000_000 <= rows * metrics.row_height <= 1_000 * 1_000_000_000_000)
        by (nonlinear_arith)
        requires
            0 <= rows <= 1_000,
            -1_000_000_000_000 <= metrics.row_height <= 1_000_000_000_000,
    ;
    assert(-1_000 * 1_000_000_000_000 <= gaps * metrics.entry_spacing <= 1_000 * 1_000_000_000_000)
        by (nonlinear_arith)
        requires
            0 <= gaps <= 1_000,
            -1_000_000_000_000 <= metrics.entry_spacing <= 1_000_000_000_000,
    ;
}

} // verus!
