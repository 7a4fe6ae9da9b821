//! Colours and colour schemes.
//!
//! A [`Colorscheme`] names the colours of a chart: background, grid, text and
//! axis, and a cycle of accents for data series. A configuration that leaves a
//! colour open takes it from the scheme through [`Themable`].

use vstd::prelude::*;

verus! {

/// A colour with red, green, blue and alpha channels.
#[derive(Clone, Copy, Debug, PartialEq, Eq, Structural)]
pub struct Color {
    pub r: u8,
    pub g: u8,
    pub b: u8,
    pub a: u8,
}

impl Color {
    /// The colour with the given channels.
    pub fn new(r: u8, g: u8, b: u8, a: u8) -> (c: Self)
        ensures
            c == (Color { r, g, b, a }),
    {
        Color { r, g, b, a }
    }

    /// Opaque black.
    pub fn black() -> (c: Self)
        ensures
            c == (Color { r: 0, g: 0, b: 0, a: 255 }),
    {
        Color { r: 0, g: 0, b: 0, a: 255 }
    }

    /// The red that points are drawn in by default.
    pub fn red() -> (c: Self)
        ensures
            c == (Color { r: 230, g: 41, b: 55, a: 255 }),
    {
        Color { r: 230, g: 41, b: 55, a: 255 }
    }
}

/// The colour that a configuration ends up with: its own, or else the one
/// that the theme offers.
pub open spec fn themed(own: Option<Color>, theme: Color) -> Color {
    match own {
        Some(c) => c,
        None => theme,
    }
}

/// A configuration that can take the colours it leaves open from a scheme.
pub trait Themable {
    /// Fills every open colour from `scheme`.
    fn apply_theme(&mut self, scheme: &Colorscheme);
}

/// The colours of a chart.
#[derive(Clone, Debug)]
pub struct Colorscheme {
    /// Fill behind the whole chart.
    pub background: Color,
    /// Grid lines.
    pub grid: Color,
    /// Titles, labels and tick text.
    pub text: Color,
    /// Axis lines and tick marks.
    pub axis: Color,
    /// Accents, taken in turn by data series.
    pub cycle: Vec<Color>,
}

impl Colorscheme {
    /// The scheme with the given colours.
    #[must_use]
    pub fn new(background: Color, grid: Color, text: Color, axis: Color, cycle: Vec<Color>) -> (r:
        Self)
        ensures
            r.background == background,
            r.grid == grid,
            r.text == text,
            r.axis == axis,
            r.cycle@ == cycle@,
    {
        Colorscheme { background, grid, text, axis, cycle }
    }

    /// Appends accents to the cycle.
    pub fn extend_in_place(&mut self, other: Vec<Color>)
        ensures
            final(self).cycle@ == old(self).cycle@ + other@,
            final(self).background == old(self).background,
            final(self).grid == old(self).grid,
            final(self).text == old(self).text,
            final(self).axis == old(self).axis,
    {
        let n: usize = other.len();
        let mut i: usize = 0;
        let ghost start = self.cycle@;
        assert(start + other@.take(0) =~= start);
        while i < n
            invariant
                i <= n == other.len(),
                self.cycle@ == start + other@.take(i as int),
                self.background == old(self).background,
                self.grid == old(self).grid,
                self.text == old(self).text,
                self.axis == old(self).axis,
            decreases n - i,
        {
            self.cycle.push(other[i]);
            assert(start + other@.take(i + 1) =~= (start + other@.take(i as int)).push(
                other@[i as int],
            ));
            i = i + 1;
        }
        assert(other@.take(n as int) =~= other@);
    }

    /// The same scheme with more accents at the end of the cycle.
    #[must_use]
    pub fn extend(self, other: Vec<Color>) -> (r: Self)
        ensures
            r.cycle@ == self.cycle@ + other@,
            r.background == self.background,
            r.grid == self.grid,
            r.text == self.text,
            r.axis == self.axis,
    {
        let mut scheme = self;
        scheme.extend_in_place(other);
        scheme
    }

    /// The accent of the series with the given index: the accents are taken
    /// in turn, and black where the cycle is empty.
    pub fn accent(&self, index: usize) -> (c: Color)
        ensures
            self.cycle@.len() == 0 ==> c == (Color { r: 0, g: 0, b: 0, a: 255 }),
            self.cycle@.len() > 0 ==> c == self.cycle@[(index as int) % (self.cycle@.len() as int)],
    {
        let n: usize = self.cycle.len();
        if n == 0 {
            Color::black()
        } else {
            self.cycle[index % n]
        }
    }
}

impl Default for Colorscheme {
    fn default() -> (r: Self)
        ensures
            r.background == matplotlib_light_colors().0,
            r.text == matplotlib_light_colors().1,
            r.grid == matplotlib_light_colors().2,
            r.axis == matplotlib_light_colors().3,
            r.cycle@ == matplotlib_light_colors().4,
    {
        matplotlib_light()
    }
}

/// Dark, high-contrast palette in the manner of the Dracula theme. The colours are given as background, text, grid, axis and cycle.
pub open spec fn dracula_colors() -> (Color, Color, Color, Color, Seq<Color>) {
    (
        Color { r: 40, g: 42, b: 54, a: 255 },
        Color { r: 248, g: 248, b: 242, a: 255 },
        Color { r: 68, g: 71, b: 90, a: 200 },
        Color { r: 68, g: 71, b: 90, a: 255 },
        seq![
            Color { r: 255, g: 85, b: 85, a: 255 },
            Color { r: 255, g: 184, b: 108, a: 255 },
            Color { r: 241, g: 150, b: 140, a: 255 },
            Color { r: 80, g: 250, b: 123, a: 255 },
            Color { r: 139, g: 233, b: 253, a: 255 },
            Color { r: 189, g: 147, b: 249, a: 255 },
            Color { r: 255, g: 121, b: 198, a: 255 },
        ],
    )
}

/// Dark, high-contrast palette in the manner of the Dracula theme.
pub fn dracula() -> (r: Colorscheme)
    ensures
        r.background == dracula_colors().0,
        r.text == dracula_colors().1,
        r.grid == dracula_colors().2,
        r.axis == dracula_colors().3,
        r.cycle@ == dracula_colors().4,
{
    let cycle: Vec<Color> = vec![
        Color { r: 255, g: 85, b: 85, a: 255 },
        Color { r: 255, g: 184, b: 108, a: 255 },
        Color { r: 241, g: 150, b: 140, a: 255 },
        Color { r: 80, g: 250, b: 123, a: 255 },
        Color { r: 139, g: 233, b: 253, a: 255 },
        Color { r: 189, g: 147, b: 249, a: 255 },
        Color { r: 255, g: 121, b: 198, a: 255 },
    ];
    let r = Colorscheme {
        background: Color { r: 40, g: 42, b: 54, a: 255 },
        text: Color { r: 248, g: 248, b: 242, a: 255 },
        grid: Color { r: 68, g: 71, b: 90, a: 200 },
        axis: Color { r: 68, g: 71, b: 90, a: 255 },
        cycle,
    };
    assert(r.cycle@ =~= dracula_colors().4);
    r
}

/// Dark, muted palette in the manner of the Nord theme. The colours are given as background, text, grid, axis and cycle.
pub open spec fn nord_colors() -> (Color, Color, Color, Color, Seq<Color>) {
    (
        Color { r: 46, g: 52, b: 64, a: 255 },
        Color { r: 216, g: 222, b: 233, a: 255 },
        Color { r: 76, g: 86, b: 106, a: 150 },
        Color { r: 67, g: 76, b: 94, a: 255 },
        seq![
            Color { r: 191, g: 97, b: 106, a: 255 },
            Color { r: 208, g: 135, b: 112, a: 255 },
            Color { r: 235, g: 203, b: 139, a: 255 },
            Color { r: 163, g: 190, b: 140, a: 255 },
            Color { r: 136, g: 192, b: 208, a: 255 },
            Color { r: 129, g: 161, b: 193, a: 255 },
            Color { r: 180, g: 142, b: 173, a: 255 },
        ],
    )
}

/// Dark, muted palette in the manner of the Nord theme.
pub fn nord() -> (r: Colorscheme)
    ensures
        r.background == nord_colors().0,
        r.text == nord_colors().1,
        r.grid == nord_colors().2,
        r.axis == nord_colors().3,
        r.cycle@ == nord_colors().4,
{
    let cycle: Vec<Color> = vec![
        Color { r: 191, g: 97, b: 106, a: 255 },
        Color { r: 208, g: 135, b: 112, a: 255 },
        Color { r: 235, g: 203, b: 139, a: 255 },
        Color { r: 163, g: 190, b: 140, a: 255 },
        Color { r: 136, g: 192, b: 208, a: 255 },
        Color { r: 129, g: 161, b: 193, a: 255 },
        Color { r: 180, g: 142, b: 173, a: 255 },
    ];
    let r = Colorscheme {
        background: Color { r: 46, g: 52, b: 64, a: 255 },
        text: Color { r: 216, g: 222, b: 233, a: 255 },
        grid: Color { r: 76, g: 86, b: 106, a: 150 },
        axis: Color { r: 67, g: 76, b: 94, a: 255 },
        cycle,
    };
    assert(r.cycle@ =~= nord_colors().4);
    r
}

/// Dark background with the Viridis ramp as accents. The colours are given as background, text, grid, axis and cycle.
pub open spec fn viridis_colors() -> (Color, Color, Color, Color, Seq<Color>) {
    (
        Color { r: 34, g: 34, b: 34, a: 255 },
        Color { r: 240, g: 240, b: 240, a: 255 },
        Color { r: 240, g: 240, b: 240, a: 40 },
        Color { r: 80, g: 80, b: 80, a: 255 },
        seq![
            Color { r: 68, g: 1, b: 84, a: 255 },
            Color { r: 59, g: 82, b: 139, a: 255 },
            Color { r: 33, g: 145, b: 140, a: 255 },
            Color { r: 94, g: 201, b: 98, a: 255 },
            Color { r: 253, g: 231, b: 37, a: 255 },
        ],
    )
}

/// Dark background with the Viridis ramp as accents.
pub fn viridis() -> (r: Colorscheme)
    ensures
        r.background == viridis_colors().0,
        r.text == viridis_colors().1,
        r.grid == viridis_colors().2,
        r.axis == viridis_colors().3,
        r.cycle@ == viridis_colors().4,
{
    let cycle: Vec<Color> = vec![
        Color { r: 68, g: 1, b: 84, a: 255 },
        Color { r: 59, g: 82, b: 139, a: 255 },
        Color { r: 33, g: 145, b: 140, a: 255 },
        Color { r: 94, g: 201, b: 98, a: 255 },
        Color { r: 253, g: 231, b: 37, a: 255 },
    ];
    let r = Colorscheme {
        background: Color { r: 34, g: 34, b: 34, a: 255 },
        text: Color { r: 240, g: 240, b: 240, a: 255 },
        grid: Color { r: 240, g: 240, b: 240, a: 40 },
        axis: Color { r: 80, g: 80, b: 80, a: 255 },
        cycle,
    };
    assert(r.cycle@ =~= viridis_colors().4);
    r
}

/// The dark variant of Solarized. The colours are given as background, text, grid, axis and cycle.
pub open spec fn solarized_dark_colors() -> (Color, Color, Color, Color, Seq<Color>) {
    (
        Color { r: 0, g: 43, b: 54, a: 255 },
        Color { r: 131, g: 148, b: 150, a: 255 },
        Color { r: 7, g: 54, b: 66, a: 200 },
        Color { r: 88, g: 110, b: 117, a: 255 },
        seq![
            Color { r: 181, g: 137, b: 0, a: 255 },
            Color { r: 203, g: 75, b: 22, a: 255 },
            Color { r: 220, g: 50, b: 47, a: 255 },
            Color { r: 211, g: 54, b: 130, a: 255 },
            Color { r: 108, g: 113, b: 196, a: 255 },
            Color { r: 38, g: 139, b: 210, a: 255 },
            Color { r: 42, g: 161, b: 152, a: 255 },
            Color { r: 133, g: 153, b: 0, a: 255 },
        ],
    )
}

/// The dark variant of Solarized.
pub fn solarized_dark() -> (r: Colorscheme)
    ensures
        r.background == solarized_dark_colors().0,
        r.text == solarized_dark_colors().1,
        r.grid == solarized_dark_colors().2,
        r.axis == solarized_dark_colors().3,
        r.cycle@ == solarized_dark_colors().4,
{
    let cycle: Vec<Color> = vec![
        Color { r: 181, g: 137, b: 0, a: 255 },
        Color { r: 203, g: 75, b: 22, a: 255 },
        Color { r: 220, g: 50, b: 47, a: 255 },
        Color { r: 211, g: 54, b: 130, a: 255 },
        Color { r: 108, g: 113, b: 196, a: 255 },
        Color { r: 38, g: 139, b: 210, a: 255 },
        Color { r: 42, g: 161, b: 152, a: 255 },
        Color { r: 133, g: 153, b: 0, a: 255 },
    ];
    let r = Colorscheme {
        background: Color { r: 0, g: 43, b: 54, a: 255 },
        text: Color { r: 131, g: 148, b: 150, a: 255 },
        grid: Color { r: 7, g: 54, b: 66, a: 200 },
        axis: Color { r: 88, g: 110, b: 117, a: 255 },
        cycle,
    };
    assert(r.cycle@ =~= solarized_dark_colors().4);
    r
}

/// Dark palette in the manner of GitHub. The colours are given as background, text, grid, axis and cycle.
pub open spec fn github_dark_colors() -> (Color, Color, Color, Color, Seq<Color>) {
    (
        Color { r: 13, g: 17, b: 23, a: 255 },
        Color { r: 201, g: 209, b: 217, a: 255 },
        Color { r: 48, g: 54, b: 61, a: 180 },
        Color { r: 48, g: 54, b: 61, a: 255 },
        seq![
            Color { r: 126, g: 231, b: 135, a: 255 },
            Color { r: 121, g: 192, b: 255, a: 255 },
            Color { r: 210, g: 153, b: 255, a: 255 },
            Color { r: 255, g: 123, b: 114, a: 255 },
            Color { r: 255, g: 166, b: 87, a: 255 },
            Color { r: 210, g: 178, b: 132, a: 255 },
        ],
    )
}

/// Dark palette in the manner of GitHub.
pub fn github_dark() -> (r: Colorscheme)
    ensures
        r.background == github_dark_colors().0,
        r.text == github_dark_colors().1,
        r.grid == github_dark_colors().2,
        r.axis == github_dark_colors().3,
        r.cycle@ == github_dark_colors().4,
{
    let cycle: Vec<Color> = vec![
        Color { r: 126, g: 231, b: 135, a: 255 },
        Color { r: 121, g: 192, b: 255, a: 255 },
        Color { r: 210, g: 153, b: 255, a: 255 },
        Color { r: 255, g: 123, b: 114, a: 255 },
        Color { r: 255, g: 166, b: 87, a: 255 },
        Color { r: 210, g: 178, b: 132, a: 255 },
    ];
    let r = Colorscheme {
        background: Color { r: 13, g: 17, b: 23, a: 255 },
        text: Color { r: 201, g: 209, b: 217, a: 255 },
        grid: Color { r: 48, g: 54, b: 61, a: 180 },
        axis: Color { r: 48, g: 54, b: 61, a: 255 },
        cycle,
    };
    assert(r.cycle@ =~= github_dark_colors().4);
    r
}

/// White background with the ten classic Matplotlib accents. The colours are given as background, text, grid, axis and cycle.
pub open spec fn matplotlib_light_colors() -> (Color, Color, Color, Color, Seq<Color>) {
    (
        Color { r: 255, g: 255, b: 255, a: 255 },
        Color { r: 30, g: 30, b: 30, a: 255 },
        Color { r: 150, g: 150, b: 150, a: 255 },
        Color { r: 0, g: 0, b: 0, a: 255 },
        seq![
            Color { r: 31, g: 119, b: 180, a: 255 },
            Color { r: 255, g: 127, b: 14, a: 255 },
            Color { r: 44, g: 160, b: 44, a: 255 },
            Color { r: 214, g: 39, b: 40, a: 255 },
            Color { r: 148, g: 103, b: 189, a: 255 },
            Color { r: 140, g: 86, b: 75, a: 255 },
            Color { r: 227, g: 119, b: 194, a: 255 },
        ],
    )
}

/// White background with the ten classic Matplotlib accents.
pub fn matplotlib_light() -> (r: Colorscheme)
    ensures
        r.background == matplotlib_light_colors().0,
        r.text == matplotlib_light_colors().1,
        r.grid == matplotlib_light_colors().2,
        r.axis == matplotlib_light_colors().3,
        r.cycle@ == matplotlib_light_colors().4,
{
    let cycle: Vec<Color> = vec![
        Color { r: 31, g: 119, b: 180, a: 255 },
        Color { r: 255, g: 127, b: 14, a: 255 },
        Color { r: 44, g: 160, b: 44, a: 255 },
        Color { r: 214, g: 39, b: 40, a: 255 },
        Color { r: 148, g: 103, b: 189, a: 255 },
        Color { r: 140, g: 86, b: 75, a: 255 },
        Color { r: 227, g: 119, b: 194, a: 255 },
    ];
    let r = Colorscheme {
        background: Color { r: 255, g: 255, b: 255, a: 255 },
        text: Color { r: 30, g: 30, b: 30, a: 255 },
        grid: Color { r: 150, g: 150, b: 150, a: 255 },
        axis: Color { r: 0, g: 0, b: 0, a: 255 },
        cycle,
    };
    assert(r.cycle@ =~= matplotlib_light_colors().4);
    r
}

/// The light variant of Solarized. The colours are given as background, text, grid, axis and cycle.
pub open spec fn solarized_light_colors() -> (Color, Color, Color, Color, Seq<Color>) {
    (
        Color { r: 253, g: 246, b: 227, a: 255 },
        Color { r: 101, g: 123, b: 131, a: 255 },
        Color { r: 238, g: 232, b: 213, a: 255 },
        Color { r: 147, g: 161, b: 161, a: 255 },
        seq![
            Color { r: 181, g: 137, b: 0, a: 255 },
            Color { r: 203, g: 75, b: 22, a: 255 },
            Color { r: 220, g: 50, b: 47, a: 255 },
            Color { r: 211, g: 54, b: 130, a: 255 },
            Color { r: 38, g: 139, b: 210, a: 255 },
            Color { r: 133, g: 153, b: 0, a: 255 },
        ],
    )
}

/// The light variant of Solarized.
pub fn solarized_light() -> (r: Colorscheme)
    ensures
        r.background == solarized_light_colors().0,
        r.text == solarized_light_colors().1,
        r.grid == solarized_light_colors().2,
        r.axis == solarized_light_colors().3,
        r.cycle@ == solarized_light_colors().4,
{
    let cycle: Vec<Color> = vec![
        Color { r: 181, g: 137, b: 0, a: 255 },
        Color { r: 203, g: 75, b: 22, a: 255 },
        Color { r: 220, g: 50, b: 47, a: 255 },
        Color { r: 211, g: 54, b: 130, a: 255 },
        Color { r: 38, g: 139, b: 210, a: 255 },
        Color { r: 133, g: 153, b: 0, a: 255 },
    ];
    let r = Colorscheme {
        background: Color { r: 253, g: 246, b: 227, a: 255 },
        text: Color { r: 101, g: 123, b: 131, a: 255 },
        grid: Color { r: 238, g: 232, b: 213, a: 255 },
        axis: Color { r: 147, g: 161, b: 161, a: 255 },
        cycle,
    };
    assert(r.cycle@ =~= solarized_light_colors().4);
    r
}

/// Light palette in the manner of GitHub. The colours are given as background, text, grid, axis and cycle.
pub open spec fn github_light_colors() -> (Color, Color, Color, Color, Seq<Color>) {
    (
        Color { r: 255, g: 255, b: 255, a: 255 },
        Color { r: 31, g: 35, b: 40, a: 255 },
        Color { r: 208, g: 215, b: 222, a: 150 },
        Color { r: 31, g: 35, b: 40, a: 255 },
        seq![
            Color { r: 5, g: 152, b: 250, a: 255 },
            Color { r: 26, g: 127, b: 55, a: 255 },
            Color { r: 207, g: 34, b: 46, a: 255 },
            Color { r: 154, g: 103, b: 0, a: 255 },
            Color { r: 130, g: 80, b: 223, a: 255 },
        ],
    )
}

/// Light palette in the manner of GitHub.
pub fn github_light() -> (r: Colorscheme)
    ensures
        r.background == github_light_colors().0,
        r.text == github_light_colors().1,
        r.grid == github_light_colors().2,
        r.axis == github_light_colors().3,
        r.cycle@ == github_light_colors().4,
{
    let cycle: Vec<Color> = vec![
        Color { r: 5, g: 152, b: 250, a: 255 },
        Color { r: 26, g: 127, b: 55, a: 255 },
        Color { r: 207, g: 34, b: 46, a: 255 },
        Color { r: 154, g: 103, b: 0, a: 255 },
        Color { r: 130, g: 80, b: 223, a: 255 },
    ];
    let r = Colorscheme {
        background: Color { r: 255, g: 255, b: 255, a: 255 },
        text: Color { r: 31, g: 35, b: 40, a: 255 },
        grid: Color { r: 208, g: 215, b: 222, a: 150 },
        axis: Color { r: 31, g: 35, b: 40, a: 255 },
        cycle,
    };
    assert(r.cycle@ =~= github_light_colors().4);
    r
}

} // verus!
