//! The colours of a theme.

use vstd::prelude::*;

use crate::vt::Color;

verus! {

/// A colour with its opacity.
#[derive(Clone, Copy, Debug, PartialEq, Eq, Structural)]
pub struct Rgba {
    pub r: u8,
    pub g: u8,
    pub b: u8,
    pub a: u8,
}

/// The colours that were configured.
#[derive(Clone, Copy, Debug, PartialEq, Eq)]
pub struct Theme {
    pub foreground: Rgba,
    pub background: Rgba,
    pub cursor: Rgba,
    pub selection: Rgba,
    pub ansi_colors: [Rgba; 16],
}

/// The colours as they are drawn, each by red, green, blue and opacity.
#[derive(Clone, Copy, Debug, PartialEq, Eq)]
pub struct ColorScheme {
    pub foreground: [u8; 4],
    pub background: [u8; 4],
    pub cursor: [u8; 4],
    pub selection: [u8; 4],
    /// The sixteen colours that programs name by number.
    pub ansi: [[u8; 4]; 16],
}

/// A colour by its parts.
pub open spec fn rgba_parts(c: Rgba) -> Seq<u8> {
    seq![c.r, c.g, c.b, c.a]
}

/// A colour of a cell by its parts, the given one where the cell has none of
/// its own. Colours of cells are opaque.
pub open spec fn resolved(color: Color, default: Seq<u8>) -> Seq<u8> {
    match color {
        Color::Default => default,
        Color::Rgb(r, g, b) => seq![r, g, b, 255],
    }
}

fn to_rgba(c: Rgba) -> (parts: [u8; 4])
    ensures
        parts@ == rgba_parts(c),
{
    let parts: [u8; 4] = [c.r, c.g, c.b, c.a];
    assert(parts@ =~= rgba_parts(c));
    parts
}

fn opaque(r: u8, g: u8, b: u8) -> (parts: [u8; 4])
    ensures
        parts@ == seq![r, g, b, 255u8],
{
    let parts: [u8; 4] = [r, g, b, 255];
    assert(parts@ =~= seq![r, g, b, 255u8]);
    parts
}

/// The sixteen colours of the theme that is there without configuration.
pub open spec fn default_ansi() -> Seq<Seq<u8>> {
    seq![
        seq![69u8, 71, 90, 255],
        seq![243u8, 139, 168, 255],
        seq![166u8, 227, 161, 255],
        seq![249u8, 226, 175, 255],
        seq![137u8, 180, 250, 255],
        seq![245u8, 194, 231, 255],
        seq![148u8, 226, 213, 255],
        seq![186u8, 194, 222, 255],
        seq![88u8, 91, 112, 255],
        seq![243u8, 139, 168, 255],
        seq![166u8, 227, 161, 255],
        seq![249u8, 226, 175, 255],
        seq![137u8, 180, 250, 255],
        seq![245u8, 194, 231, 255],
        seq![148u8, 226, 213, 255],
        seq![205u8, 214, 244, 255],
    ]
}

/// Several colours by their parts.
pub open spec fn all_parts(colors: Seq<[u8; 4]>) -> Seq<Seq<u8>> {
    Seq::new(colors.len(), |i: int| colors[i]@)
}

/// Whether colours are those that are there without configuration.
pub open spec fn is_default_scheme(s: ColorScheme) -> bool {
    &&& s.foreground@ == seq![205u8, 214, 244, 255]
    &&& s.background@ == seq![40u8, 40, 40, 255]
    &&& s.cursor@ == seq![245u8, 224, 220, 255]
    &&& s.selection@ == seq![88u8, 91, 112, 128]
    &&& all_parts(s.ansi@) == default_ansi()
}

impl Default for ColorScheme {
    /// The colours that are there without configuration.
    fn default() -> (s: ColorScheme)
        ensures
            is_default_scheme(s),
    {
        let selection: [u8; 4] = [88, 91, 112, 128];
        assert(selection@ =~= seq![88u8, 91, 112, 128]);
        let ansi: [[u8; 4]; 16] = [
            opaque(69, 71, 90),
            opaque(243, 139, 168),
            opaque(166, 227, 161),
            opaque(249, 226, 175),
            opaque(137, 180, 250),
            opaque(245, 194, 231),
            opaque(148, 226, 213),
            opaque(186, 194, 222),
            opaque(88, 91, 112),
            opaque(243, 139, 168),
            opaque(166, 227, 161),
            opaque(249, 226, 175),
            opaque(137, 180, 250),
            opaque(245, 194, 231),
            opaque(148, 226, 213),
            opaque(205, 214, 244),
        ];
        assert(all_parts(ansi@) =~= default_ansi());
        ColorScheme {
            foreground: opaque(205, 214, 244),
            background: opaque(40, 40, 40),
            cursor: opaque(245, 224, 220),
            selection,
            ansi,
        }
    }
}

impl ColorScheme {
    /// The colours of a theme.
    pub fn from_theme(theme: &Theme) -> (s: ColorScheme)
        ensures
            s.foreground@ == rgba_parts(theme.foreground),
            s.background@ == rgba_parts(theme.background),
            s.cursor@ == rgba_parts(theme.cursor),
            s.selection@ == rgba_parts(theme.selection),
            forall|i: int| 0 <= i < 16 ==> (#[trigger] s.ansi@[i])@ == rgba_parts(
                theme.ansi_colors@[i],
            ),
    {
        let mut ansi: [[u8; 4]; 16] = [[0; 4]; 16];
        let mut i: usize = 0;
        while i < 16
            invariant
                i <= 16,
                ansi@.len() == 16,
                theme.ansi_colors@.len() == 16,
                forall|j: int| 0 <= j < i ==> (#[trigger] ansi@[j])@ == rgba_parts(
                    theme.ansi_colors@[j],
                ),
            decreases 16 - i,
        {
            ansi[i] = to_rgba(theme.ansi_colors[i]);
            i = i + 1;
        }
        ColorScheme {
            foreground: to_rgba(theme.foreground),
            background: to_rgba(theme.background),
            cursor: to_rgba(theme.cursor),
            selection: to_rgba(theme.selection),
            ansi,
        }
    }

    /// The colour of a text.
    pub fn resolve_fg(&self, color: Color) -> (parts: [u8; 4])
        ensures
            parts@ == resolved(color, self.foreground@),
    {
        match color {
            Color::Default => self.foreground,
            Color::Rgb(r, g, b) => opaque(r, g, b),
        }
    }

    /// The colour behind a text.
    pub fn resolve_bg(&self, color: Color) -> (parts: [u8; 4])
        ensures
            parts@ == resolved(color, self.background@),
    {
        match color {
            Color::Default => self.background,
            Color::Rgb(r, g, b) => opaque(r, g, b),
        }
    }
}

} // verus!
