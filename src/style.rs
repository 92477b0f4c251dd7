use vstd::prelude::*;

verus! {

/// How the space between two series (or between a value and the baseline) is drawn.
#[derive(Debug, Default, Clone, Copy, PartialEq, Eq, Structural)]
pub enum GraphStyle {
    /// Fill when the first value is at most the second, hollow otherwise.
    Auto,
    /// Never fill: only the end points are drawn.
    Line,
    /// Always fill the space in between.
    #[default]
    Filled,
}

/// Whether the span between `start` and `end` is filled under `style`.
pub open spec fn spec_fills(style: GraphStyle, start: int, end: int) -> bool {
    match style {
        GraphStyle::Auto => start <= end,
        GraphStyle::Line => false,
        GraphStyle::Filled => true,
    }
}

impl GraphStyle {
    /// Decides whether the span from `start` to `end` is filled.
    pub fn fills(self, start: u16, end: u16) -> (r: bool)
        ensures
            r == spec_fills(self, start as int, end as int),
    {
        match self {
            GraphStyle::Auto => start <= end,
            GraphStyle::Line => false,
            GraphStyle::Filled => true,
        }
    }
}

/// The kinds of chart: a glyph family together with an orientation.
#[derive(Debug, Default, Clone, Copy, PartialEq, Eq, Structural)]
pub enum GraphKind {
    /// Horizontal bars of partial block glyphs.
    Bars,
    /// Vertical columns of partial block glyphs.
    Columns,
    /// Horizontal bars of braille glyphs.
    #[default]
    BrailleBars,
    /// Vertical columns of braille glyphs.
    BrailleColumns,
    /// Horizontal bars of quadrant glyphs.
    MiniBars,
    /// Vertical columns of quadrant glyphs.
    MiniColumns,
    /// Horizontal bars of sextant glyphs.
    SextantBars,
    /// Vertical columns of sextant glyphs.
    SextantColumns,
}

/// A chart configuration that cannot be drawn.
#[derive(Debug, Clone, Copy, PartialEq, Eq, Structural)]
pub enum ConfigError {
    /// `Auto` decides between two series; it means nothing for more than two.
    AutoStyleWithManySeries,
}

} // verus!
