//! Screen-cell coordinates: a position (column, row) and a viewport size
//! (width, height).

use crate::clamp::sat_sub;
use vstd::prelude::*;

verus! {

/// A screen-cell coordinate pair.
#[derive(Copy, Clone, Debug, PartialEq, Eq, Structural)]
pub struct Position {
    pub col: usize,
    pub row: usize,
}

impl Position {
    /// Componentwise subtraction, clamped at zero.
    #[must_use]
    pub fn saturating_sub(self, other: Self) -> (r: Self)
        ensures
            r.row as nat == sat_sub(self.row as nat, other.row as nat),
            r.col as nat == sat_sub(self.col as nat, other.col as nat),
    {
        Self { row: self.row.saturating_sub(other.row), col: self.col.saturating_sub(other.col) }
    }
}

impl Default for Position {
    /// The origin.
    fn default() -> (r: Self)
        ensures
            r.col == 0,
            r.row == 0,
    {
        Position { col: 0, row: 0 }
    }
}

/// Viewport dimensions in screen cells.
#[derive(Copy, Clone, Debug, PartialEq, Eq, Structural)]
pub struct Size {
    pub width: usize,
    pub height: usize,
}

impl Default for Size {
    /// The empty viewport.
    fn default() -> (r: Self)
        ensures
            r.width == 0,
            r.height == 0,
    {
        Size { width: 0, height: 0 }
    }
}

} // verus!
