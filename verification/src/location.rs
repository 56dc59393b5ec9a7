//! A plain x/y coordinate pair with clamped subtraction.

use crate::clamp::sat_sub;
use vstd::prelude::*;

verus! {

/// An x/y coordinate pair.
#[derive(Copy, Clone, Debug, PartialEq, Eq, Structural)]
pub struct Location {
    pub x: usize,
    pub y: usize,
}

impl Location {
    /// Componentwise subtraction, clamped at zero.
    pub fn subtract(&self, other: &Self) -> (r: Self)
        ensures
            r.x as nat == sat_sub(self.x as nat, other.x as nat),
            r.y as nat == sat_sub(self.y as nat, other.y as nat),
    {
        Self { x: self.x.saturating_sub(other.x), y: self.y.saturating_sub(other.y) }
    }
}

impl Default for Location {
    /// The origin.
    fn default() -> (r: Self)
        ensures
            r.x == 0,
            r.y == 0,
    {
        Location { x: 0, y: 0 }
    }
}

} // verus!
