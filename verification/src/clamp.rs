//! Saturating (clamped) arithmetic at the `usize` boundaries, as spec-level
//! functions. All index arithmetic of the editor clamps instead of wrapping,
//! so boundary conditions degrade to no-ops.

use vstd::prelude::*;

verus! {

/// Addition clamped from above at `usize::MAX`.
pub open spec fn sat_add(a: nat, b: nat) -> nat {
    if a + b > usize::MAX as nat {
        usize::MAX as nat
    } else {
        a + b
    }
}

/// Subtraction clamped from below at zero.
pub open spec fn sat_sub(a: nat, b: nat) -> nat {
    if a >= b {
        (a - b) as nat
    } else {
        0
    }
}

/// The smaller of two naturals.
pub open spec fn min_nat(a: nat, b: nat) -> nat {
    if a < b {
        a
    } else {
        b
    }
}

} // verus!
