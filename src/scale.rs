//! The integer side of the value scaler: the size of the dot axis and where the baseline
//! stands on it.
use vstd::prelude::*;

verus! {

/// Where the value zero falls relative to the chart's range `[min, max]`.
#[derive(Debug, Clone, Copy, PartialEq, Eq, Structural)]
pub enum Origin {
    /// The whole range lies above zero (`min > 0`).
    BelowRange,
    /// The whole range lies below zero (`max < 0`).
    AboveRange,
    /// Zero lies in the range, and scales to this dot index.
    InRange(u16),
}

/// How many dots an axis of `cells` glyphs holds, `None` when that is more than a `u16`
/// can count.
pub fn dots_per_axis(cells: u16, dots_per_cell: u16) -> (r: Option<u16>)
    ensures
        cells * dots_per_cell <= u16::MAX ==> r == Some((cells * dots_per_cell) as u16),
        cells * dots_per_cell > u16::MAX ==> r is None,
{
    assert((cells as u32) * (dots_per_cell as u32) <= 0xFFFF * 0xFFFF) by (nonlinear_arith)
        requires
            cells <= 0xFFFF,
            dots_per_cell <= 0xFFFF,
    ;
    let product: u32 = cells as u32 * dots_per_cell as u32;
    if product <= u16::MAX as u32 {
        Some(product as u16)
    } else {
        None
    }
}

/// The dot index of the baseline: the first dot when the range lies above zero, the last when
/// it lies below, and the scaled zero otherwise. It always lies on the axis.
pub fn zero_index(origin: Origin, dots_per_axis: u16) -> (r: u16)
    requires
        1 <= dots_per_axis,
        origin matches Origin::InRange(z) ==> 1 <= z <= dots_per_axis,
    ensures
        1 <= r <= dots_per_axis,
        r == match origin {
            Origin::BelowRange => 1,
            Origin::AboveRange => dots_per_axis,
            Origin::InRange(z) => z,
        },
{
    match origin {
        Origin::BelowRange => 1,
        Origin::AboveRange => dots_per_axis,
        Origin::InRange(z) => z,
    }
}

} // verus!
