//! Placement directives for a cell.

use vstd::prelude::*;

verus! {

/// A set of independent boolean placement directives for one cell.
///
/// The `expand` pair marks the cell's row or column track as a candidate for
/// claiming surplus space during negotiation. The `fill` pair lets the cell's
/// own box grow up to its maximum size instead of stopping at its preferred
/// size. The anchors place the box inside its track when the box is smaller
/// than the track; on each axis the edge anchor (`anchor_right`,
/// `anchor_bottom`) takes precedence over the centering anchor, and the
/// top/left anchors coincide with the default placement. `uniform` is
/// reserved for equal-sizing groups and is not consulted by the solver.
#[derive(Clone, Copy, PartialEq, Eq, Debug)]
pub struct CellFlags {
    pub expand_horizontal: bool,
    pub expand_vertical: bool,
    pub fill_horizontal: bool,
    pub fill_vertical: bool,
    pub anchor_top: bool,
    pub anchor_bottom: bool,
    pub anchor_left: bool,
    pub anchor_right: bool,
    pub anchor_horizontal_center: bool,
    pub anchor_vertical_center: bool,
    pub uniform: bool,
}

impl CellFlags {
    /// The empty directive set: no expansion, no filling, default anchoring.
    pub open spec fn spec_none() -> CellFlags {
        CellFlags {
            expand_horizontal: false,
            expand_vertical: false,
            fill_horizontal: false,
            fill_vertical: false,
            anchor_top: false,
            anchor_bottom: false,
            anchor_left: false,
            anchor_right: false,
            anchor_horizontal_center: false,
            anchor_vertical_center: false,
            uniform: false,
        }
    }

    /// Returns the empty directive set.
    pub fn none() -> (r: CellFlags)
        ensures
            r == CellFlags::spec_none(),
    {
        CellFlags {
            expand_horizontal: false,
            expand_vertical: false,
            fill_horizontal: false,
            fill_vertical: false,
            anchor_top: false,
            anchor_bottom: false,
            anchor_left: false,
            anchor_right: false,
            anchor_horizontal_center: false,
            anchor_vertical_center: false,
            uniform: false,
        }
    }
}

impl Default for CellFlags {
    fn default() -> (r: CellFlags)
        ensures
            r == CellFlags::spec_none(),
    {
        CellFlags::none()
    }
}

} // verus!
