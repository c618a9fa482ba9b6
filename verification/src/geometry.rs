//! Sizes, size constraint groupings, and the box-fit computation.

use vstd::arithmetic::div_mod::lemma_div_nonincreasing;
use vstd::arithmetic::div_mod::lemma_div_pos_is_pos;
use vstd::prelude::*;

use crate::flags::CellFlags;

verus! {

/// An extent in whole pixels, one component per axis.
#[derive(Clone, Copy, PartialEq, Eq, Debug)]
pub struct Size {
    pub width: u32,
    pub height: u32,
}

impl Size {
    /// Component-wise maximum of two sizes.
    pub open spec fn spec_join_max(a: Size, b: Size) -> Size {
        Size {
            width: if a.width >= b.width {
                a.width
            } else {
                b.width
            },
            height: if a.height >= b.height {
                a.height
            } else {
                b.height
            },
        }
    }

    /// Component-wise minimum of two sizes.
    pub open spec fn spec_join_min(a: Size, b: Size) -> Size {
        Size {
            width: if a.width <= b.width {
                a.width
            } else {
                b.width
            },
            height: if a.height <= b.height {
                a.height
            } else {
                b.height
            },
        }
    }

    /// Both components divided by a divisor, rounding toward zero.
    pub open spec fn spec_spread(self, divisions: u32) -> Size
        recommends
            divisions >= 1,
    {
        Size { width: (self.width as int / divisions as int) as u32, height: (self.height as int
            / divisions as int) as u32 }
    }

    pub fn join_max(a: &Size, b: &Size) -> (r: Size)
        ensures
            r == Size::spec_join_max(*a, *b),
    {
        Size {
            width: if a.width >= b.width {
                a.width
            } else {
                b.width
            },
            height: if a.height >= b.height {
                a.height
            } else {
                b.height
            },
        }
    }

    pub fn join_min(a: &Size, b: &Size) -> (r: Size)
        ensures
            r == Size::spec_join_min(*a, *b),
    {
        Size {
            width: if a.width <= b.width {
                a.width
            } else {
                b.width
            },
            height: if a.height <= b.height {
                a.height
            } else {
                b.height
            },
        }
    }

    /// Divides the width and height by a given division level. Used when
    /// a size must be spread across multiple table cells.
    pub fn spread(&self, divisions: u32) -> (r: Size)
        requires
            divisions >= 1,
        ensures
            r == self.spec_spread(divisions),
    {
        Size { width: self.width / divisions, height: self.height / divisions }
    }

    /// Returns whether this size should fit strictly within another size.
    pub fn within(&self, other: &Size) -> (r: bool)
        ensures
            r == (other.width > self.width && other.height > self.height),
    {
        other.width > self.width && other.height > self.height
    }
}

/// The smaller of two mathematical integers.
pub open spec fn min_int(a: int, b: int) -> int {
    if a <= b {
        a
    } else {
        b
    }
}

/// A placement rectangle in whole pixels: an offset and an extent.
#[derive(Clone, Copy, PartialEq, Eq, Debug)]
pub struct Rect {
    pub x: u64,
    pub y: u64,
    pub width: u64,
    pub height: u64,
}

/// Combines the maximum, minimum and preferred sizes for a cell.
#[derive(Clone, Copy, PartialEq, Eq, Debug)]
pub struct SizeGrouping {
    pub minimum: Size,
    pub maximum: Size,
    pub preferred: Size,
}

impl SizeGrouping {
    /// The neutral grouping: zero minimum and preferred sizes, unbounded
    /// maximum (the largest representable extent stands for "no limit").
    pub open spec fn spec_default() -> SizeGrouping {
        SizeGrouping {
            minimum: Size { width: 0, height: 0 },
            preferred: Size { width: 0, height: 0 },
            maximum: Size { width: u32::MAX, height: u32::MAX },
        }
    }

    /// Aggregation of two groupings sharing one track: the larger of the
    /// minimums and preferreds, the smaller of the maximums.
    pub open spec fn spec_join(a: SizeGrouping, b: SizeGrouping) -> SizeGrouping {
        SizeGrouping {
            minimum: Size::spec_join_max(a.minimum, b.minimum),
            preferred: Size::spec_join_max(a.preferred, b.preferred),
            maximum: Size::spec_join_min(a.maximum, b.maximum),
        }
    }

    /// All three bounds divided by a division level.
    pub open spec fn spec_spread(self, divisions: u32) -> SizeGrouping
        recommends
            divisions >= 1,
    {
        SizeGrouping {
            minimum: self.minimum.spec_spread(divisions),
            preferred: self.preferred.spec_spread(divisions),
            maximum: self.maximum.spec_spread(divisions),
        }
    }

    /// The box fitted into an area: `(x, y, width, height)`, the offset and
    /// extent of the output box inside the area.
    ///
    /// On each axis the extent is the area clipped to the maximum size when
    /// the fill flag for that axis is set, and to the preferred size when it
    /// is not. The offset anchors the box inside the area: each axis consults
    /// its own centering flag, and the far-edge anchor (`anchor_right`,
    /// `anchor_bottom`) takes precedence over centering; the default is the
    /// near edge.
    pub open spec fn spec_box_fit(self, area_width: int, area_height: int, flags: CellFlags) -> (
        int,
        int,
        int,
        int,
    ) {
        let w = if flags.fill_horizontal {
            min_int(self.maximum.width as int, area_width)
        } else {
            min_int(self.preferred.width as int, area_width)
        };
        let h = if flags.fill_vertical {
            min_int(self.maximum.height as int, area_height)
        } else {
            min_int(self.preferred.height as int, area_height)
        };
        let x = if flags.anchor_right {
            area_width - w
        } else if flags.anchor_horizontal_center {
            (area_width - w) / 2
        } else {
            0
        };
        let y = if flags.anchor_bottom {
            area_height - h
        } else if flags.anchor_vertical_center {
            (area_height - h) / 2
        } else {
            0
        };
        (x, y, w, h)
    }

    pub fn join(a: &SizeGrouping, b: &SizeGrouping) -> (r: SizeGrouping)
        ensures
            r == SizeGrouping::spec_join(*a, *b),
    {
        SizeGrouping {
            minimum: Size::join_max(&a.minimum, &b.minimum),
            preferred: Size::join_max(&a.preferred, &b.preferred),
            maximum: Size::join_min(&a.maximum, &b.maximum),
        }
    }

    pub fn spread(&self, divisions: u32) -> (r: SizeGrouping)
        requires
            divisions >= 1,
        ensures
            r == self.spec_spread(divisions),
    {
        SizeGrouping {
            minimum: self.minimum.spread(divisions),
            maximum: self.maximum.spread(divisions),
            preferred: self.preferred.spread(divisions),
        }
    }

    /// Fits an item with this grouping's constraints into an `area_width` by
    /// `area_height` box, subject to the placement rules in `flags`. Returns
    /// the offset and extent of the fitted box, relative to the area.
    pub fn box_fit(&self, area_width: u64, area_height: u64, flags: CellFlags) -> (r: Rect)
        ensures
            (r.x as int, r.y as int, r.width as int, r.height as int) == self.spec_box_fit(
                area_width as int,
                area_height as int,
                flags,
            ),
    {
        let w = if flags.fill_horizontal {
            if self.maximum.width as u64 <= area_width {
                self.maximum.width as u64
            } else {
                area_width
            }
        } else {
            if self.preferred.width as u64 <= area_width {
                self.preferred.width as u64
            } else {
                area_width
            }
        };
        let h = if flags.fill_vertical {
            if self.maximum.height as u64 <= area_height {
                self.maximum.height as u64
            } else {
                area_height
            }
        } else {
            if self.preferred.height as u64 <= area_height {
                self.preferred.height as u64
            } else {
                area_height
            }
        };
        let x = if flags.anchor_right {
            area_width - w
        } else if flags.anchor_horizontal_center {
            (area_width - w) / 2
        } else {
            0
        };
        let y = if flags.anchor_bottom {
            area_height - h
        } else if flags.anchor_vertical_center {
            (area_height - h) / 2
        } else {
            0
        };
        Rect { x, y, width: w, height: h }
    }
}

/// The fitted box always lies inside its area: both offsets and both
/// extents are non-negative and bounded by the area.
pub proof fn lemma_box_fit_bounds(g: SizeGrouping, aw: int, ah: int, flags: CellFlags)
    requires
        0 <= aw,
        0 <= ah,
    ensures
        ({
            let fit = g.spec_box_fit(aw, ah, flags);
            &&& 0 <= fit.2 <= aw
            &&& 0 <= fit.3 <= ah
            &&& 0 <= fit.0 <= aw
            &&& 0 <= fit.1 <= ah
        }),
{
    let fit = g.spec_box_fit(aw, ah, flags);
    let w = fit.2;
    let h = fit.3;
    assert(0 <= (aw - w) / 2 <= aw - w) by {
        lemma_div_pos_is_pos(aw - w, 2);
        lemma_div_nonincreasing(aw - w, 2);
    }
    assert(0 <= (ah - h) / 2 <= ah - h) by {
        lemma_div_pos_is_pos(ah - h, 2);
        lemma_div_nonincreasing(ah - h, 2);
    }
}

impl Default for SizeGrouping {
    fn default() -> (r: SizeGrouping)
        ensures
            r == SizeGrouping::spec_default(),
    {
        SizeGrouping {
            minimum: Size { width: 0, height: 0 },
            preferred: Size { width: 0, height: 0 },
            maximum: Size { width: u32::MAX, height: u32::MAX },
        }
    }
}

} // verus!
