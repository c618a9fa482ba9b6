//! Per-cell layout properties and the fluent builder for them.

use vstd::prelude::*;

use crate::flags::CellFlags;
use crate::geometry::Size;
use crate::geometry::SizeGrouping;

verus! {

/// Encapsulates all properties for a cell; contributes to eventual layout
/// decisions.
///
/// The callback is an opaque handle chosen by the host: when the cell is
/// placed, the solver reports the handle together with the cell's rectangle,
/// and the host delivers the rectangle to whatever interest it registered
/// under the handle. A callback is a single registered interest, so the
/// handle is deliberately dropped whenever the properties are duplicated.
#[derive(PartialEq, Eq, Debug)]
pub struct CellProperties {
    /// Controls the desired sizes for this cell.
    pub size: SizeGrouping,
    /// Controls various binary flags for the cell.
    pub flags: CellFlags,
    /// Controls how many columns this cell will occupy. Zero is valid and
    /// makes the cell inert: it occupies no column and is never placed.
    pub colspan: u8,
    /// The host's handle for this cell's positioning interest, if any.
    pub callback: Option<u64>,
}

impl CellProperties {
    /// The factory default: neutral sizes, no flags, a single column, no
    /// callback.
    pub open spec fn spec_default() -> CellProperties {
        CellProperties {
            size: SizeGrouping::spec_default(),
            flags: CellFlags::spec_none(),
            colspan: 1,
            callback: None,
        }
    }

    /// These properties with the callback handle dropped.
    pub open spec fn spec_strip_callback(self) -> CellProperties {
        CellProperties { callback: None, ..self }
    }

    pub fn new() -> (r: Self)
        ensures
            r == CellProperties::spec_default(),
    {
        CellProperties {
            size: SizeGrouping::default(),
            flags: CellFlags::none(),
            colspan: 1,
            callback: None,
        }
    }

    pub fn minimum_size(self, minimum: Size) -> (r: Self)
        ensures
            r == (CellProperties {
                size: SizeGrouping { minimum, ..self.size },
                ..self
            }),
    {
        let mut this = self;
        this.size.minimum = minimum;
        this
    }

    pub fn maximum_size(self, maximum: Size) -> (r: Self)
        ensures
            r == (CellProperties {
                size: SizeGrouping { maximum, ..self.size },
                ..self
            }),
    {
        let mut this = self;
        this.size.maximum = maximum;
        this
    }

    pub fn preferred_size(self, preferred: Size) -> (r: Self)
        ensures
            r == (CellProperties {
                size: SizeGrouping { preferred, ..self.size },
                ..self
            }),
    {
        let mut this = self;
        this.size.preferred = preferred;
        this
    }

    /// Requests surplus space for this cell's row and columns on both axes.
    pub fn expand(self) -> (r: Self)
        ensures
            r == (CellProperties {
                flags: CellFlags {
                    expand_horizontal: true,
                    expand_vertical: true,
                    ..self.flags
                },
                ..self
            }),
    {
        let mut this = self;
        this.flags.expand_horizontal = true;
        this.flags.expand_vertical = true;
        this
    }

    pub fn expand_horizontal(self) -> (r: Self)
        ensures
            r == (CellProperties {
                flags: CellFlags { expand_horizontal: true, ..self.flags },
                ..self
            }),
    {
        let mut this = self;
        this.flags.expand_horizontal = true;
        this
    }

    pub fn expand_vertical(self) -> (r: Self)
        ensures
            r == (CellProperties {
                flags: CellFlags { expand_vertical: true, ..self.flags },
                ..self
            }),
    {
        let mut this = self;
        this.flags.expand_vertical = true;
        this
    }

    /// Lets the cell's own box grow to its maximum size on both axes.
    pub fn fill(self) -> (r: Self)
        ensures
            r == (CellProperties {
                flags: CellFlags { fill_horizontal: true, fill_vertical: true, ..self.flags },
                ..self
            }),
    {
        let mut this = self;
        this.flags.fill_horizontal = true;
        this.flags.fill_vertical = true;
        this
    }

    pub fn fill_horizontal(self) -> (r: Self)
        ensures
            r == (CellProperties {
                flags: CellFlags { fill_horizontal: true, ..self.flags },
                ..self
            }),
    {
        let mut this = self;
        this.flags.fill_horizontal = true;
        this
    }

    pub fn fill_vertical(self) -> (r: Self)
        ensures
            r == (CellProperties {
                flags: CellFlags { fill_vertical: true, ..self.flags },
                ..self
            }),
    {
        let mut this = self;
        this.flags.fill_vertical = true;
        this
    }

    pub fn anchor_top(self) -> (r: Self)
        ensures
            r == (CellProperties {
                flags: CellFlags { anchor_top: true, ..self.flags },
                ..self
            }),
    {
        let mut this = self;
        this.flags.anchor_top = true;
        this
    }

    pub fn anchor_bottom(self) -> (r: Self)
        ensures
            r == (CellProperties {
                flags: CellFlags { anchor_bottom: true, ..self.flags },
                ..self
            }),
    {
        let mut this = self;
        this.flags.anchor_bottom = true;
        this
    }

    pub fn anchor_left(self) -> (r: Self)
        ensures
            r == (CellProperties {
                flags: CellFlags { anchor_left: true, ..self.flags },
                ..self
            }),
    {
        let mut this = self;
        this.flags.anchor_left = true;
        this
    }

    pub fn anchor_right(self) -> (r: Self)
        ensures
            r == (CellProperties {
                flags: CellFlags { anchor_right: true, ..self.flags },
                ..self
            }),
    {
        let mut this = self;
        this.flags.anchor_right = true;
        this
    }

    /// Centers the cell's box inside its track on both axes.
    pub fn anchor_center(self) -> (r: Self)
        ensures
            r == (CellProperties {
                flags: CellFlags {
                    anchor_horizontal_center: true,
                    anchor_vertical_center: true,
                    ..self.flags
                },
                ..self
            }),
    {
        let mut this = self;
        this.flags.anchor_horizontal_center = true;
        this.flags.anchor_vertical_center = true;
        this
    }

    pub fn anchor_horizontal_center(self) -> (r: Self)
        ensures
            r == (CellProperties {
                flags: CellFlags { anchor_horizontal_center: true, ..self.flags },
                ..self
            }),
    {
        let mut this = self;
        this.flags.anchor_horizontal_center = true;
        this
    }

    pub fn anchor_vertical_center(self) -> (r: Self)
        ensures
            r == (CellProperties {
                flags: CellFlags { anchor_vertical_center: true, ..self.flags },
                ..self
            }),
    {
        let mut this = self;
        this.flags.anchor_vertical_center = true;
        this
    }

    pub fn uniform(self) -> (r: Self)
        ensures
            r == (CellProperties {
                flags: CellFlags { uniform: true, ..self.flags },
                ..self
            }),
    {
        let mut this = self;
        this.flags.uniform = true;
        this
    }

    pub fn colspan(self, span: u8) -> (r: Self)
        ensures
            r == (CellProperties { colspan: span, ..self }),
    {
        let mut this = self;
        this.colspan = span;
        this
    }

    /// Registers the host's handle for this cell's positioning interest.
    pub fn callback(self, fun: u64) -> (r: Self)
        ensures
            r == (CellProperties { callback: Some(fun), ..self }),
    {
        let mut this = self;
        this.callback = Some(fun);
        this
    }
}

impl Default for CellProperties {
    fn default() -> (r: Self)
        ensures
            r == CellProperties::spec_default(),
    {
        CellProperties::new()
    }
}

impl Clone for CellProperties {
    /// Duplicating cell properties drops the callback handle: a callback is
    /// a single registered interest and is never shared.
    fn clone(&self) -> (r: Self)
        ensures
            r == self.spec_strip_callback(),
    {
        CellProperties {
            size: self.size,
            flags: self.flags,
            colspan: self.colspan,
            callback: None,
        }
    }
}

} // verus!
