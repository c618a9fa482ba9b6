//! A constraint-based table-layout solver.
//!
//! A layout is described as an ordered list of operations: cell insertions,
//! each carrying size constraints and placement flags, and row breaks. Solving
//! the layout against a target area derives a grid of row and column tracks,
//! negotiates every track's extent against the available space (growing
//! expanding tracks on surplus, shrinking tracks toward their minimum on
//! deficit), and finally box-fits each cell into its track allocation,
//! yielding one placement rectangle per cell in declaration order.
//!
//! All coordinates and extents are whole pixels.

pub mod cell;
pub mod flags;
pub mod geometry;
pub mod laws;
pub mod layout;
pub mod model;
pub mod negotiate;

pub use cell::CellProperties;
pub use layout::TableLayout;
pub use model::LayoutOp;
pub use model::Placement;
pub use negotiate::Track;
pub use flags::CellFlags;
pub use geometry::Rect;
pub use geometry::Size;
pub use geometry::SizeGrouping;
