//! The mathematical model of the solver: what the grid dimensions, the
//! per-track aggregates and the final placements are, as functions of the
//! operation list.
//!
//! Every function here recurses on the operation list from the right, so a
//! value for `ops` is defined from the value for `ops.drop_last()` and the
//! last operation. The executable solver walks the list from the left and
//! is proved to maintain these functions over the processed prefix.

use vstd::prelude::*;

use crate::cell::CellProperties;
use crate::flags::CellFlags;
use crate::geometry::SizeGrouping;
use crate::negotiate::negotiated;
use crate::negotiate::Track;

verus! {

/// One instruction of the layout description.
pub enum LayoutOp {
    /// Inserts a cell in the resulting layout.
    Cell(CellProperties),
    /// Inserts a row break in the resulting layout.
    Row,
}

/// The larger of two mathematical integers.
pub open spec fn max_int(a: int, b: int) -> int {
    if a >= b {
        a
    } else {
        b
    }
}

/// The column cursor after the operations: the summed colspans of the cells
/// since the last row break.
pub open spec fn col_cursor(ops: Seq<LayoutOp>) -> int
    decreases ops.len(),
{
    if ops.len() == 0 {
        0
    } else {
        match ops.last() {
            LayoutOp::Cell(cp) => col_cursor(ops.drop_last()) + cp.colspan,
            LayoutOp::Row => 0,
        }
    }
}

/// The number of row breaks among the operations.
pub open spec fn row_breaks(ops: Seq<LayoutOp>) -> int
    decreases ops.len(),
{
    if ops.len() == 0 {
        0
    } else {
        match ops.last() {
            LayoutOp::Cell(cp) => row_breaks(ops.drop_last()),
            LayoutOp::Row => row_breaks(ops.drop_last()) + 1,
        }
    }
}

/// The number of columns in the grid: the largest column cursor reached at
/// any point of the operation list.
pub open spec fn max_columns(ops: Seq<LayoutOp>) -> int
    decreases ops.len(),
{
    if ops.len() == 0 {
        0
    } else {
        max_int(max_columns(ops.drop_last()), col_cursor(ops))
    }
}

/// The number of rows in the grid: the row breaks, plus the trailing row
/// when any cell follows the last break.
pub open spec fn row_count(ops: Seq<LayoutOp>) -> int {
    row_breaks(ops) + if col_cursor(ops) > 0 {
        1int
    } else {
        0int
    }
}

/// The aggregated size constraints of the `n` column tracks: every cell's
/// grouping, spread over the columns it spans, joined into each of them.
pub open spec fn column_groups(ops: Seq<LayoutOp>, n: nat) -> Seq<SizeGrouping>
    decreases ops.len(),
{
    if ops.len() == 0 {
        Seq::new(n, |j: int| SizeGrouping::spec_default())
    } else {
        match ops.last() {
            LayoutOp::Row => column_groups(ops.drop_last(), n),
            LayoutOp::Cell(cp) => {
                if cp.colspan == 0 {
                    column_groups(ops.drop_last(), n)
                } else {
                    let prev = column_groups(ops.drop_last(), n);
                    let c = col_cursor(ops.drop_last());
                    Seq::new(
                        n,
                        |j: int|
                            if c <= j < c + cp.colspan {
                                SizeGrouping::spec_join(prev[j], cp.size.spec_spread(cp.colspan as u32))
                            } else {
                                prev[j]
                            },
                    )
                }
            },
        }
    }
}

/// Which of the `n` column tracks want expansion: every column spanned by a
/// cell with the horizontal expansion flag.
pub open spec fn column_expands(ops: Seq<LayoutOp>, n: nat) -> Seq<bool>
    decreases ops.len(),
{
    if ops.len() == 0 {
        Seq::new(n, |j: int| false)
    } else {
        match ops.last() {
            LayoutOp::Row => column_expands(ops.drop_last(), n),
            LayoutOp::Cell(cp) => {
                if cp.colspan == 0 {
                    column_expands(ops.drop_last(), n)
                } else {
                    let prev = column_expands(ops.drop_last(), n);
                    let c = col_cursor(ops.drop_last());
                    Seq::new(
                        n,
                        |j: int|
                            if c <= j < c + cp.colspan && cp.flags.expand_horizontal {
                                true
                            } else {
                                prev[j]
                            },
                    )
                }
            },
        }
    }
}

/// The aggregated size constraints of the `n` row tracks: every cell's
/// unspread grouping joined into its row.
pub open spec fn row_groups(ops: Seq<LayoutOp>, n: nat) -> Seq<SizeGrouping>
    decreases ops.len(),
{
    if ops.len() == 0 {
        Seq::new(n, |j: int| SizeGrouping::spec_default())
    } else {
        match ops.last() {
            LayoutOp::Row => row_groups(ops.drop_last(), n),
            LayoutOp::Cell(cp) => {
                if cp.colspan == 0 {
                    row_groups(ops.drop_last(), n)
                } else {
                    let prev = row_groups(ops.drop_last(), n);
                    let r = row_breaks(ops.drop_last());
                    Seq::new(
                        n,
                        |j: int|
                            if j == r {
                                SizeGrouping::spec_join(prev[j], cp.size)
                            } else {
                                prev[j]
                            },
                    )
                }
            },
        }
    }
}

/// Which of the `n` row tracks want expansion: every row holding a cell
/// with the vertical expansion flag.
pub open spec fn row_expands(ops: Seq<LayoutOp>, n: nat) -> Seq<bool>
    decreases ops.len(),
{
    if ops.len() == 0 {
        Seq::new(n, |j: int| false)
    } else {
        match ops.last() {
            LayoutOp::Row => row_expands(ops.drop_last(), n),
            LayoutOp::Cell(cp) => {
                if cp.colspan == 0 {
                    row_expands(ops.drop_last(), n)
                } else {
                    let prev = row_expands(ops.drop_last(), n);
                    let r = row_breaks(ops.drop_last());
                    Seq::new(
                        n,
                        |j: int|
                            if j == r && cp.flags.expand_vertical {
                                true
                            } else {
                                prev[j]
                            },
                    )
                }
            },
        }
    }
}

/// The `n` column tracks handed to the negotiation: preferred and minimum
/// widths with the expansion mark.
pub open spec fn column_tracks(ops: Seq<LayoutOp>, n: nat) -> Seq<Track> {
    Seq::new(
        n,
        |j: int|
            Track {
                preferred: column_groups(ops, n)[j].preferred.width,
                minimum: column_groups(ops, n)[j].minimum.width,
                expand: column_expands(ops, n)[j],
            },
    )
}

/// The `n` row tracks handed to the negotiation: preferred and minimum
/// heights with the expansion mark.
pub open spec fn row_tracks(ops: Seq<LayoutOp>, n: nat) -> Seq<Track> {
    Seq::new(
        n,
        |j: int|
            Track {
                preferred: row_groups(ops, n)[j].preferred.height,
                minimum: row_groups(ops, n)[j].minimum.height,
                expand: row_expands(ops, n)[j],
            },
    )
}

/// The negotiated widths of the `n` column tracks under the target width.
pub open spec fn negotiated_widths(ops: Seq<LayoutOp>, n: nat, width: int) -> Seq<int> {
    Seq::new(n, |j: int| negotiated(column_tracks(ops, n), width, j))
}

/// The negotiated heights of the `n` row tracks under the target height.
pub open spec fn negotiated_heights(ops: Seq<LayoutOp>, n: nat, height: int) -> Seq<int> {
    Seq::new(n, |j: int| negotiated(row_tracks(ops, n), height, j))
}

/// The sum of the first `k` entries of a sequence of integers.
pub open spec fn sum_first(s: Seq<int>, k: int) -> int
    recommends
        0 <= k <= s.len(),
    decreases k,
{
    if k <= 0 {
        0
    } else {
        sum_first(s, k - 1) + s[k - 1]
    }
}

/// One cell's placement, carrying the host's callback handle.
#[derive(Clone, Copy, PartialEq, Eq, Debug)]
pub struct Placement {
    /// Horizontal offset of the fitted box from the table's left edge.
    pub x: u64,
    /// Vertical offset of the fitted box from the table's top edge.
    pub y: u64,
    /// Width of the fitted box.
    pub width: u64,
    /// Height of the fitted box.
    pub height: u64,
    /// The handle of the cell's positioning interest, if one was registered.
    pub callback: Option<u64>,
}

/// The placement of one cell standing at column `col` of row `row`, given
/// the negotiated column widths and row heights.
///
/// The cell's track is `colspan` consecutive columns wide and one row high;
/// its box is fitted into that track, and the box's offset is taken from
/// the table origin: the summed widths of the columns left of the cell, and
/// the summed heights of the rows above it.
pub open spec fn cell_placement(
    cp: CellProperties,
    col: int,
    row: int,
    widths: Seq<int>,
    heights: Seq<int>,
) -> Placement {
    let track_width = sum_first(widths, col + cp.colspan) - sum_first(widths, col);
    let track_height = heights[row];
    let fit = cp.size.spec_box_fit(track_width, track_height, cp.flags);
    Placement {
        x: (sum_first(widths, col) + fit.0) as u64,
        y: (sum_first(heights, row) + fit.1) as u64,
        width: fit.2 as u64,
        height: fit.3 as u64,
        callback: cp.callback,
    }
}

/// The placements of all cells in declaration order. Cells with a colspan
/// of zero are inert and yield no placement.
pub open spec fn placements(ops: Seq<LayoutOp>, widths: Seq<int>, heights: Seq<int>) -> Seq<
    Placement,
>
    decreases ops.len(),
{
    if ops.len() == 0 {
        Seq::empty()
    } else {
        match ops.last() {
            LayoutOp::Row => placements(ops.drop_last(), widths, heights),
            LayoutOp::Cell(cp) => {
                if cp.colspan == 0 {
                    placements(ops.drop_last(), widths, heights)
                } else {
                    placements(ops.drop_last(), widths, heights).push(
                        cell_placement(
                            cp,
                            col_cursor(ops.drop_last()),
                            row_breaks(ops.drop_last()),
                            widths,
                            heights,
                        ),
                    )
                }
            },
        }
    }
}

/// The grid counters are never negative, and the column cursor never
/// exceeds the column count.
pub proof fn lemma_counts(ops: Seq<LayoutOp>)
    ensures
        0 <= col_cursor(ops) <= max_columns(ops),
        0 <= row_breaks(ops),
    decreases ops.len(),
{
    if ops.len() > 0 {
        lemma_counts(ops.drop_last());
    }
}

/// Dropping the last operation never enlarges the grid.
pub proof fn lemma_drop_last_le(ops: Seq<LayoutOp>)
    requires
        ops.len() > 0,
    ensures
        max_columns(ops.drop_last()) <= max_columns(ops),
        row_breaks(ops.drop_last()) <= row_breaks(ops),
        row_count(ops.drop_last()) <= row_count(ops),
{
    lemma_counts(ops.drop_last());
}

/// A prefix of the operations has no larger grid than the whole list.
pub proof fn lemma_prefix_le(ops: Seq<LayoutOp>, i: int)
    requires
        0 <= i <= ops.len(),
    ensures
        max_columns(ops.take(i)) <= max_columns(ops),
        row_breaks(ops.take(i)) <= row_breaks(ops),
        row_count(ops.take(i)) <= row_count(ops),
    decreases ops.len() - i,
{
    if i == ops.len() {
        assert(ops.take(i) =~= ops);
    } else {
        assert(ops.take(i) =~= ops.drop_last().take(i));
        lemma_prefix_le(ops.drop_last(), i);
        lemma_drop_last_le(ops);
    }
}

/// A cell with a positive colspan lies in a row that the grid counts.
pub proof fn lemma_cell_row_in_range(ops: Seq<LayoutOp>, i: int)
    requires
        0 <= i < ops.len(),
        ops[i] matches LayoutOp::Cell(cp) && cp.colspan > 0,
    ensures
        row_breaks(ops.take(i)) < row_count(ops),
    decreases ops.len(),
{
    if i == ops.len() - 1 {
        assert(ops.take(i) =~= ops.drop_last());
        lemma_counts(ops.drop_last());
    } else {
        assert(ops.take(i) =~= ops.drop_last().take(i));
        assert(ops.drop_last()[i] == ops[i]);
        lemma_cell_row_in_range(ops.drop_last(), i);
        lemma_drop_last_le(ops);
    }
}

/// What solving the layout against a target area yields: no placements for
/// an empty grid, and otherwise every cell box-fitted into its track under
/// the negotiated column widths and row heights.
pub open spec fn solve_placements(ops: Seq<LayoutOp>, width: u32, height: u32) -> Seq<Placement> {
    let nc = max_columns(ops);
    let nr = row_count(ops);
    if nc == 0 {
        Seq::empty()
    } else {
        placements(
            ops,
            negotiated_widths(ops, nc as nat, width as int),
            negotiated_heights(ops, nr as nat, height as int),
        )
    }
}

} // verus!
