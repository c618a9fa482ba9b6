//! The table layout: the operation list, the cursor, the defaults tables,
//! and the solver entry point.

use std::collections::BTreeMap;

use vstd::prelude::*;

use crate::cell::CellProperties;
use crate::geometry::lemma_box_fit_bounds;
use crate::geometry::SizeGrouping;
use crate::model::cell_placement;
use crate::model::col_cursor;
use crate::model::column_expands;
use crate::model::column_groups;
use crate::model::column_tracks;
use crate::model::lemma_cell_row_in_range;
use crate::model::lemma_counts;
use crate::model::lemma_prefix_le;
use crate::model::max_columns;
use crate::model::max_int;
use crate::model::negotiated_heights;
use crate::model::negotiated_widths;
use crate::model::placements;
use crate::model::row_breaks;
use crate::model::row_count;
use crate::model::row_expands;
use crate::model::row_groups;
use crate::model::row_tracks;
use crate::model::solve_placements;
use crate::model::sum_first;
use crate::model::LayoutOp;
use crate::model::Placement;
use crate::negotiate::negotiate;
use crate::negotiate::Track;

verus! {

broadcast use {vstd::std_specs::btree::group_btree_axioms, vstd::laws_cmp::group_laws_cmp};

/// A declarative table layout.
///
/// The layout owns an append-only list of operations (cell insertions and
/// row breaks), a cursor saying where the next appended cell would land,
/// and three tiers of default cell properties consulted by
/// [`CellProperties::with_defaults`]: per column, per row, and a global
/// fallback. The defaults only serve cell construction; solving never
/// reads them.
pub struct TableLayout {
    /// The global fallback tier of the defaults lookup.
    pub cell_defaults: CellProperties,
    /// Default properties per row index; the middle tier of the lookup.
    pub row_defaults: BTreeMap<u8, CellProperties>,
    /// Default properties per column index; the first tier of the lookup.
    pub column_defaults: BTreeMap<u8, CellProperties>,
    /// The append-only operation list that solving walks.
    pub opcodes: Vec<LayoutOp>,
    /// The row the next appended cell would land in.
    pub row: u8,
    /// The column the next appended cell would land in.
    pub column: u8,
}

impl TableLayout {
    /// The operation list.
    pub open spec fn ops(&self) -> Seq<LayoutOp> {
        self.opcodes@
    }

    /// The row the next appended cell would land in: the row breaks so far.
    pub open spec fn spec_row(&self) -> u8 {
        self.row
    }

    /// The column the next appended cell would land in: the summed colspans
    /// since the last row break.
    pub open spec fn spec_column(&self) -> u8 {
        self.column
    }

    /// Well-formedness: the cursor mirrors the operation list, and the grid
    /// fits the 8-bit row and column counters. Every constructor and
    /// mutator of the layout preserves this.
    pub open spec fn wf(&self) -> bool {
        &&& self.spec_column() as int == col_cursor(self.ops())
        &&& self.spec_row() as int == row_breaks(self.ops())
        &&& max_columns(self.ops()) <= 255
        &&& row_breaks(self.ops()) <= 254
    }

    /// Creates an empty layout with factory defaults.
    pub fn new() -> (r: TableLayout)
        ensures
            r.wf(),
            r.ops() == Seq::<LayoutOp>::empty(),
            r.spec_row() == 0,
            r.spec_column() == 0,
            r.cell_defaults == CellProperties::spec_default(),
            r.row_defaults@ == Map::<u8, CellProperties>::empty(),
            r.column_defaults@ == Map::<u8, CellProperties>::empty(),
    {
        TableLayout {
            cell_defaults: CellProperties::new(),
            row_defaults: BTreeMap::new(),
            column_defaults: BTreeMap::new(),
            opcodes: Vec::new(),
            row: 0,
            column: 0,
        }
    }

    /// The row the next appended cell would land in.
    pub fn current_row(&self) -> (r: u8)
        ensures
            r == self.spec_row(),
    {
        self.row
    }

    /// The column the next appended cell would land in.
    pub fn current_column(&self) -> (r: u8)
        ensures
            r == self.spec_column(),
    {
        self.column
    }

    /// Calculates the number of rows and columns which exist in this table
    /// layout.
    pub fn get_rows_cols(&self) -> (r: (u8, u8))
        requires
            self.wf(),
        ensures
            r.0 as int == row_count(self.ops()),
            r.1 as int == max_columns(self.ops()),
    {
        let ghost ops = self.ops();
        let mut cols: u8 = 0;
        let mut colcur: u8 = 0;
        let mut rows: u8 = 0;
        let n = self.opcodes.len();
        for i in 0..n
            invariant
                ops == self.ops(),
                n == ops.len(),
                max_columns(ops) <= 255,
                row_breaks(ops) <= 254,
                colcur as int == col_cursor(ops.take(i as int)),
                rows as int == row_breaks(ops.take(i as int)),
                max_int(cols as int, colcur as int) == max_columns(ops.take(i as int)),
        {
            proof {
                assert(ops.take(i as int + 1).drop_last() =~= ops.take(i as int));
                assert(ops.take(i as int + 1).last() == ops[i as int]);
                lemma_counts(ops.take(i as int + 1));
                lemma_prefix_le(ops, i as int + 1);
            }
            match &self.opcodes[i] {
                LayoutOp::Cell(cp) => {
                    colcur = colcur + cp.colspan;
                },
                LayoutOp::Row => {
                    if colcur > cols {
                        cols = colcur;
                    }
                    colcur = 0;
                    rows = rows + 1;
                },
            }
        }
        proof {
            assert(ops.take(n as int) =~= ops);
        }
        if colcur > 0 {
            if colcur > cols {
                cols = colcur;
            }
            rows = rows + 1;
        }
        (rows, cols)
    }

    /// Removes all layout declarations from the table. Does not remove row
    /// or column defaults.
    pub fn clear(&mut self)
        ensures
            final(self).wf(),
            final(self).ops() == Seq::<LayoutOp>::empty(),
            final(self).spec_row() == 0,
            final(self).spec_column() == 0,
            final(self).cell_defaults == old(self).cell_defaults,
            final(self).row_defaults == old(self).row_defaults,
            final(self).column_defaults == old(self).column_defaults,
    {
        self.row = 0;
        self.column = 0;
        self.opcodes.clear()
    }

    /// Removes all layout declarations and resets all settings to factory
    /// default.
    pub fn full_clear(&mut self)
        ensures
            final(self).wf(),
            final(self).ops() == Seq::<LayoutOp>::empty(),
            final(self).spec_row() == 0,
            final(self).spec_column() == 0,
            final(self).cell_defaults == CellProperties::spec_default(),
            final(self).row_defaults@ == Map::<u8, CellProperties>::empty(),
            final(self).column_defaults@ == Map::<u8, CellProperties>::empty(),
    {
        self.clear();
        self.row_defaults.clear();
        self.column_defaults.clear();
        self.cell_defaults = CellProperties::new()
    }

    /// Adds a new row break to the layout.
    pub fn with_row(&mut self)
        requires
            old(self).wf(),
            old(self).spec_row() < 254,
        ensures
            final(self).wf(),
            final(self).ops() == old(self).ops().push(LayoutOp::Row),
            final(self).spec_row() == old(self).spec_row() + 1,
            final(self).spec_column() == 0,
            final(self).cell_defaults == old(self).cell_defaults,
            final(self).row_defaults == old(self).row_defaults,
            final(self).column_defaults == old(self).column_defaults,
    {
        self.opcodes.push(LayoutOp::Row);
        self.row = self.row + 1;
        self.column = 0;
        proof {
            assert(self.ops().drop_last() =~= old(self).ops());
            lemma_counts(old(self).ops());
        }
    }

    /// Hands the cell off to the layout.
    pub fn with_cell(&mut self, properties: CellProperties)
        requires
            old(self).wf(),
            old(self).spec_column() as int + properties.colspan as int <= 255,
        ensures
            final(self).wf(),
            final(self).ops() == old(self).ops().push(LayoutOp::Cell(properties)),
            final(self).spec_row() == old(self).spec_row(),
            final(self).spec_column() as int == old(self).spec_column() as int + properties.colspan as int,
            final(self).cell_defaults == old(self).cell_defaults,
            final(self).row_defaults == old(self).row_defaults,
            final(self).column_defaults == old(self).column_defaults,
    {
        self.column = self.column + properties.colspan;
        self.opcodes.push(LayoutOp::Cell(properties));
        proof {
            assert(self.ops().drop_last() =~= old(self).ops());
            lemma_counts(old(self).ops());
        }
    }
    /// Solves the layout against a `width` by `height` target area.
    ///
    /// The solver derives the grid, aggregates every track's size
    /// constraints, negotiates column widths against the target width and
    /// row heights against the target height, and box-fits every cell into
    /// its track. It returns one placement per cell with a positive
    /// colspan, in declaration order, each carrying the cell's callback
    /// handle; the host delivers each rectangle to the interest registered
    /// under the handle. A layout without columns yields no placements,
    /// and a cell with a colspan of zero is inert: it yields no placement,
    /// so a callback registered on it is never reported.
    pub fn impose(&self, width: u32, height: u32) -> (r: Vec<Placement>)
        requires
            self.wf(),
        ensures
            r@ == solve_placements(self.ops(), width, height),
    {
        let ghost ops = self.ops();
        let (total_rows, total_cols) = self.get_rows_cols();
        if total_cols == 0 {
            let r: Vec<Placement> = Vec::new();
            proof {
                assert(r@ =~= solve_placements(ops, width, height));
            }
            return r;
        }
        let nc = total_cols as usize;
        let nr = total_rows as usize;
        let ghost ncn = max_columns(ops) as nat;
        let ghost nrn = row_count(ops) as nat;
        let n_ops = self.opcodes.len();

        let mut col_sizes: Vec<SizeGrouping> = Vec::new();
        for i in 0..nc
            invariant
                col_sizes@.len() == i,
                forall|j: int| 0 <= j < i ==> col_sizes@[j] == SizeGrouping::spec_default(),
        {
            col_sizes.push(SizeGrouping::default());
        }
        let mut row_sizes: Vec<SizeGrouping> = Vec::new();
        for i in 0..nr
            invariant
                row_sizes@.len() == i,
                forall|j: int| 0 <= j < i ==> row_sizes@[j] == SizeGrouping::spec_default(),
        {
            row_sizes.push(SizeGrouping::default());
        }
        let mut has_xexpand: Vec<bool> = Vec::new();
        for i in 0..nc
            invariant
                has_xexpand@.len() == i,
                forall|j: int| 0 <= j < i ==> has_xexpand@[j] == false,
        {
            has_xexpand.push(false);
        }
        let mut has_yexpand: Vec<bool> = Vec::new();
        for i in 0..nr
            invariant
                has_yexpand@.len() == i,
                forall|j: int| 0 <= j < i ==> has_yexpand@[j] == false,
        {
            has_yexpand.push(false);
        }
        proof {
            assert(ops.take(0) =~= Seq::<LayoutOp>::empty());
            assert(col_sizes@ =~= column_groups(ops.take(0), ncn));
            assert(row_sizes@ =~= row_groups(ops.take(0), nrn));
            assert(has_xexpand@ =~= column_expands(ops.take(0), ncn));
            assert(has_yexpand@ =~= row_expands(ops.take(0), nrn));
        }

        // Aggregate every cell's constraints into its row and columns.
        let mut row: usize = 0;
        let mut col: usize = 0;
        for i in 0..n_ops
            invariant
                ops == self.ops(),
                n_ops == ops.len(),
                self.wf(),
                ncn == max_columns(ops) as nat,
                nrn == row_count(ops) as nat,
                nc == max_columns(ops),
                nr == row_count(ops),
                nr <= 255,
                col == col_cursor(ops.take(i as int)),
                row == row_breaks(ops.take(i as int)),
                col_sizes@ == column_groups(ops.take(i as int), ncn),
                row_sizes@ == row_groups(ops.take(i as int), nrn),
                has_xexpand@ == column_expands(ops.take(i as int), ncn),
                has_yexpand@ == row_expands(ops.take(i as int), nrn),
                col_sizes@.len() == nc,
                row_sizes@.len() == nr,
                has_xexpand@.len() == nc,
                has_yexpand@.len() == nr,
        {
            proof {
                assert(ops.take(i as int + 1).drop_last() =~= ops.take(i as int));
                assert(ops.take(i as int + 1).last() == ops[i as int]);
                lemma_counts(ops.take(i as int + 1));
                lemma_prefix_le(ops, i as int + 1);
            }
            match &self.opcodes[i] {
                LayoutOp::Cell(cp) => {
                    if cp.colspan > 0 {
                        proof {
                            lemma_cell_row_in_range(ops, i as int);
                        }
                        let midget = cp.size.spread(cp.colspan as u32);
                        let joined_row = SizeGrouping::join(&row_sizes[row], &cp.size);
                        row_sizes[row] = joined_row;
                        if cp.flags.expand_vertical {
                            has_yexpand[row] = true;
                        }
                        let ghost before = col_sizes@;
                        let ghost xbefore = has_xexpand@;
                        let ghost c0 = col as int;
                        let span = cp.colspan;
                        for k in 0..span
                            invariant
                                col == c0 + k,
                                0 <= c0,
                                c0 + span <= nc,
                                col_sizes@.len() == nc,
                                has_xexpand@.len() == nc,
                                before.len() == nc,
                                xbefore.len() == nc,
                                midget == cp.size.spec_spread(cp.colspan as u32),
                                span == cp.colspan,
                                cp.colspan > 0,
                                forall|j: int|
                                    0 <= j < nc ==> col_sizes@[j] == (if c0 <= j < c0 + k {
                                        SizeGrouping::spec_join(before[j], midget)
                                    } else {
                                        before[j]
                                    }),
                                forall|j: int|
                                    0 <= j < nc ==> has_xexpand@[j] == (if c0 <= j < c0 + k
                                        && cp.flags.expand_horizontal {
                                        true
                                    } else {
                                        xbefore[j]
                                    }),
                        {
                            if cp.flags.expand_horizontal {
                                has_xexpand[col] = true;
                            }
                            let joined_col = SizeGrouping::join(&col_sizes[col], &midget);
                            col_sizes[col] = joined_col;
                            col = col + 1;
                        }
                        proof {
                            assert(col_sizes@ =~= column_groups(ops.take(i as int + 1), ncn));
                            assert(has_xexpand@ =~= column_expands(ops.take(i as int + 1), ncn));
                            assert(row_sizes@ =~= row_groups(ops.take(i as int + 1), nrn));
                            assert(has_yexpand@ =~= row_expands(ops.take(i as int + 1), nrn));
                        }
                    } else {
                        proof {
                            assert(col_sizes@ =~= column_groups(ops.take(i as int + 1), ncn));
                            assert(has_xexpand@ =~= column_expands(ops.take(i as int + 1), ncn));
                            assert(row_sizes@ =~= row_groups(ops.take(i as int + 1), nrn));
                            assert(has_yexpand@ =~= row_expands(ops.take(i as int + 1), nrn));
                        }
                    }
                },
                LayoutOp::Row => {
                    row = row + 1;
                    col = 0;
                },
            }
        }
        proof {
            assert(ops.take(n_ops as int) =~= ops);
        }

        // Negotiate column widths against the target width.
        let mut ctracks: Vec<Track> = Vec::new();
        for j in 0..nc
            invariant
                ctracks@.len() == j,
                col_sizes@.len() == nc,
                has_xexpand@.len() == nc,
                col_sizes@ == column_groups(ops, ncn),
                has_xexpand@ == column_expands(ops, ncn),
                ncn == max_columns(ops) as nat,
                nc == max_columns(ops),
                forall|q: int| 0 <= q < j ==> ctracks@[q] == column_tracks(ops, ncn)[q],
        {
            ctracks.push(
                Track {
                    preferred: col_sizes[j].preferred.width,
                    minimum: col_sizes[j].minimum.width,
                    expand: has_xexpand[j],
                },
            );
        }
        proof {
            assert(ctracks@ =~= column_tracks(ops, ncn));
        }
        let col_widths = negotiate(&ctracks, width);
        let ghost cw = negotiated_widths(ops, ncn, width as int);
        proof {
            assert(forall|j: int| 0 <= j < nc ==> cw[j] == col_widths@[j] as int);
        }

        // Negotiate row heights against the target height.
        let mut rtracks: Vec<Track> = Vec::new();
        for j in 0..nr
            invariant
                rtracks@.len() == j,
                row_sizes@.len() == nr,
                has_yexpand@.len() == nr,
                row_sizes@ == row_groups(ops, nrn),
                has_yexpand@ == row_expands(ops, nrn),
                nrn == row_count(ops) as nat,
                nr == row_count(ops),
                forall|q: int| 0 <= q < j ==> rtracks@[q] == row_tracks(ops, nrn)[q],
        {
            rtracks.push(
                Track {
                    preferred: row_sizes[j].preferred.height,
                    minimum: row_sizes[j].minimum.height,
                    expand: has_yexpand[j],
                },
            );
        }
        proof {
            assert(rtracks@ =~= row_tracks(ops, nrn));
        }
        let row_heights = negotiate(&rtracks, height);
        let ghost rh = negotiated_heights(ops, nrn, height as int);
        proof {
            assert(forall|j: int| 0 <= j < nr ==> rh[j] == row_heights@[j] as int);
        }

        // Walk the operations again and place every cell.
        let mut out: Vec<Placement> = Vec::new();
        let mut x: u64 = 0;
        let mut y: u64 = 0;
        row = 0;
        col = 0;
        for i in 0..n_ops
            invariant
                ops == self.ops(),
                n_ops == ops.len(),
                self.wf(),
                ncn == max_columns(ops) as nat,
                nrn == row_count(ops) as nat,
                nc == max_columns(ops),
                nr == row_count(ops),
                nc <= 255,
                nr <= 255,
                cw == negotiated_widths(ops, ncn, width as int),
                rh == negotiated_heights(ops, nrn, height as int),
                cw.len() == nc,
                rh.len() == nr,
                col_widths@.len() == nc,
                row_heights@.len() == nr,
                forall|j: int| 0 <= j < nc ==> cw[j] == col_widths@[j] as int,
                forall|j: int| 0 <= j < nr ==> rh[j] == row_heights@[j] as int,
                col == col_cursor(ops.take(i as int)),
                row == row_breaks(ops.take(i as int)),
                col <= nc,
                row as int <= row_breaks(ops),
                x as int == sum_first(cw, col as int),
                y as int == sum_first(rh, row as int),
                x <= col as u64 * 0xffff_ffffu64,
                y <= row as u64 * 0xffff_ffffu64,
                out@ == placements(ops.take(i as int), cw, rh),
        {
            proof {
                assert(ops.take(i as int + 1).drop_last() =~= ops.take(i as int));
                assert(ops.take(i as int + 1).last() == ops[i as int]);
                lemma_counts(ops.take(i as int + 1));
                lemma_prefix_le(ops, i as int + 1);
            }
            match &self.opcodes[i] {
                LayoutOp::Cell(cp) => {
                    if cp.colspan > 0 {
                        proof {
                            lemma_cell_row_in_range(ops, i as int);
                        }
                        let ghost c0 = col as int;
                        let span = cp.colspan;
                        let mut tw: u64 = 0;
                        let mut k: u8 = 0;
                        while k < span
                            invariant
                                k <= span,
                                col == c0 + k,
                                0 <= c0,
                                c0 + span <= nc,
                                nc <= 255,
                                col_widths@.len() == nc,
                                cw.len() == nc,
                                forall|j: int| 0 <= j < nc ==> cw[j] == col_widths@[j] as int,
                                tw as int == sum_first(cw, c0 + k) - sum_first(cw, c0),
                                tw <= k as u64 * 0xffff_ffffu64,
                            decreases span - k,
                        {
                            tw = tw + col_widths[col] as u64;
                            col = col + 1;
                            k = k + 1;
                        }
                        let th = row_heights[row];
                        let rect = cp.size.box_fit(tw, th as u64, cp.flags);
                        proof {
                            lemma_box_fit_bounds(cp.size, tw as int, th as int, cp.flags);
                        }
                        let px = x + rect.x;
                        let py = y + rect.y;
                        out.push(
                            Placement {
                                x: px,
                                y: py,
                                width: rect.width,
                                height: rect.height,
                                callback: cp.callback,
                            },
                        );
                        x = x + tw;
                        proof {
                            assert(out@.last() == cell_placement(*cp, c0, row as int, cw, rh));
                            assert(out@ =~= placements(ops.take(i as int + 1), cw, rh));
                        }
                    } else {
                        proof {
                            assert(out@ =~= placements(ops.take(i as int + 1), cw, rh));
                        }
                    }
                },
                LayoutOp::Row => {
                    let th = row_heights[row];
                    x = 0;
                    y = y + th as u64;
                    row = row + 1;
                    col = 0;
                },
            }
        }
        proof {
            assert(ops.take(n_ops as int) =~= ops);
        }
        out
    }
}

impl CellProperties {
    /// Inherits the default settings as determined by a [`TableLayout`].
    /// Will first try to match the defaults for the column this would be
    /// added to, then the row, then the fallback defaults. Note that these
    /// defaults apply only if the cell was added next and if the defaults
    /// have not been changed since. The correct use of `with_defaults` is
    /// to initialize `CellProperties` for immediate insertion to a layout.
    ///
    /// Whichever tier matches, the returned properties carry no callback
    /// handle: a callback is never inherited.
    pub fn with_defaults(layout: &TableLayout) -> (r: CellProperties)
        ensures
            r == (if layout.column_defaults@.contains_key(layout.spec_column()) {
                layout.column_defaults@[layout.spec_column()].spec_strip_callback()
            } else if layout.row_defaults@.contains_key(layout.spec_row()) {
                layout.row_defaults@[layout.spec_row()].spec_strip_callback()
            } else {
                layout.cell_defaults.spec_strip_callback()
            }),
    {
        let column_value = layout.column_defaults.get(&layout.column);
        match column_value {
            Some(cp) => cp.clone(),
            None => {
                let row_value = layout.row_defaults.get(&layout.row);
                match row_value {
                    Some(cp) => cp.clone(),
                    None => layout.cell_defaults.clone(),
                }
            },
        }
    }
}

} // verus!
