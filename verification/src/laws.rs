//! The solver's laws: properties that hold of every layout, stated over
//! the same model functions that the solver's contracts use.

use vstd::arithmetic::div_mod::lemma_div_is_ordered;
use vstd::arithmetic::div_mod::lemma_div_pos_is_pos;
use vstd::arithmetic::mul::lemma_mul_nonnegative;
use vstd::prelude::*;

use crate::cell::CellProperties;
use crate::geometry::SizeGrouping;
use crate::model::col_cursor;
use crate::model::column_expands;
use crate::model::column_groups;
use crate::model::column_tracks;
use crate::model::lemma_counts;
use crate::model::max_columns;
use crate::model::negotiated_heights;
use crate::model::negotiated_widths;
use crate::model::placements;
use crate::model::row_breaks;
use crate::model::row_count;
use crate::model::row_expands;
use crate::model::row_groups;
use crate::model::row_tracks;
use crate::model::solve_placements;
use crate::model::sum_first;
use crate::model::LayoutOp;
use crate::model::Placement;
use crate::negotiate::count_expanding;
use crate::negotiate::negotiated;
use crate::negotiate::negotiated_all;
use crate::negotiate::spec_slack;
use crate::negotiate::sum_preferred;
use crate::negotiate::sum_slack;
use crate::negotiate::Track;

verus! {

/// Solving is deterministic: the placements are a function of the
/// operation list and the target area alone. Two solves of the same
/// unmutated layout — consecutive or not — yield identical placements,
/// which is also why re-solving is idempotent.
pub proof fn lemma_solve_deterministic(
    ops: Seq<LayoutOp>,
    width: u32,
    height: u32,
    first: Seq<Placement>,
    second: Seq<Placement>,
)
    requires
        first == solve_placements(ops, width, height),
        second == solve_placements(ops, width, height),
    ensures
        first == second,
{
}

/// Relates the per-track negotiated extents to the summed preferred
/// extents of a prefix of the tracks.
proof fn lemma_sum_first_vs_preferred(vals: Seq<int>, tracks: Seq<Track>, k: int)
    requires
        0 <= k <= tracks.len(),
        k <= vals.len(),
        forall|j: int| 0 <= j < k ==> vals[j] == tracks[j].preferred,
    ensures
        sum_first(vals, k) == sum_preferred(tracks.take(k)),
    decreases k,
{
    if k > 0 {
        lemma_sum_first_vs_preferred(vals, tracks, k - 1);
        assert(tracks.take(k).drop_last() =~= tracks.take(k - 1));
        assert(tracks.take(k).last() == tracks[k - 1]);
    }
}

/// Surplus space stays unclaimed without expanding tracks: when the budget
/// is at least the summed preferred extents and no track wants expansion,
/// every track keeps exactly its preferred extent, so the summed negotiated
/// extents equal the summed preferred extents and never exceed them.
pub proof fn lemma_surplus_stays_unclaimed(tracks: Seq<Track>, budget: int)
    requires
        sum_preferred(tracks) <= budget,
        count_expanding(tracks) == 0,
    ensures
        forall|i: int|
            0 <= i < tracks.len() ==> negotiated(tracks, budget, i) == tracks[i].preferred,
        sum_first(negotiated_all(tracks, budget), tracks.len() as int) == sum_preferred(tracks),
{
    assert forall|i: int| 0 <= i < tracks.len() implies negotiated(tracks, budget, i)
        == tracks[i].preferred by {}
    lemma_sum_first_vs_preferred(
        negotiated_all(tracks, budget),
        tracks,
        tracks.len() as int,
    );
    assert(tracks.take(tracks.len() as int) =~= tracks);
}

/// Negotiation under deficit respects every track's bounds: when the
/// budget is at most the summed preferred extents and each track's minimum
/// is at most its preferred extent, each negotiated extent lies between
/// the track's minimum and its preferred extent.
pub proof fn lemma_deficit_bounds(tracks: Seq<Track>, budget: int, i: int)
    requires
        0 <= i < tracks.len(),
        budget <= sum_preferred(tracks),
        forall|j: int| 0 <= j < tracks.len() ==> (#[trigger] tracks[j]).minimum <= tracks[j].preferred,
    ensures
        tracks[i].minimum <= negotiated(tracks, budget, i) <= tracks[i].preferred,
{
    let total = sum_preferred(tracks);
    let t = tracks[i];
    if budget < total {
        let ts = sum_slack(tracks);
        if ts > 0 {
            let deficit = total - budget;
            let slack = spec_slack(t);
            lemma_mul_nonnegative(deficit, slack);
            lemma_div_pos_is_pos(deficit * slack, ts);
        }
    }
}

/// No cell in the layout asks its columns to claim surplus width.
pub open spec fn no_horizontal_expanders(ops: Seq<LayoutOp>) -> bool {
    forall|i: int|
        0 <= i < ops.len() ==> match #[trigger] ops[i] {
            LayoutOp::Cell(cp) => !cp.flags.expand_horizontal,
            LayoutOp::Row => true,
        }
}

/// Every cell declares a minimum size no larger than its preferred size,
/// component-wise: the well-formedness the solver's arithmetic assumes of
/// its callers.
pub open spec fn sane_cells(ops: Seq<LayoutOp>) -> bool {
    forall|i: int|
        0 <= i < ops.len() ==> match #[trigger] ops[i] {
            LayoutOp::Cell(cp) => cp.size.minimum.width <= cp.size.preferred.width
                && cp.size.minimum.height <= cp.size.preferred.height,
            LayoutOp::Row => true,
        }
}

/// Without horizontally expanding cells, no column track is marked as
/// expansion-wanting.
proof fn lemma_no_xexpand_columns(ops: Seq<LayoutOp>, n: nat)
    requires
        no_horizontal_expanders(ops),
    ensures
        forall|j: int| 0 <= j < n ==> column_expands(ops, n)[j] == false,
    decreases ops.len(),
{
    if ops.len() > 0 {
        assert(forall|i: int| 0 <= i < ops.len() - 1 ==> ops.drop_last()[i] == ops[i]);
        lemma_no_xexpand_columns(ops.drop_last(), n);
        assert(match ops[ops.len() - 1] {
            LayoutOp::Cell(cp) => !cp.flags.expand_horizontal,
            LayoutOp::Row => true,
        });
        assert forall|j: int| 0 <= j < n implies column_expands(ops, n)[j] == false by {
            assert(column_expands(ops.drop_last(), n)[j] == false);
        }
    }
}

/// A track sequence without expansion-wanting tracks counts no expanders.
proof fn lemma_count_expanding_zero(s: Seq<Track>)
    requires
        forall|j: int| 0 <= j < s.len() ==> !(#[trigger] s[j]).expand,
    ensures
        count_expanding(s) == 0,
    decreases s.len(),
{
    if s.len() > 0 {
        lemma_count_expanding_zero(s.drop_last());
    }
}

/// Surplus width is conserved without expanding cells: when no cell asks
/// for horizontal expansion and the target width is at least the summed
/// preferred column widths, every column keeps exactly its preferred
/// width, so the summed negotiated widths equal the summed preferred
/// widths — the surplus stays unused.
pub proof fn lemma_surplus_width_conserved(ops: Seq<LayoutOp>, width: u32)
    requires
        no_horizontal_expanders(ops),
        sum_preferred(column_tracks(ops, max_columns(ops) as nat)) <= width,
    ensures
        ({
            let n = max_columns(ops) as nat;
            let tracks = column_tracks(ops, n);
            let widths = negotiated_widths(ops, n, width as int);
            &&& forall|j: int| 0 <= j < n ==> widths[j] == tracks[j].preferred
            &&& sum_first(widths, n as int) == sum_preferred(tracks)
        }),
{
    let n = max_columns(ops) as nat;
    let tracks = column_tracks(ops, n);
    lemma_no_xexpand_columns(ops, n);
    lemma_count_expanding_zero(tracks);
    lemma_surplus_stays_unclaimed(tracks, width as int);
    assert(negotiated_widths(ops, n, width as int) =~= negotiated_all(tracks, width as int));
}

/// Sane cells aggregate into sane tracks: every column's minimum width is
/// at most its preferred width, and every row's minimum height is at most
/// its preferred height.
proof fn lemma_track_sanity(ops: Seq<LayoutOp>, n: nat)
    requires
        sane_cells(ops),
    ensures
        forall|j: int|
            0 <= j < n ==> (#[trigger] column_groups(ops, n)[j]).minimum.width <= column_groups(
                ops,
                n,
            )[j].preferred.width,
        forall|j: int|
            0 <= j < n ==> (#[trigger] row_groups(ops, n)[j]).minimum.height <= row_groups(
                ops,
                n,
            )[j].preferred.height,
    decreases ops.len(),
{
    if ops.len() == 0 {
        assert forall|j: int|
            0 <= j < n implies (#[trigger] column_groups(ops, n)[j]).minimum.width
            <= column_groups(ops, n)[j].preferred.width by {
            assert(column_groups(ops, n)[j] == SizeGrouping::spec_default());
        }
        assert forall|j: int|
            0 <= j < n implies (#[trigger] row_groups(ops, n)[j]).minimum.height <= row_groups(
                ops,
                n,
            )[j].preferred.height by {
            assert(row_groups(ops, n)[j] == SizeGrouping::spec_default());
        }
    } else {
        assert(forall|i: int| 0 <= i < ops.len() - 1 ==> ops.drop_last()[i] == ops[i]);
        lemma_track_sanity(ops.drop_last(), n);
        let prev = column_groups(ops.drop_last(), n);
        let rprev = row_groups(ops.drop_last(), n);
        match ops.last() {
            LayoutOp::Cell(cp) => {
                if cp.colspan > 0 {
                    lemma_div_is_ordered(
                        cp.size.minimum.width as int,
                        cp.size.preferred.width as int,
                        cp.colspan as int,
                    );
                }
            },
            LayoutOp::Row => {},
        }
        assert forall|j: int|
            0 <= j < n implies (#[trigger] column_groups(ops, n)[j]).minimum.width
            <= column_groups(ops, n)[j].preferred.width by {
            assert(prev[j].minimum.width <= prev[j].preferred.width);
        }
        assert forall|j: int|
            0 <= j < n implies (#[trigger] row_groups(ops, n)[j]).minimum.height <= row_groups(
                ops,
                n,
            )[j].preferred.height by {
            assert(rprev[j].minimum.height <= rprev[j].preferred.height);
        }
    }
}

/// Shrinking respects every column's bounds: with sane cells and a target
/// width at most the summed preferred column widths, every negotiated
/// column width lies between the column's aggregated minimum width and
/// its aggregated preferred width.
pub proof fn lemma_deficit_width_bounded(ops: Seq<LayoutOp>, width: u32, j: int)
    requires
        sane_cells(ops),
        0 <= j < max_columns(ops),
        width <= sum_preferred(column_tracks(ops, max_columns(ops) as nat)),
    ensures
        ({
            let n = max_columns(ops) as nat;
            let tracks = column_tracks(ops, n);
            let widths = negotiated_widths(ops, n, width as int);
            tracks[j].minimum <= widths[j] <= tracks[j].preferred
        }),
{
    let n = max_columns(ops) as nat;
    let tracks = column_tracks(ops, n);
    lemma_track_sanity(ops, n);
    assert(forall|q: int|
        0 <= q < tracks.len() ==> (#[trigger] tracks[q]).minimum <= tracks[q].preferred);
    lemma_deficit_bounds(tracks, width as int, j);
}

/// Inserting an inert cell (colspan zero) anywhere leaves every grid
/// quantity unchanged: the cursor, the break count, the column count, the
/// per-track aggregates, and the placements.
proof fn lemma_insert_inert_all(
    ops: Seq<LayoutOp>,
    at: int,
    cp: CellProperties,
    ncn: nat,
    nrn: nat,
    cw: Seq<int>,
    rh: Seq<int>,
)
    requires
        0 <= at <= ops.len(),
        cp.colspan == 0,
    ensures
        ({
            let ops2 = ops.insert(at, LayoutOp::Cell(cp));
            &&& col_cursor(ops2) == col_cursor(ops)
            &&& row_breaks(ops2) == row_breaks(ops)
            &&& max_columns(ops2) == max_columns(ops)
            &&& column_groups(ops2, ncn) == column_groups(ops, ncn)
            &&& column_expands(ops2, ncn) == column_expands(ops, ncn)
            &&& row_groups(ops2, nrn) == row_groups(ops, nrn)
            &&& row_expands(ops2, nrn) == row_expands(ops, nrn)
            &&& placements(ops2, cw, rh) == placements(ops, cw, rh)
        }),
    decreases ops.len() - at,
{
    let ops2 = ops.insert(at, LayoutOp::Cell(cp));
    if at == ops.len() {
        assert(ops2.drop_last() =~= ops);
        assert(ops2.last() == LayoutOp::Cell(cp));
        lemma_counts(ops);
    } else {
        let inner = ops.drop_last().insert(at, LayoutOp::Cell(cp));
        assert(ops2.drop_last() =~= inner);
        assert(ops2.last() == ops.last());
        lemma_insert_inert_all(ops.drop_last(), at, cp, ncn, nrn, cw, rh);
        assert(column_groups(ops2, ncn) =~= column_groups(ops, ncn));
        assert(column_expands(ops2, ncn) =~= column_expands(ops, ncn));
        assert(row_groups(ops2, nrn) =~= row_groups(ops, nrn));
        assert(row_expands(ops2, nrn) =~= row_expands(ops, nrn));
    }
}

/// An inert cell is a no-op: inserting a cell with a colspan of zero at
/// any position changes neither the grid dimensions nor any placement.
/// Such a cell yields no placement of its own, so a callback registered on
/// it is never reported.
pub proof fn lemma_inert_cell_no_op(
    ops: Seq<LayoutOp>,
    at: int,
    cp: CellProperties,
    width: u32,
    height: u32,
)
    requires
        0 <= at <= ops.len(),
        cp.colspan == 0,
    ensures
        max_columns(ops.insert(at, LayoutOp::Cell(cp))) == max_columns(ops),
        row_count(ops.insert(at, LayoutOp::Cell(cp))) == row_count(ops),
        solve_placements(ops.insert(at, LayoutOp::Cell(cp)), width, height) == solve_placements(
            ops,
            width,
            height,
        ),
{
    let ops2 = ops.insert(at, LayoutOp::Cell(cp));
    let ncn = max_columns(ops) as nat;
    let nrn = row_count(ops) as nat;
    let cw = negotiated_widths(ops, ncn, width as int);
    let rh = negotiated_heights(ops, nrn, height as int);
    lemma_insert_inert_all(ops, at, cp, ncn, nrn, cw, rh);
    assert(column_tracks(ops2, ncn) =~= column_tracks(ops, ncn));
    assert(row_tracks(ops2, nrn) =~= row_tracks(ops, nrn));
    assert(negotiated_widths(ops2, ncn, width as int) =~= cw);
    assert(negotiated_heights(ops2, nrn, height as int) =~= rh);
}

} // verus!
