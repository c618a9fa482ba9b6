// Unit tests for the building blocks: sizes, groupings, box fitting,
// track negotiation, the builder methods, and the defaults lookup.

use table_layout::negotiate::negotiate;
use table_layout::CellFlags;
use table_layout::CellProperties;
use table_layout::Size;
use table_layout::SizeGrouping;
use table_layout::TableLayout;
use table_layout::Track;

#[test]
fn size_joins() {
    let a = Size { width: 10, height: 80 };
    let b = Size { width: 20, height: 40 };
    let hi = Size::join_max(&a, &b);
    assert_eq!((hi.width, hi.height), (20, 80));
    let lo = Size::join_min(&a, &b);
    assert_eq!((lo.width, lo.height), (10, 40));
}

#[test]
fn size_spread_divides_both_axes() {
    let s = Size { width: 64, height: 64 };
    let third = s.spread(3);
    assert_eq!((third.width, third.height), (21, 21));
}

#[test]
fn size_within_is_strict() {
    let inner = Size { width: 10, height: 10 };
    let outer = Size { width: 20, height: 20 };
    assert!(inner.within(&outer));
    assert!(!outer.within(&inner));
    assert!(!inner.within(&inner));
}

#[test]
fn grouping_join_aggregates() {
    let a = SizeGrouping {
        minimum: Size { width: 5, height: 1 },
        preferred: Size { width: 10, height: 10 },
        maximum: Size { width: 100, height: 30 },
    };
    let b = SizeGrouping {
        minimum: Size { width: 2, height: 4 },
        preferred: Size { width: 20, height: 5 },
        maximum: Size { width: 50, height: 60 },
    };
    let j = SizeGrouping::join(&a, &b);
    assert_eq!((j.minimum.width, j.minimum.height), (5, 4));
    assert_eq!((j.preferred.width, j.preferred.height), (20, 10));
    assert_eq!((j.maximum.width, j.maximum.height), (50, 30));
}

#[test]
fn grouping_default_is_unbounded_above() {
    let d = SizeGrouping::default();
    assert_eq!((d.minimum.width, d.minimum.height), (0, 0));
    assert_eq!((d.preferred.width, d.preferred.height), (0, 0));
    assert_eq!((d.maximum.width, d.maximum.height), (u32::MAX, u32::MAX));
}

#[test]
fn box_fit_fill_clamps_to_maximum() {
    let g = SizeGrouping {
        minimum: Size { width: 0, height: 0 },
        preferred: Size { width: 10, height: 10 },
        maximum: Size { width: 100, height: 50 },
    };
    let mut flags = CellFlags::none();
    flags.fill_horizontal = true;
    flags.fill_vertical = true;
    let r = g.box_fit(200, 80, flags);
    assert_eq!((r.x, r.y, r.width, r.height), (0, 0, 100, 50));
}

#[test]
fn box_fit_without_fill_clamps_to_preferred() {
    let g = SizeGrouping {
        minimum: Size { width: 0, height: 0 },
        preferred: Size { width: 10, height: 10 },
        maximum: Size { width: 100, height: 50 },
    };
    let r = g.box_fit(200, 80, CellFlags::none());
    assert_eq!((r.x, r.y, r.width, r.height), (0, 0, 10, 10));
}

#[test]
fn box_fit_anchors() {
    let g = SizeGrouping {
        minimum: Size { width: 0, height: 0 },
        preferred: Size { width: 10, height: 10 },
        maximum: Size { width: u32::MAX, height: u32::MAX },
    };
    let mut flags = CellFlags::none();
    flags.anchor_right = true;
    flags.anchor_bottom = true;
    let r = g.box_fit(100, 40, flags);
    assert_eq!((r.x, r.y, r.width, r.height), (90, 30, 10, 10));

    let mut flags = CellFlags::none();
    flags.anchor_horizontal_center = true;
    flags.anchor_vertical_center = true;
    let r = g.box_fit(100, 40, flags);
    assert_eq!((r.x, r.y, r.width, r.height), (45, 15, 10, 10));
}

#[test]
fn proportional_shrink_consumes_all_slack() {
    // Two columns with preferred/minimum (64,0) and (64,32), budget 32:
    // the deficit of 96 equals the total slack, each column gives up its
    // whole slack, and the results sit exactly on the minimums.
    let tracks = vec![
        Track { preferred: 64, minimum: 0, expand: false },
        Track { preferred: 64, minimum: 32, expand: false },
    ];
    let widths = negotiate(&tracks, 32);
    assert_eq!(widths, vec![0, 32]);
    assert_eq!(widths.iter().map(|w| *w as u64).sum::<u64>(), 32);
}

#[test]
fn negotiate_surplus_feeds_only_expanders() {
    let tracks = vec![
        Track { preferred: 10, minimum: 0, expand: false },
        Track { preferred: 10, minimum: 0, expand: true },
        Track { preferred: 10, minimum: 0, expand: true },
    ];
    let widths = negotiate(&tracks, 50);
    assert_eq!(widths, vec![10, 20, 20]);
}

#[test]
fn negotiate_exact_budget_changes_nothing() {
    let tracks = vec![
        Track { preferred: 30, minimum: 5, expand: true },
        Track { preferred: 20, minimum: 5, expand: false },
    ];
    assert_eq!(negotiate(&tracks, 50), vec![30, 20]);
}

#[test]
fn builders_set_their_flags() {
    let cp = CellProperties::new();
    assert_eq!(cp.colspan, 1);
    assert_eq!(cp.callback, None);
    assert_eq!(cp.flags, CellFlags::none());

    let cp = CellProperties::new().expand();
    assert!(cp.flags.expand_horizontal && cp.flags.expand_vertical);
    let cp = CellProperties::new().fill();
    assert!(cp.flags.fill_horizontal && cp.flags.fill_vertical);
    let cp = CellProperties::new().anchor_center();
    assert!(cp.flags.anchor_horizontal_center && cp.flags.anchor_vertical_center);
    let cp = CellProperties::new().anchor_top().anchor_left().uniform();
    assert!(cp.flags.anchor_top && cp.flags.anchor_left && cp.flags.uniform);
    let cp = CellProperties::new().anchor_bottom().anchor_right();
    assert!(cp.flags.anchor_bottom && cp.flags.anchor_right);
    let cp = CellProperties::new().expand_vertical().fill_vertical();
    assert!(cp.flags.expand_vertical && cp.flags.fill_vertical);
    assert!(!cp.flags.expand_horizontal && !cp.flags.fill_horizontal);

    let cp = CellProperties::new()
        .colspan(4)
        .callback(11)
        .minimum_size(Size { width: 1, height: 2 })
        .preferred_size(Size { width: 3, height: 4 })
        .maximum_size(Size { width: 5, height: 6 });
    assert_eq!(cp.colspan, 4);
    assert_eq!(cp.callback, Some(11));
    assert_eq!((cp.size.minimum.width, cp.size.minimum.height), (1, 2));
    assert_eq!((cp.size.preferred.width, cp.size.preferred.height), (3, 4));
    assert_eq!((cp.size.maximum.width, cp.size.maximum.height), (5, 6));
}

#[test]
fn clone_drops_the_callback() {
    let cp = CellProperties::new().callback(5).colspan(2).uniform();
    let copy = cp.clone();
    assert_eq!(copy.callback, None);
    assert_eq!(copy.colspan, 2);
    assert!(copy.flags.uniform);
}

#[test]
fn defaults_lookup_prefers_column_then_row() {
    let mut layout = TableLayout::new();
    layout.cell_defaults = CellProperties::new().uniform();
    layout.row_defaults.insert(0, CellProperties::new().colspan(3));
    layout.column_defaults.insert(0, CellProperties::new().colspan(7).callback(42));

    // at (0,0): the column default wins, and its callback is stripped
    let cp = CellProperties::with_defaults(&layout);
    assert_eq!(cp.colspan, 7);
    assert_eq!(cp.callback, None);

    // advance to column 1: no column default there, the row default wins
    layout.with_cell(CellProperties::new());
    let cp = CellProperties::with_defaults(&layout);
    assert_eq!(cp.colspan, 3);

    // advance to row 1: no row default there either, the global fallback
    layout.with_row();
    layout.with_cell(CellProperties::new());
    let cp = CellProperties::with_defaults(&layout);
    assert!(cp.flags.uniform);
    assert_eq!(cp.colspan, 1);
}

#[test]
fn clear_keeps_defaults_and_full_clear_resets_them() {
    let mut layout = TableLayout::new();
    layout.row_defaults.insert(2, CellProperties::new().colspan(9));
    layout.with_cell(CellProperties::new());
    layout.with_row();
    assert_eq!(layout.current_row(), 1);

    layout.clear();
    assert_eq!(layout.get_rows_cols(), (0, 0));
    assert_eq!(layout.current_row(), 0);
    assert_eq!(layout.current_column(), 0);
    assert_eq!(layout.row_defaults.get(&2).map(|cp| cp.colspan), Some(9));

    layout.full_clear();
    assert!(layout.row_defaults.is_empty());
    assert!(layout.column_defaults.is_empty());
    assert_eq!(layout.cell_defaults.colspan, 1);
}

#[test]
fn cursor_tracks_cells_and_rows() {
    let mut layout = TableLayout::new();
    assert_eq!((layout.current_row(), layout.current_column()), (0, 0));
    layout.with_cell(CellProperties::new().colspan(2));
    assert_eq!((layout.current_row(), layout.current_column()), (0, 2));
    layout.with_row();
    assert_eq!((layout.current_row(), layout.current_column()), (1, 0));
    layout.with_cell(CellProperties::new());
    assert_eq!((layout.current_row(), layout.current_column()), (1, 1));
}

#[test]
fn rows_cols_count_trailing_row() {
    let mut layout = TableLayout::new();
    layout.with_cell(CellProperties::new().colspan(2));
    layout.with_row();
    layout.with_cell(CellProperties::new());
    // the trailing cell opens a second row without a closing break
    assert_eq!(layout.get_rows_cols(), (2, 2));
    // a closing break does not add a third row
    layout.with_row();
    assert_eq!(layout.get_rows_cols(), (2, 2));
}
