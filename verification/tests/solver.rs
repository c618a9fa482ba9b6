// Scenario tests for the layout solver: each builds a layout, solves it
// against a target area, and checks the reported placements.

use table_layout::CellProperties;
use table_layout::Size;
use table_layout::TableLayout;

#[test]
fn expanding_layout() {
    let mut engine = TableLayout::new();
    engine.with_cell(
        CellProperties::new()
            .callback(0)
            .anchor_right()
            .anchor_bottom()
            .preferred_size(Size { width: 64, height: 64 }),
    );
    engine.with_cell(
        CellProperties::new()
            .callback(1)
            .anchor_top()
            .anchor_left()
            .expand_horizontal()
            .preferred_size(Size { width: 64, height: 64 }),
    );
    engine.with_cell(
        CellProperties::new()
            .callback(2)
            .anchor_right()
            .expand_horizontal()
            .fill_horizontal()
            .preferred_size(Size { width: 64, height: 64 }),
    );
    engine.with_row();
    engine.with_cell(
        CellProperties::new()
            .callback(3)
            .colspan(3)
            .expand_vertical()
            .anchor_bottom()
            .fill_horizontal()
            .preferred_size(Size { width: 64, height: 64 }),
    );
    let placements = engine.impose(320, 240);
    assert_eq!(placements.len(), 4);

    let p = placements[0];
    println!("{} {} {} {}", p.x, p.y, p.width, p.height);
    assert_eq!(p.x, 0);
    assert_eq!(p.y, 0);
    // these are expand, not fill, so the cell takes up extra space but the
    // child item actually doesn't use it
    assert_eq!(p.width, 64);
    assert_eq!(p.height, 64);

    let p = placements[1];
    println!("{} {} {} {}", p.x, p.y, p.width, p.height);
    // first column is neither expand nor fill horizontal, so should be
    // packed as preferred width
    assert_eq!(p.x, 64);
    assert_eq!(p.y, 0);
    assert_eq!(p.width, 64);
    assert_eq!(p.height, 64);

    let p = placements[2];
    println!("{} {} {} {}", p.x, p.y, p.width, p.height);
    assert_eq!(p.y, 0);
    assert_eq!(p.height, 64);

    let p = placements[3];
    println!("{} {} {} {}", p.x, p.y, p.width, p.height);
    assert_eq!(p.x, 0);
    assert_eq!(p.y, 240 - 64);
    assert_eq!(p.width, 320);
}

#[test]
fn shrinking_layout() {
    let mut engine = TableLayout::new();
    engine.with_cell(
        CellProperties::new().callback(0).preferred_size(Size { width: 64, height: 64 }),
    );
    engine.with_cell(
        CellProperties::new().callback(1).preferred_size(Size { width: 64, height: 64 }),
    );
    engine.with_row();
    engine.with_cell(
        CellProperties::new()
            .callback(2)
            .colspan(2)
            .preferred_size(Size { width: 64, height: 64 }),
    );
    let placements = engine.impose(32, 32);
    assert_eq!(placements.len(), 3);

    let p = placements[0];
    println!("{} {} {} {}", p.x, p.y, p.width, p.height);
    assert_eq!(p.x, 0);
    assert_eq!(p.y, 0);
    assert_eq!(p.width, 16);
    assert_eq!(p.height, 16);

    let p = placements[1];
    println!("{} {} {} {}", p.x, p.y, p.width, p.height);
    assert_eq!(p.x, 16);
    assert_eq!(p.y, 0);
    assert_eq!(p.width, 16);
    assert_eq!(p.height, 16);

    let p = placements[2];
    println!("{} {} {} {}", p.x, p.y, p.width, p.height);
    assert_eq!(p.x, 0);
    assert_eq!(p.y, 16);
    assert_eq!(p.width, 32);
    assert_eq!(p.height, 16);
}

#[test]
fn centered_layout() {
    let mut engine = TableLayout::new();
    engine.with_cell(
        CellProperties::new()
            .callback(0)
            .anchor_horizontal_center()
            .anchor_vertical_center()
            .expand()
            .preferred_size(Size { width: 32, height: 32 }),
    );
    let placements = engine.impose(64, 64);
    assert_eq!(placements.len(), 1);

    let p = placements[0];
    println!("{} {} {} {}", p.x, p.y, p.width, p.height);
    assert_eq!(p.x, 16);
    assert_eq!(p.y, 16);
    assert_eq!(p.width, 32);
    assert_eq!(p.height, 32);
}

#[test]
fn surplus_stays_unclaimed_without_expanders() {
    // One row of non-expanding cells: even with surplus width, the summed
    // output widths never exceed the summed preferred widths.
    let mut engine = TableLayout::new();
    engine.with_cell(
        CellProperties::new().callback(0).preferred_size(Size { width: 64, height: 32 }),
    );
    engine.with_cell(
        CellProperties::new().callback(1).preferred_size(Size { width: 64, height: 32 }),
    );
    let placements = engine.impose(200, 32);
    assert_eq!(placements.len(), 2);
    assert_eq!(placements[0].x, 0);
    assert_eq!(placements[0].width, 64);
    assert_eq!(placements[1].x, 64);
    assert_eq!(placements[1].width, 64);
    assert!(placements[0].width + placements[1].width <= 128);
}

#[test]
fn inert_cell_changes_nothing() {
    // The same layout, once plain and once with a colspan-0 cell inserted
    // in the middle: grid dimensions and placements are identical, and the
    // inert cell's callback is never reported.
    let mut plain = TableLayout::new();
    plain.with_cell(
        CellProperties::new().callback(0).preferred_size(Size { width: 50, height: 20 }),
    );
    plain.with_row();
    plain.with_cell(
        CellProperties::new().callback(1).preferred_size(Size { width: 30, height: 40 }),
    );

    let mut ghosted = TableLayout::new();
    ghosted.with_cell(
        CellProperties::new().callback(0).preferred_size(Size { width: 50, height: 20 }),
    );
    ghosted.with_cell(
        CellProperties::new()
            .callback(9)
            .colspan(0)
            .preferred_size(Size { width: 999, height: 999 }),
    );
    ghosted.with_row();
    ghosted.with_cell(
        CellProperties::new().callback(1).preferred_size(Size { width: 30, height: 40 }),
    );

    assert_eq!(plain.get_rows_cols(), ghosted.get_rows_cols());
    let a = plain.impose(100, 100);
    let b = ghosted.impose(100, 100);
    assert_eq!(a, b);
    assert_eq!(b.len(), 2);
    assert!(b.iter().all(|p| p.callback != Some(9)));
}

#[test]
fn resolve_is_idempotent() {
    // Solving repeatedly with identical arguments and no mutation in
    // between produces identical output each time.
    let mut engine = TableLayout::new();
    engine.with_cell(
        CellProperties::new()
            .callback(0)
            .expand()
            .preferred_size(Size { width: 48, height: 24 }),
    );
    engine.with_row();
    engine.with_cell(
        CellProperties::new().callback(1).preferred_size(Size { width: 12, height: 60 }),
    );
    let first = engine.impose(96, 96);
    let second = engine.impose(96, 96);
    let third = engine.impose(96, 96);
    assert_eq!(first, second);
    assert_eq!(second, third);
}

#[test]
fn identical_inputs_solve_identically() {
    // Two engines built from the same declarations report the same
    // placement sequence.
    let build = || {
        let mut engine = TableLayout::new();
        engine.with_cell(
            CellProperties::new()
                .callback(0)
                .anchor_right()
                .preferred_size(Size { width: 40, height: 10 }),
        );
        engine.with_cell(
            CellProperties::new()
                .callback(1)
                .expand_horizontal()
                .fill_horizontal()
                .preferred_size(Size { width: 40, height: 10 }),
        );
        engine
    };
    let a = build().impose(200, 50);
    let b = build().impose(200, 50);
    assert_eq!(a, b);
}

#[test]
fn empty_layout_yields_nothing() {
    let engine = TableLayout::new();
    assert_eq!(engine.get_rows_cols(), (0, 0));
    let placements = engine.impose(640, 480);
    assert!(placements.is_empty());
}

#[test]
fn only_inert_cells_yield_nothing() {
    let mut engine = TableLayout::new();
    engine.with_cell(CellProperties::new().callback(0).colspan(0));
    assert_eq!(engine.get_rows_cols(), (0, 0));
    let placements = engine.impose(640, 480);
    assert!(placements.is_empty());
}

#[test]
fn zero_slack_deficit_keeps_minimums() {
    // Every track already at its minimum and a deficit budget: the
    // proportional distribution is skipped and the tracks stay put.
    let mut engine = TableLayout::new();
    engine.with_cell(
        CellProperties::new()
            .callback(0)
            .minimum_size(Size { width: 64, height: 64 })
            .preferred_size(Size { width: 64, height: 64 }),
    );
    engine.with_cell(
        CellProperties::new()
            .callback(1)
            .minimum_size(Size { width: 64, height: 64 })
            .preferred_size(Size { width: 64, height: 64 }),
    );
    let placements = engine.impose(32, 32);
    assert_eq!(placements[0].width, 64);
    assert_eq!(placements[1].x, 64);
    assert_eq!(placements[1].width, 64);
}

#[test]
fn overconstrained_deficit_respects_minimums() {
    // The deficit exceeds the total slack: best effort, but no track
    // shrinks below its minimum.
    let mut engine = TableLayout::new();
    engine.with_cell(
        CellProperties::new()
            .callback(0)
            .minimum_size(Size { width: 48, height: 8 })
            .preferred_size(Size { width: 64, height: 8 }),
    );
    engine.with_cell(
        CellProperties::new()
            .callback(1)
            .minimum_size(Size { width: 48, height: 8 })
            .preferred_size(Size { width: 64, height: 8 }),
    );
    let placements = engine.impose(32, 8);
    assert_eq!(placements[0].width, 48);
    assert_eq!(placements[1].x, 48);
    assert_eq!(placements[1].width, 48);
}

#[test]
fn colspan_spreads_width_across_columns() {
    // A colspan-2 cell spreads its 64-pixel width as 32 per column; the
    // second row's wider cell then stretches its own column to 50.
    let mut engine = TableLayout::new();
    engine.with_cell(
        CellProperties::new()
            .callback(0)
            .colspan(2)
            .preferred_size(Size { width: 64, height: 10 }),
    );
    engine.with_row();
    engine.with_cell(
        CellProperties::new().callback(1).preferred_size(Size { width: 10, height: 10 }),
    );
    engine.with_cell(
        CellProperties::new().callback(2).preferred_size(Size { width: 50, height: 10 }),
    );
    // column preferreds: max(32, 10) = 32 and max(32, 50) = 50; the budget
    // matches their sum exactly, so negotiation changes nothing
    let placements = engine.impose(82, 20);
    assert_eq!(placements.len(), 3);
    assert_eq!((placements[0].x, placements[0].width), (0, 64));
    assert_eq!((placements[1].x, placements[1].width), (0, 10));
    assert_eq!((placements[2].x, placements[2].width), (32, 50));
}

#[test]
fn cell_without_callback_still_reserves_space() {
    let mut engine = TableLayout::new();
    engine.with_cell(CellProperties::new().preferred_size(Size { width: 25, height: 10 }));
    engine.with_cell(
        CellProperties::new().callback(7).preferred_size(Size { width: 30, height: 10 }),
    );
    let placements = engine.impose(100, 10);
    assert_eq!(placements.len(), 2);
    assert_eq!(placements[0].callback, None);
    assert_eq!(placements[1].callback, Some(7));
    // the callbackless cell still pushed the second cell over
    assert_eq!(placements[1].x, 25);
}
