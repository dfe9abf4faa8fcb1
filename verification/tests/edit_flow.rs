use fltk_table::draw::{DrawPlan, PaintContext};
use fltk_table::edit::{EditAction, EditState};
use fltk_table::opts::TableOpts;
use fltk_table::table::SmartTable;

fn editable_table(rows: i32, cols: i32) -> SmartTable {
    SmartTable::new()
        .with_opts(&TableOpts { rows, cols, editable: true, ..TableOpts::default() })
        .unwrap()
}

fn paint_selected(t: &mut SmartTable, row: i32, col: i32, x: i32, y: i32, w: i32, h: i32) {
    let plan = t.draw_cell(&PaintContext::Cell { row, col, x, y, w, h, selected: true });
    assert!(matches!(plan, DrawPlan::Cell { .. }));
}

#[test]
fn edit_lifecycle_commit() {
    let mut t = editable_table(3, 3);

    // Painting cell (1,1) as selected records the selection.
    paint_selected(&mut t, 1, 1, 40, 60, 80, 25);

    // A pointer release opens the overlay over that rectangle, pre-filled
    // with the cell's current (empty) text.
    match t.on_pointer_released() {
        EditAction::Show { x, y, w, h, text } => {
            assert_eq!((x, y, w, h), (40, 60, 80, 25));
            assert_eq!(text, "");
        },
        _ => panic!("expected the overlay to be shown"),
    }
    assert_eq!(t.edit, EditState::Editing { row: 1, col: 1 });

    // Committing writes the overlay text into the grid and goes back to Idle.
    let act = t.on_commit("X9");
    assert!(matches!(act, EditAction::HideAndRedraw));
    assert_eq!(t.cell_value(1, 1).unwrap(), "X9");
    assert_eq!(t.edit, EditState::Idle);

    // Re-opening the editor now shows the committed text.
    paint_selected(&mut t, 1, 1, 40, 60, 80, 25);
    match t.on_pointer_released() {
        EditAction::Show { text, .. } => assert_eq!(text, "X9"),
        _ => panic!("expected the overlay to be shown"),
    }
}

#[test]
fn edit_lifecycle_cancel() {
    let mut t = editable_table(3, 3);
    paint_selected(&mut t, 0, 0, 0, 0, 50, 20);
    assert!(matches!(t.on_pointer_released(), EditAction::Show { .. }));
    assert_eq!(t.edit, EditState::Editing { row: 0, col: 0 });

    // Cancel hides the overlay without touching the grid.
    let act = t.on_cancel();
    assert!(matches!(act, EditAction::Hide));
    assert_eq!(t.edit, EditState::Idle);
    assert_eq!(t.cell_value(0, 0).unwrap(), "");
}

#[test]
fn events_ignored_when_not_editable() {
    let mut t = SmartTable::new()
        .with_opts(&TableOpts { rows: 2, cols: 2, editable: false, ..TableOpts::default() })
        .unwrap();
    paint_selected(&mut t, 0, 0, 0, 0, 10, 10);
    assert!(matches!(t.on_pointer_released(), EditAction::Ignore));
    assert_eq!(t.edit, EditState::Idle);
}

#[test]
fn pointer_release_ignored_before_first_selection() {
    let mut t = editable_table(2, 2);
    assert!(matches!(t.on_pointer_released(), EditAction::Ignore));
    assert_eq!(t.edit, EditState::Idle);
}

#[test]
fn stale_commit_is_silently_dropped() {
    let mut t = editable_table(3, 3);
    paint_selected(&mut t, 2, 2, 0, 0, 10, 10);
    assert!(matches!(t.on_pointer_released(), EditAction::Show { .. }));

    // The grid shrinks between selection and commit.
    assert!(t.remove_row(2).is_ok());
    let act = t.on_commit("never lands");
    assert!(matches!(act, EditAction::HideAndRedraw));
    assert_eq!(t.edit, EditState::Idle);
    assert_eq!(t.row_count(), 2);
    for r in 0..2 {
        for c in 0..3 {
            assert_eq!(t.cell_value(r, c).unwrap(), "");
        }
    }
}

#[test]
fn commit_without_pending_edit_is_ignored() {
    let mut t = editable_table(2, 2);
    assert!(matches!(t.on_commit("nope"), EditAction::Ignore));
    assert_eq!(t.cell_value(0, 0).unwrap(), "");
    assert!(matches!(t.on_cancel(), EditAction::Ignore));
}

#[test]
fn start_page_sets_default_font() {
    let mut t = editable_table(1, 1);
    match t.draw_cell(&PaintContext::StartPage) {
        DrawPlan::DefaultFont { font, size } => {
            assert_eq!(font, 0);
            assert_eq!(size, 14);
        },
        _ => panic!("expected the default font plan"),
    }
}

#[test]
fn header_paints_use_header_styling() {
    let mut t = editable_table(2, 2);
    match t.draw_cell(&PaintContext::ColHeader { col: 1, x: 5, y: 6, w: 7, h: 8 }) {
        DrawPlan::Header { text, x, y, w, h, frame, color, font, font_color, font_size, align } => {
            assert_eq!(text, "B");
            assert_eq!((x, y, w, h), (5, 6, 7, 8));
            let o = TableOpts::default();
            assert_eq!(frame, o.header_frame);
            assert_eq!(color, o.header_color);
            assert_eq!(font, o.header_font);
            assert_eq!(font_color, o.header_font_color);
            assert_eq!(font_size, o.header_font_size);
            assert_eq!(align, o.header_align);
        },
        _ => panic!("expected a header plan"),
    }
    match t.draw_cell(&PaintContext::RowHeader { row: 0, x: 1, y: 2, w: 3, h: 4 }) {
        DrawPlan::Header { text, .. } => assert_eq!(text, "1"),
        _ => panic!("expected a header plan"),
    }
}

#[test]
fn out_of_range_paints_render_nothing() {
    let mut t = editable_table(2, 2);
    assert!(matches!(
        t.draw_cell(&PaintContext::ColHeader { col: 9, x: 0, y: 0, w: 1, h: 1 }),
        DrawPlan::Skip
    ));
    assert!(matches!(
        t.draw_cell(&PaintContext::RowHeader { row: -1, x: 0, y: 0, w: 1, h: 1 }),
        DrawPlan::Skip
    ));
    assert!(matches!(
        t.draw_cell(&PaintContext::Cell { row: 5, col: 0, x: 0, y: 0, w: 1, h: 1, selected: true }),
        DrawPlan::Skip
    ));
    assert!(matches!(t.draw_cell(&PaintContext::Other), DrawPlan::Skip));
    // An out-of-range selected paint records no selection.
    assert!(matches!(t.on_pointer_released(), EditAction::Ignore));
}

#[test]
fn cell_paint_fill_follows_selection() {
    let mut t = editable_table(1, 1);
    t.set_cell_value(0, 0, "body").unwrap();
    let o = TableOpts::default();
    match t.draw_cell(&PaintContext::Cell { row: 0, col: 0, x: 0, y: 0, w: 9, h: 9, selected: false }) {
        DrawPlan::Cell { text, fill_color, border_color, padding, .. } => {
            assert_eq!(text, "body");
            assert_eq!(fill_color, o.cell_color);
            assert_eq!(border_color, o.cell_border_color);
            assert_eq!(padding, o.cell_padding);
        },
        _ => panic!("expected a cell plan"),
    }
    match t.draw_cell(&PaintContext::Cell { row: 0, col: 0, x: 0, y: 0, w: 9, h: 9, selected: true }) {
        DrawPlan::Cell { fill_color, .. } => assert_eq!(fill_color, o.cell_selection_color),
        _ => panic!("expected a cell plan"),
    }
}

#[test]
fn custom_styling_is_passed_through() {
    let opts = TableOpts {
        rows: 1,
        cols: 1,
        editable: false,
        cell_selection_color: 0x0055_AA00,
        cell_padding: 4,
        header_color: 123,
        ..TableOpts::default()
    };
    let mut t = SmartTable::new().with_opts(&opts).unwrap();
    match t.draw_cell(&PaintContext::Cell { row: 0, col: 0, x: 0, y: 0, w: 9, h: 9, selected: true }) {
        DrawPlan::Cell { fill_color, padding, .. } => {
            assert_eq!(fill_color, 0x0055_AA00);
            assert_eq!(padding, 4);
        },
        _ => panic!("expected a cell plan"),
    }
    match t.draw_cell(&PaintContext::ColHeader { col: 0, x: 0, y: 0, w: 1, h: 1 }) {
        DrawPlan::Header { color, .. } => assert_eq!(color, 123),
        _ => panic!("expected a header plan"),
    }
}
