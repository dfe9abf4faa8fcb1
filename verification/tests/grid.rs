use fltk_table::TableError;
use fltk_table::opts::TableOpts;
use fltk_table::table::SmartTable;

fn table(rows: i32, cols: i32) -> SmartTable {
    SmartTable::new()
        .with_opts(&TableOpts { rows, cols, ..TableOpts::default() })
        .unwrap()
}

#[test]
fn fresh_grid_shape_and_empty_cells() {
    let t = table(3, 4);
    assert_eq!(t.row_count(), 3);
    assert_eq!(t.column_count(), 4);
    for r in 0..3 {
        for c in 0..4 {
            assert_eq!(t.cell_value(r, c).unwrap(), "");
        }
    }
    assert_eq!(t.row_header_value(0).unwrap(), "1");
    assert_eq!(t.row_header_value(2).unwrap(), "3");
    assert_eq!(t.col_header_value(0).unwrap(), "A");
    assert_eq!(t.col_header_value(3).unwrap(), "D");
}

#[test]
fn fresh_zero_sized_grid() {
    let t = table(0, 0);
    assert_eq!(t.row_count(), 0);
    assert_eq!(t.column_count(), 0);
    assert_eq!(t.cell_value(0, 0).unwrap_err(), TableError::IndexOutOfBounds);
}

#[test]
fn set_get_round_trip() {
    let mut t = table(3, 3);
    assert!(t.set_cell_value(0, 0, "top left").is_ok());
    assert!(t.set_cell_value(2, 2, "bottom right").is_ok());
    assert!(t.set_cell_value(1, 2, "").is_ok());
    assert_eq!(t.cell_value(0, 0).unwrap(), "top left");
    assert_eq!(t.cell_value(2, 2).unwrap(), "bottom right");
    assert_eq!(t.cell_value(1, 2).unwrap(), "");
    // Overwriting replaces the previous value.
    assert!(t.set_cell_value(0, 0, "again").is_ok());
    assert_eq!(t.cell_value(0, 0).unwrap(), "again");
    // Other cells are untouched.
    assert_eq!(t.cell_value(0, 1).unwrap(), "");
}

#[test]
fn cell_access_out_of_bounds() {
    let mut t = table(2, 2);
    assert_eq!(t.cell_value(2, 0).unwrap_err(), TableError::IndexOutOfBounds);
    assert_eq!(t.cell_value(0, 2).unwrap_err(), TableError::IndexOutOfBounds);
    assert_eq!(t.cell_value(-1, 0).unwrap_err(), TableError::IndexOutOfBounds);
    assert_eq!(t.set_cell_value(0, -1, "x").unwrap_err(), TableError::IndexOutOfBounds);
    assert_eq!(t.set_cell_value(5, 5, "x").unwrap_err(), TableError::IndexOutOfBounds);
    // A failed write leaves the grid unmodified.
    assert_eq!(t.data(), table(2, 2).data());
}

#[test]
fn header_round_trip_and_bounds() {
    let mut t = table(2, 2);
    assert!(t.set_row_header_value(1, "second").is_ok());
    assert!(t.set_col_header_value(0, "first").is_ok());
    assert_eq!(t.row_header_value(1).unwrap(), "second");
    assert_eq!(t.col_header_value(0).unwrap(), "first");
    assert_eq!(t.row_header_value(2).unwrap_err(), TableError::IndexOutOfBounds);
    assert_eq!(t.col_header_value(-1).unwrap_err(), TableError::IndexOutOfBounds);
    assert_eq!(t.set_row_header_value(9, "x").unwrap_err(), TableError::IndexOutOfBounds);
    assert_eq!(t.set_col_header_value(9, "x").unwrap_err(), TableError::IndexOutOfBounds);
}

#[test]
fn insert_and_append_rows_keep_shape() {
    let mut t = table(2, 3);
    t.set_cell_value(0, 0, "a").unwrap();
    t.set_cell_value(1, 2, "z").unwrap();

    assert!(t.insert_empty_row(1, "mid").is_ok());
    assert_eq!(t.row_count(), 3);
    assert_eq!(t.column_count(), 3);
    assert_eq!(t.row_header_value(1).unwrap(), "mid");
    // The rows below shifted down.
    assert_eq!(t.cell_value(0, 0).unwrap(), "a");
    assert_eq!(t.cell_value(1, 0).unwrap(), "");
    assert_eq!(t.cell_value(2, 2).unwrap(), "z");

    assert!(t.insert_row(0, "top", &["p", "q", "r"]).is_ok());
    assert_eq!(t.row_count(), 4);
    assert_eq!(t.row_header_value(0).unwrap(), "top");
    assert_eq!(t.cell_value(0, 1).unwrap(), "q");
    assert_eq!(t.cell_value(1, 0).unwrap(), "a");

    t.append_empty_row("tail");
    assert_eq!(t.row_count(), 5);
    assert_eq!(t.row_header_value(4).unwrap(), "tail");
    assert_eq!(t.cell_value(4, 0).unwrap(), "");

    assert!(t.append_row("vals", &["x", "y", "w"]).is_ok());
    assert_eq!(t.row_count(), 6);
    assert_eq!(t.cell_value(5, 2).unwrap(), "w");

    // Every row still has exactly column_count() cells.
    for row in t.data() {
        assert_eq!(row.len(), 3);
    }
}

#[test]
fn insert_and_append_cols_keep_shape() {
    let mut t = table(2, 2);
    t.set_cell_value(0, 0, "a").unwrap();
    t.set_cell_value(1, 1, "d").unwrap();

    assert!(t.insert_empty_col(1, "mid").is_ok());
    assert_eq!(t.row_count(), 2);
    assert_eq!(t.column_count(), 3);
    assert_eq!(t.col_header_value(1).unwrap(), "mid");
    assert_eq!(t.cell_value(0, 0).unwrap(), "a");
    assert_eq!(t.cell_value(0, 1).unwrap(), "");
    assert_eq!(t.cell_value(1, 2).unwrap(), "d");

    assert!(t.insert_col(0, "lead", &["u", "v"]).is_ok());
    assert_eq!(t.column_count(), 4);
    assert_eq!(t.cell_value(0, 0).unwrap(), "u");
    assert_eq!(t.cell_value(1, 0).unwrap(), "v");
    assert_eq!(t.cell_value(0, 1).unwrap(), "a");

    t.append_empty_col("tail");
    assert_eq!(t.column_count(), 5);
    assert_eq!(t.cell_value(1, 4).unwrap(), "");

    assert!(t.append_col("vals", &["m", "n"]).is_ok());
    assert_eq!(t.column_count(), 6);
    assert_eq!(t.cell_value(0, 5).unwrap(), "m");
    assert_eq!(t.cell_value(1, 5).unwrap(), "n");

    for row in t.data() {
        assert_eq!(row.len(), 6);
    }
}

#[test]
fn remove_row_and_col() {
    let mut t = table(3, 3);
    t.set_cell_value(0, 0, "r0").unwrap();
    t.set_cell_value(1, 0, "r1").unwrap();
    t.set_cell_value(2, 0, "r2").unwrap();
    t.set_cell_value(0, 2, "c2").unwrap();

    assert!(t.remove_row(1).is_ok());
    assert_eq!(t.row_count(), 2);
    assert_eq!(t.column_count(), 3);
    assert_eq!(t.cell_value(0, 0).unwrap(), "r0");
    assert_eq!(t.cell_value(1, 0).unwrap(), "r2");
    // The removed row's header is gone with it.
    assert_eq!(t.row_header_value(0).unwrap(), "1");
    assert_eq!(t.row_header_value(1).unwrap(), "3");

    assert!(t.remove_col(1).is_ok());
    assert_eq!(t.row_count(), 2);
    assert_eq!(t.column_count(), 2);
    assert_eq!(t.cell_value(0, 1).unwrap(), "c2");
    assert_eq!(t.col_header_value(0).unwrap(), "A");
    assert_eq!(t.col_header_value(1).unwrap(), "C");
    for row in t.data() {
        assert_eq!(row.len(), 2);
    }

    assert_eq!(t.remove_row(2).unwrap_err(), TableError::IndexOutOfBounds);
    assert_eq!(t.remove_col(-1).unwrap_err(), TableError::IndexOutOfBounds);
}

#[test]
fn mismatched_insert_fails_without_partial_mutation() {
    let mut t = table(2, 3);
    t.set_cell_value(1, 1, "keep").unwrap();
    let before = t.data();

    assert_eq!(t.insert_row(0, "h", &["only", "two"]).unwrap_err(), TableError::ColumnCountMismatch);
    assert_eq!(t.append_row("h", &["a", "b", "c", "d"]).unwrap_err(), TableError::ColumnCountMismatch);
    assert_eq!(t.insert_col(0, "h", &["one"]).unwrap_err(), TableError::RowCountMismatch);
    assert_eq!(t.append_col("h", &["x", "y", "z"]).unwrap_err(), TableError::RowCountMismatch);

    assert_eq!(t.data(), before);
    assert_eq!(t.row_count(), 2);
    assert_eq!(t.column_count(), 3);
    assert_eq!(t.row_header_value(1).unwrap(), "2");
}

#[test]
fn clear_empties_cells_and_keeps_shape() {
    let mut t = table(2, 2);
    t.set_cell_value(0, 0, "a").unwrap();
    t.set_cell_value(0, 1, "b").unwrap();
    t.set_cell_value(1, 0, "c").unwrap();
    t.set_row_header_value(0, "custom").unwrap();

    t.clear();
    assert_eq!(t.row_count(), 2);
    assert_eq!(t.column_count(), 2);
    for r in 0..2 {
        for c in 0..2 {
            assert_eq!(t.cell_value(r, c).unwrap(), "");
        }
    }
    // Headers survive a clear.
    assert_eq!(t.row_header_value(0).unwrap(), "custom");
    assert_eq!(t.col_header_value(1).unwrap(), "B");
}

#[test]
fn resize_grows_and_shrinks() {
    let mut t = table(2, 2);
    t.set_cell_value(0, 0, "keep").unwrap();
    t.set_cell_value(1, 1, "lost on shrink").unwrap();
    t.set_row_header_value(0, "named").unwrap();

    assert!(t.resize(3, 3).is_ok());
    assert_eq!(t.row_count(), 3);
    assert_eq!(t.column_count(), 3);
    assert_eq!(t.cell_value(0, 0).unwrap(), "keep");
    assert_eq!(t.cell_value(1, 1).unwrap(), "lost on shrink");
    assert_eq!(t.cell_value(2, 2).unwrap(), "");
    // Kept indices keep their labels; new indices get default labels.
    assert_eq!(t.row_header_value(0).unwrap(), "named");
    assert_eq!(t.row_header_value(2).unwrap(), "3");
    assert_eq!(t.col_header_value(2).unwrap(), "C");

    assert!(t.resize(1, 1).is_ok());
    assert_eq!(t.row_count(), 1);
    assert_eq!(t.column_count(), 1);
    assert_eq!(t.cell_value(0, 0).unwrap(), "keep");
    assert_eq!(t.cell_value(1, 1).unwrap_err(), TableError::IndexOutOfBounds);

    assert_eq!(t.resize(-1, 2).unwrap_err(), TableError::InvalidDimension);
    assert_eq!(t.resize(2, -7).unwrap_err(), TableError::InvalidDimension);
    // A refused resize changes nothing.
    assert_eq!(t.row_count(), 1);
    assert_eq!(t.cell_value(0, 0).unwrap(), "keep");
}

#[test]
fn set_opts_keeps_cells_and_regenerates_headers() {
    let mut t = table(2, 2);
    t.set_cell_value(0, 1, "kept").unwrap();
    t.set_row_header_value(0, "custom").unwrap();

    assert!(t.set_opts(&TableOpts { rows: 3, cols: 2, ..TableOpts::default() }).is_ok());
    assert_eq!(t.row_count(), 3);
    assert_eq!(t.column_count(), 2);
    assert_eq!(t.cell_value(0, 1).unwrap(), "kept");
    // set_opts regenerates every header label.
    assert_eq!(t.row_header_value(0).unwrap(), "1");
    assert_eq!(t.col_header_value(1).unwrap(), "B");

    let bad = t.set_opts(&TableOpts { rows: -3, cols: 2, ..TableOpts::default() });
    assert_eq!(bad.unwrap_err(), TableError::InvalidDimension);
    assert_eq!(t.row_count(), 3);
}

#[test]
fn with_opts_rejects_negative_dimensions() {
    let r = SmartTable::new().with_opts(&TableOpts { rows: -1, cols: 1, ..TableOpts::default() });
    assert_eq!(r.unwrap_err(), TableError::InvalidDimension);
}

#[test]
fn data_returns_a_copy() {
    let mut t = table(2, 2);
    t.set_cell_value(0, 0, "v").unwrap();
    let d = t.data();
    assert_eq!(d, vec![vec!["v".to_string(), String::new()], vec![String::new(), String::new()]]);
    // Mutating the copy does not touch the table.
    let mut d2 = d;
    d2[0][0] = "other".to_string();
    assert_eq!(t.cell_value(0, 0).unwrap(), "v");
}
