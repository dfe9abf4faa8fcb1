//! A spreadsheet-like table core: a rectangular grid of text cells with
//! row and column header labels, spreadsheet-style default column labels,
//! a draw-request dispatcher, and an edit-overlay state machine.
//!
//! The grid, its invariants, and every state transition are verified; a GUI
//! front end drives this core from toolkit callbacks.

use vstd::prelude::*;

pub mod draw;
pub mod edit;
pub mod labels;
pub mod laws;
pub mod opts;
pub mod table;

verus! {

/// Errors reported by the mutating and accessor operations of the table.
#[derive(Clone, Copy, Debug, PartialEq, Eq, Structural)]
pub enum TableError {
    /// A row or column index lies outside the current dimensions.
    IndexOutOfBounds,
    /// A negative row or column count was supplied.
    InvalidDimension,
    /// An explicit row of values does not match the current column count.
    ColumnCountMismatch,
    /// An explicit column of values does not match the current row count.
    RowCountMismatch,
}

} // verus!
