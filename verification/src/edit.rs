//! Selection tracking and the edit-overlay state machine.
//!
//! The draw dispatcher records the most recently painted-as-selected cell in
//! a [`Selection`]. On a pointer release the coordinator moves from `Idle`
//! to `Editing` over that cell and asks the GUI layer to show the overlay
//! input; on commit it writes the overlay text back into the grid (dropping
//! the write silently if the cell has since disappeared) and on cancel it
//! hides the overlay without touching the grid.

use vstd::prelude::*;

use crate::table::SmartTable;

verus! {

/// The most recently selected cell: its indices and the pixel rectangle it
/// was painted in. `valid` is false until the first selection is recorded,
/// so "no selection yet" is representable.
#[derive(Clone, Copy, Debug, PartialEq, Eq, Structural)]
pub struct Selection {
    pub valid: bool,
    pub row: i32,
    pub col: i32,
    pub x: i32,
    pub y: i32,
    pub w: i32,
    pub h: i32,
}

impl Selection {
    /// The state before any cell was selected.
    pub open spec fn spec_none() -> Selection {
        Selection { valid: false, row: 0, col: 0, x: 0, y: 0, w: 0, h: 0 }
    }

    /// An empty (not yet valid) selection.
    pub fn none() -> (s: Selection)
        ensures
            s == Selection::spec_none(),
    {
        Selection { valid: false, row: 0, col: 0, x: 0, y: 0, w: 0, h: 0 }
    }

    /// Record a newly selected cell and its paint rectangle.
    pub fn select(&mut self, row: i32, col: i32, x: i32, y: i32, w: i32, h: i32)
        ensures
            *final(self) == (Selection { valid: true, row, col, x, y, w, h }),
    {
        self.valid = true;
        self.row = row;
        self.col = col;
        self.x = x;
        self.y = y;
        self.w = w;
        self.h = h;
    }
}

/// The edit coordinator's state: either no edit is pending, or the overlay
/// is open over the cell that was selected when it was opened.
#[derive(Clone, Copy, Debug, PartialEq, Eq, Structural)]
pub enum EditState {
    Idle,
    Editing { row: i32, col: i32 },
}

/// What the GUI layer must do after an edit-coordinator transition.
#[derive(Clone, Debug)]
pub enum EditAction {
    /// Nothing: the event is passed through unhandled.
    Ignore,
    /// Position and resize the overlay input to the given rectangle, fill it
    /// with `text`, show it and give it keyboard focus.
    Show { x: i32, y: i32, w: i32, h: i32, text: String },
    /// Hide the overlay; nothing was written.
    Hide,
    /// Clear the overlay's text, hide it, and request a redraw of the grid.
    HideAndRedraw,
}

impl SmartTable {
    /// Whether a pointer release over the grid starts an edit: editing must
    /// be enabled, a selection must have been recorded, and the recorded
    /// cell must still exist.
    pub open spec fn can_start_edit(self) -> bool {
        &&& self.opts.editable
        &&& self.sel.valid
        &&& self.grid().in_bounds(self.sel.row as int, self.sel.col as int)
    }

    /// Handle a pointer release over the grid. When editing is enabled and
    /// a still-existing cell is recorded as selected, move to `Editing`
    /// over that cell and ask the GUI layer to show the overlay there,
    /// pre-filled with the cell's current text; otherwise the event is
    /// passed through unhandled and nothing changes.
    pub fn on_pointer_released(&mut self) -> (act: EditAction)
        requires
            old(self).wf(),
        ensures
            final(self).wf(),
            final(self).grid() == old(self).grid(),
            final(self).opts == old(self).opts,
            final(self).sel == old(self).sel,
            old(self).can_start_edit() ==> {
                &&& final(self).edit == (EditState::Editing {
                    row: old(self).sel.row,
                    col: old(self).sel.col,
                })
                &&& act matches EditAction::Show { x, y, w, h, text }
                    && x == old(self).sel.x && y == old(self).sel.y && w == old(self).sel.w && h
                    == old(self).sel.h && text@ == old(self).grid().cell(
                    old(self).sel.row as int,
                    old(self).sel.col as int,
                )
            },
            !old(self).can_start_edit() ==> *final(self) == *old(self) && act is Ignore,
    {
        if !self.opts.editable {
            return EditAction::Ignore;
        }
        if !self.sel.valid {
            return EditAction::Ignore;
        }
        let row = self.sel.row;
        let col = self.sel.col;
        if row < 0 || col < 0 {
            return EditAction::Ignore;
        }
        let ru = row as usize;
        let cu = col as usize;
        if ru >= self.cells.len() {
            return EditAction::Ignore;
        }
        proof {
            assert(self.grid().cells[ru as int].len() == self.grid().cols());
            assert(self.grid().cells[ru as int] == self.cells@[ru as int].deep_view());
        }
        if cu >= self.col_headers.len() {
            return EditAction::Ignore;
        }
        let row_vec = &self.cells[ru];
        let text = row_vec[cu].clone();
        proof {
            assert(text@ == row_vec.deep_view()[cu as int]);
        }
        self.edit = EditState::Editing { row, col };
        EditAction::Show { x: self.sel.x, y: self.sel.y, w: self.sel.w, h: self.sel.h, text }
    }

    /// Handle a commit from the overlay input. When an edit is pending, the
    /// overlay's text is written into the recorded cell and the coordinator
    /// returns to `Idle`; if the recorded cell no longer exists (the grid
    /// shrank since the selection), the write is silently discarded. With
    /// no pending edit the event is ignored.
    pub fn on_commit(&mut self, text: &str) -> (act: EditAction)
        requires
            old(self).wf(),
        ensures
            final(self).wf(),
            final(self).opts == old(self).opts,
            final(self).sel == old(self).sel,
            old(self).edit is Idle ==> *final(self) == *old(self) && act is Ignore,
            old(self).edit matches EditState::Editing { row, col } ==> {
                &&& final(self).edit == EditState::Idle
                &&& act is HideAndRedraw
                &&& old(self).grid().in_bounds(row as int, col as int) ==> final(self).grid()
                    == old(self).grid().set_cell(row as int, col as int, text@)
                &&& !old(self).grid().in_bounds(row as int, col as int) ==> final(self).grid()
                    == old(self).grid()
            },
    {
        match self.edit {
            EditState::Idle => EditAction::Ignore,
            EditState::Editing { row, col } => {
                let _ = self.set_cell_value(row, col, text);
                self.edit = EditState::Idle;
                EditAction::HideAndRedraw
            },
        }
    }

    /// Handle a cancel from the overlay input: hide the overlay without
    /// touching the grid. With no pending edit the event is ignored.
    pub fn on_cancel(&mut self) -> (act: EditAction)
        requires
            old(self).wf(),
        ensures
            final(self).wf(),
            final(self).grid() == old(self).grid(),
            final(self).opts == old(self).opts,
            final(self).sel == old(self).sel,
            final(self).edit == EditState::Idle,
            old(self).edit matches EditState::Editing { .. } ==> act is Hide,
            old(self).edit is Idle ==> *final(self) == *old(self) && act is Ignore,
    {
        match self.edit {
            EditState::Idle => EditAction::Ignore,
            EditState::Editing { .. } => {
                self.edit = EditState::Idle;
                EditAction::Hide
            },
        }
    }
}

} // verus!
