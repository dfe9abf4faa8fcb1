//! The grid store: a rectangular matrix of text cells together with one
//! header label per row and per column.
//!
//! Every mutation preserves the rectangular invariant (each row has exactly
//! `column_count()` cells) and keeps both header lists exactly as long as
//! the corresponding dimension, in the same operation.

use vstd::prelude::*;

use crate::TableError;
use crate::edit::{EditState, Selection};
use crate::labels::{col_header_label, col_label, row_header_label, row_label};
use crate::opts::{TableOpts, spec_default_opts};

verus! {

/// The mathematical model of the table data: the cell matrix and the two
/// header lists, all as sequences of character sequences.
#[verifier::ext_equal]
pub struct GridView {
    pub cells: Seq<Seq<Seq<char>>>,
    pub row_headers: Seq<Seq<char>>,
    pub col_headers: Seq<Seq<char>>,
}

impl GridView {
    /// The model of a table with no rows and no columns.
    pub open spec fn empty() -> GridView {
        GridView {
            cells: Seq::empty(),
            row_headers: Seq::empty(),
            col_headers: Seq::empty(),
        }
    }

    pub open spec fn rows(self) -> int {
        self.cells.len() as int
    }

    pub open spec fn cols(self) -> int {
        self.col_headers.len() as int
    }

    /// Well-formedness: every row has exactly `cols()` cells, the header
    /// lists are exactly as long as the dimensions they label, and both
    /// dimensions fit in an `i32`.
    pub open spec fn wf(self) -> bool {
        &&& self.row_headers.len() == self.cells.len()
        &&& forall|r: int|
            0 <= r < self.cells.len() ==> (#[trigger] self.cells[r]).len() == self.col_headers.len()
        &&& self.cells.len() <= i32::MAX
        &&& self.col_headers.len() <= i32::MAX
    }

    pub open spec fn in_bounds(self, row: int, col: int) -> bool {
        0 <= row < self.rows() && 0 <= col < self.cols()
    }

    /// The text of the cell at `(row, col)`.
    pub open spec fn cell(self, row: int, col: int) -> Seq<char>
        recommends
            self.in_bounds(row, col),
    {
        self.cells[row][col]
    }

    /// Every cell reads as empty text.
    pub open spec fn all_empty(self) -> bool {
        forall|r: int, c: int|
            self.in_bounds(r, c) ==> #[trigger] self.cell(r, c) == Seq::<char>::empty()
    }

    /// The grid with the cell at `(row, col)` replaced by `v`.
    pub open spec fn set_cell(self, row: int, col: int, v: Seq<char>) -> GridView
        recommends
            self.in_bounds(row, col),
    {
        GridView { cells: self.cells.update(row, self.cells[row].update(col, v)), ..self }
    }

    /// The grid with the header label of `row` replaced by `v`.
    pub open spec fn set_row_header(self, row: int, v: Seq<char>) -> GridView
        recommends
            0 <= row < self.rows(),
    {
        GridView { row_headers: self.row_headers.update(row, v), ..self }
    }

    /// The grid with the header label of `col` replaced by `v`.
    pub open spec fn set_col_header(self, col: int, v: Seq<char>) -> GridView
        recommends
            0 <= col < self.cols(),
    {
        GridView { col_headers: self.col_headers.update(col, v), ..self }
    }

    /// A row of `cols()` empty cells.
    pub open spec fn empty_row(self) -> Seq<Seq<char>> {
        Seq::new(self.col_headers.len(), |c: int| Seq::<char>::empty())
    }

    /// A column of `rows()` empty cells.
    pub open spec fn empty_col(self) -> Seq<Seq<char>> {
        Seq::new(self.cells.len(), |r: int| Seq::<char>::empty())
    }

    /// The grid with `vals` inserted as a new row at index `at`, and
    /// `header` inserted at the same index of the row-header list.
    pub open spec fn insert_row(self, at: int, header: Seq<char>, vals: Seq<Seq<char>>) -> GridView
        recommends
            0 <= at <= self.rows(),
            vals.len() == self.cols(),
    {
        GridView {
            cells: self.cells.insert(at, vals),
            row_headers: self.row_headers.insert(at, header),
            ..self
        }
    }

    /// The grid with row `at` and its header label removed.
    pub open spec fn remove_row(self, at: int) -> GridView
        recommends
            0 <= at < self.rows(),
    {
        GridView {
            cells: self.cells.remove(at),
            row_headers: self.row_headers.remove(at),
            ..self
        }
    }

    /// The grid with `vals[r]` inserted at index `at` of every row `r`, and
    /// `header` inserted at the same index of the column-header list.
    pub open spec fn insert_col(self, at: int, header: Seq<char>, vals: Seq<Seq<char>>) -> GridView
        recommends
            0 <= at <= self.cols(),
            vals.len() == self.rows(),
    {
        GridView {
            cells: Seq::new(self.cells.len(), |r: int| self.cells[r].insert(at, vals[r])),
            col_headers: self.col_headers.insert(at, header),
            ..self
        }
    }

    /// The grid with index `at` removed from every row and from the
    /// column-header list.
    pub open spec fn remove_col(self, at: int) -> GridView
        recommends
            0 <= at < self.cols(),
    {
        GridView {
            cells: Seq::new(self.cells.len(), |r: int| self.cells[r].remove(at)),
            col_headers: self.col_headers.remove(at),
            ..self
        }
    }

    /// The grid with every cell replaced by empty text; same shape, same
    /// headers.
    pub open spec fn cleared(self) -> GridView {
        GridView {
            cells: Seq::new(
                self.cells.len(),
                |r: int| Seq::new(self.cells[r].len(), |c: int| Seq::<char>::empty()),
            ),
            ..self
        }
    }

    /// The grid resized to `rows x cols`: cells within the old bounds keep
    /// their text and new cells are empty; header labels within the old
    /// bounds are kept and new indices get the default labels.
    pub open spec fn resized(self, rows: int, cols: int) -> GridView
        recommends
            rows >= 0,
            cols >= 0,
    {
        GridView {
            cells: Seq::new(
                rows as nat,
                |r: int|
                    Seq::new(
                        cols as nat,
                        |c: int|
                            if 0 <= r < self.cells.len() && 0 <= c < self.cells[r].len() {
                                self.cells[r][c]
                            } else {
                                Seq::<char>::empty()
                            },
                    ),
            ),
            row_headers: Seq::new(
                rows as nat,
                |i: int|
                    if 0 <= i < self.row_headers.len() {
                        self.row_headers[i]
                    } else {
                        row_label(i)
                    },
            ),
            col_headers: Seq::new(
                cols as nat,
                |i: int|
                    if 0 <= i < self.col_headers.len() {
                        self.col_headers[i]
                    } else {
                        col_label(i)
                    },
            ),
        }
    }

    /// The same cells with both header lists regenerated to the default
    /// labels.
    pub open spec fn with_default_headers(self) -> GridView {
        GridView {
            cells: self.cells,
            row_headers: Seq::new(self.cells.len(), |i: int| row_label(i)),
            col_headers: Seq::new(self.col_headers.len(), |i: int| col_label(i)),
        }
    }
}

/// Pushing onto a vector appends the element's deep view to the vector's
/// deep view.
pub(crate) proof fn lemma_push_deep_view<T: DeepView>(pre: Vec<T>, post: Vec<T>, x: T)
    requires
        post@ == pre@.push(x),
    ensures
        post.deep_view() == pre.deep_view().push(x.deep_view()),
{
    assert forall|i: int| 0 <= i < post@.len() implies #[trigger] post.deep_view()[i]
        == pre.deep_view().push(x.deep_view())[i] by {
        if i < pre@.len() {
            assert(post@[i] == pre@[i]);
        } else {
            assert(post@[i] == x);
        }
    }
    assert(post.deep_view() =~= pre.deep_view().push(x.deep_view()));
}

/// Inserting into a vector inserts the element's deep view into the
/// vector's deep view at the same index.
pub(crate) proof fn lemma_insert_deep_view<T: DeepView>(pre: Vec<T>, post: Vec<T>, i: int, x: T)
    requires
        0 <= i <= pre@.len(),
        post@ == pre@.insert(i, x),
    ensures
        post.deep_view() == pre.deep_view().insert(i, x.deep_view()),
{
    pre@.insert_ensures(i, x);
    pre.deep_view().insert_ensures(i, x.deep_view());
    assert forall|k: int| 0 <= k < post@.len() implies #[trigger] post.deep_view()[k]
        == pre.deep_view().insert(i, x.deep_view())[k] by {
        if k < i {
            assert(post@[k] == pre@[k]);
        } else if k == i {
            assert(post@[k] == x);
        } else {
            assert(post@[k] == pre@[k - 1]);
        }
    }
    assert(post.deep_view() =~= pre.deep_view().insert(i, x.deep_view()));
}

/// Removing from a vector removes the same index from its deep view.
pub(crate) proof fn lemma_remove_deep_view<T: DeepView>(pre: Vec<T>, post: Vec<T>, i: int)
    requires
        0 <= i < pre@.len(),
        post@ == pre@.remove(i),
    ensures
        post.deep_view() == pre.deep_view().remove(i),
{
    pre@.remove_ensures(i);
    pre.deep_view().remove_ensures(i);
    assert forall|k: int| 0 <= k < post@.len() implies #[trigger] post.deep_view()[k]
        == pre.deep_view().remove(i)[k] by {
        if k < i {
            assert(post@[k] == pre@[k]);
        } else {
            assert(post@[k] == pre@[k + 1]);
        }
    }
    assert(post.deep_view() =~= pre.deep_view().remove(i));
}

/// Updating one element of a vector updates the same index of its deep view.
pub(crate) proof fn lemma_update_deep_view<T: DeepView>(pre: Vec<T>, post: Vec<T>, i: int, x: T)
    requires
        0 <= i < pre@.len(),
        post@ == pre@.update(i, x),
    ensures
        post.deep_view() == pre.deep_view().update(i, x.deep_view()),
{
    assert forall|k: int| 0 <= k < post@.len() implies #[trigger] post.deep_view()[k]
        == pre.deep_view().update(i, x.deep_view())[k] by {
        if k != i {
            assert(post@[k] == pre@[k]);
        } else {
            assert(post@[k] == x);
        }
    }
    assert(post.deep_view() =~= pre.deep_view().update(i, x.deep_view()));
}

/// The views of a sequence of string slices.
pub open spec fn views_of_strs(vals: Seq<&str>) -> Seq<Seq<char>> {
    vals.map_values(|s: &str| s@)
}

/// The table core: the cell grid, its header labels, the construction-time
/// options, and the transient selection and edit state that the draw and
/// edit callbacks exchange.
#[derive(Debug)]
pub struct SmartTable {
    pub cells: Vec<Vec<String>>,
    pub row_headers: Vec<String>,
    pub col_headers: Vec<String>,
    pub opts: TableOpts,
    pub sel: Selection,
    pub edit: EditState,
}

impl SmartTable {
    /// The model of the table data.
    pub open spec fn grid(self) -> GridView {
        GridView {
            cells: self.cells.deep_view(),
            row_headers: self.row_headers.deep_view(),
            col_headers: self.col_headers.deep_view(),
        }
    }

    /// Well-formedness of the underlying grid.
    pub open spec fn wf(self) -> bool {
        self.grid().wf()
    }

    /// The options, selection and edit state of `post` are those of `pre`:
    /// a grid operation touched nothing but the grid.
    pub open spec fn ui_unchanged(pre: SmartTable, post: SmartTable) -> bool {
        &&& post.opts == pre.opts
        &&& post.sel == pre.sel
        &&& post.edit == pre.edit
    }

    /// An empty table: no rows, no columns, default options, no selection,
    /// no pending edit.
    pub fn new() -> (t: SmartTable)
        ensures
            t.wf(),
            t.grid() == GridView::empty(),
            t.opts == spec_default_opts(),
            t.sel == Selection::spec_none(),
            t.edit == EditState::Idle,
    {
        let t = SmartTable {
            cells: Vec::new(),
            row_headers: Vec::new(),
            col_headers: Vec::new(),
            opts: TableOpts::default(),
            sel: Selection::none(),
            edit: EditState::Idle,
        };
        proof {
            assert(t.grid() =~~= GridView::empty());
        }
        t
    }

    /// Returns the row count.
    pub fn row_count(&self) -> (r: i32)
        requires
            self.wf(),
        ensures
            r as int == self.grid().rows(),
    {
        self.cells.len() as i32
    }

    /// Returns the column count.
    pub fn column_count(&self) -> (r: i32)
        requires
            self.wf(),
        ensures
            r as int == self.grid().cols(),
    {
        self.col_headers.len() as i32
    }

    /// Get the cell value, using the row and column to index the data.
    /// Fails with `IndexOutOfBounds` exactly when `(row, col)` lies outside
    /// the current dimensions.
    pub fn cell_value(&self, row: i32, col: i32) -> (r: Result<String, TableError>)
        requires
            self.wf(),
        ensures
            match r {
                Ok(v) => self.grid().in_bounds(row as int, col as int) && v@ == self.grid().cell(
                    row as int,
                    col as int,
                ),
                Err(e) => !self.grid().in_bounds(row as int, col as int) && e
                    == TableError::IndexOutOfBounds,
            },
    {
        if row < 0 || col < 0 {
            return Err(TableError::IndexOutOfBounds);
        }
        let ru = row as usize;
        let cu = col as usize;
        if ru >= self.cells.len() {
            return Err(TableError::IndexOutOfBounds);
        }
        let row_vec = &self.cells[ru];
        proof {
            assert(self.grid().cells[ru as int].len() == self.grid().cols());
            assert(row_vec.deep_view() == self.grid().cells[ru as int]);
            assert(row_vec@.len() == row_vec.deep_view().len());
        }
        if cu >= row_vec.len() {
            return Err(TableError::IndexOutOfBounds);
        }
        let v = row_vec[cu].clone();
        proof {
            assert(v@ == row_vec.deep_view()[cu as int]);
        }
        Ok(v)
    }

    /// Set the cell value, using the row and column to index the data.
    /// Fails with `IndexOutOfBounds` exactly when `(row, col)` lies outside
    /// the current dimensions, leaving the table unmodified.
    pub fn set_cell_value(&mut self, row: i32, col: i32, val: &str) -> (r: Result<
        (),
        TableError,
    >)
        requires
            old(self).wf(),
        ensures
            final(self).wf(),
            SmartTable::ui_unchanged(*old(self), *final(self)),
            old(self).grid().in_bounds(row as int, col as int) ==> r is Ok && final(self).grid()
                == old(self).grid().set_cell(row as int, col as int, val@),
            !old(self).grid().in_bounds(row as int, col as int) ==> r === Err(
                TableError::IndexOutOfBounds,
            ) && *final(self) == *old(self),
    {
        if row < 0 || col < 0 {
            return Err(TableError::IndexOutOfBounds);
        }
        let ru = row as usize;
        let cu = col as usize;
        if ru >= self.cells.len() {
            return Err(TableError::IndexOutOfBounds);
        }
        if cu >= self.col_headers.len() {
            return Err(TableError::IndexOutOfBounds);
        }
        proof {
            assert(old(self).grid().cells[ru as int].len() == old(self).grid().cols());
            assert(old(self).grid().cells[ru as int] == old(self).cells@[ru as int].deep_view());
        }
        let row_vec = &mut self.cells[ru];
        proof {
            assert(row_vec@.len() == old(self).cells@[ru as int].deep_view().len());
        }
        row_vec.set(cu, val.to_owned());
        proof {
            assert(self.grid().cells =~~= old(self).grid().set_cell(
                row as int,
                col as int,
                val@,
            ).cells);
            assert(self.grid() =~~= old(self).grid().set_cell(row as int, col as int, val@));
        }
        Ok(())
    }

    /// Get the row header value at the row index.
    pub fn row_header_value(&self, row: i32) -> (r: Result<String, TableError>)
        requires
            self.wf(),
        ensures
            match r {
                Ok(v) => 0 <= row < self.grid().rows() && v@ == self.grid().row_headers[row as int],
                Err(e) => !(0 <= row < self.grid().rows()) && e == TableError::IndexOutOfBounds,
            },
    {
        if row < 0 {
            return Err(TableError::IndexOutOfBounds);
        }
        let ru = row as usize;
        if ru >= self.row_headers.len() {
            return Err(TableError::IndexOutOfBounds);
        }
        Ok(self.row_headers[ru].clone())
    }

    /// Get the column header value at the column index.
    pub fn col_header_value(&self, col: i32) -> (r: Result<String, TableError>)
        requires
            self.wf(),
        ensures
            match r {
                Ok(v) => 0 <= col < self.grid().cols() && v@ == self.grid().col_headers[col as int],
                Err(e) => !(0 <= col < self.grid().cols()) && e == TableError::IndexOutOfBounds,
            },
    {
        if col < 0 {
            return Err(TableError::IndexOutOfBounds);
        }
        let cu = col as usize;
        if cu >= self.col_headers.len() {
            return Err(TableError::IndexOutOfBounds);
        }
        Ok(self.col_headers[cu].clone())
    }

    /// Set the row header value at the row index.
    pub fn set_row_header_value(&mut self, row: i32, val: &str) -> (r: Result<(), TableError>)
        requires
            old(self).wf(),
        ensures
            final(self).wf(),
            SmartTable::ui_unchanged(*old(self), *final(self)),
            0 <= row < old(self).grid().rows() ==> r is Ok && final(self).grid() == old(
                self,
            ).grid().set_row_header(row as int, val@),
            !(0 <= row < old(self).grid().rows()) ==> r === Err(TableError::IndexOutOfBounds)
                && *final(self) == *old(self),
    {
        if row < 0 {
            return Err(TableError::IndexOutOfBounds);
        }
        let ru = row as usize;
        if ru >= self.row_headers.len() {
            return Err(TableError::IndexOutOfBounds);
        }
        self.row_headers.set(ru, val.to_owned());
        proof {
            assert(self.grid() =~~= old(self).grid().set_row_header(row as int, val@));
        }
        Ok(())
    }

    /// Set the column header value at the column index.
    pub fn set_col_header_value(&mut self, col: i32, val: &str) -> (r: Result<(), TableError>)
        requires
            old(self).wf(),
        ensures
            final(self).wf(),
            SmartTable::ui_unchanged(*old(self), *final(self)),
            0 <= col < old(self).grid().cols() ==> r is Ok && final(self).grid() == old(
                self,
            ).grid().set_col_header(col as int, val@),
            !(0 <= col < old(self).grid().cols()) ==> r === Err(TableError::IndexOutOfBounds)
                && *final(self) == *old(self),
    {
        if col < 0 {
            return Err(TableError::IndexOutOfBounds);
        }
        let cu = col as usize;
        if cu >= self.col_headers.len() {
            return Err(TableError::IndexOutOfBounds);
        }
        self.col_headers.set(cu, val.to_owned());
        proof {
            assert(self.grid() =~~= old(self).grid().set_col_header(col as int, val@));
        }
        Ok(())
    }

    /// Grow or shrink the matrix to `rows x cols`, padding new cells with
    /// empty text and new header indices with the default labels; cells and
    /// labels within the old bounds are kept. Fails with `InvalidDimension`
    /// exactly when a dimension is negative, leaving the table unmodified.
    pub fn resize(&mut self, rows: i32, cols: i32) -> (r: Result<(), TableError>)
        requires
            old(self).wf(),
        ensures
            final(self).wf(),
            SmartTable::ui_unchanged(*old(self), *final(self)),
            rows >= 0 && cols >= 0 ==> r is Ok && final(self).grid() == old(self).grid().resized(
                rows as int,
                cols as int,
            ),
            !(rows >= 0 && cols >= 0) ==> r === Err(TableError::InvalidDimension) && *final(self)
                == *old(self),
    {
        if rows < 0 || cols < 0 {
            return Err(TableError::InvalidDimension);
        }
        let nrows = rows as usize;
        let ncols = cols as usize;
        let ghost target = self.grid().resized(rows as int, cols as int);

        let mut new_cells: Vec<Vec<String>> = Vec::new();
        proof {
            assert(new_cells.deep_view() =~= target.cells.subrange(0, 0));
        }
        let mut r: usize = 0;
        while r < nrows
            invariant
                *self == *old(self),
                self.wf(),
                rows >= 0 && cols >= 0,
                nrows == rows as usize && ncols == cols as usize,
                target == self.grid().resized(rows as int, cols as int),
                r <= nrows,
                new_cells@.len() == r,
                new_cells.deep_view() == target.cells.subrange(0, r as int),
            decreases nrows - r,
        {
            let mut row_vec: Vec<String> = Vec::new();
            proof {
                assert(row_vec.deep_view() =~= target.cells[r as int].subrange(0, 0));
            }
            let mut c: usize = 0;
            while c < ncols
                invariant
                    *self == *old(self),
                    self.wf(),
                    rows >= 0 && cols >= 0,
                    nrows == rows as usize && ncols == cols as usize,
                    target == self.grid().resized(rows as int, cols as int),
                    r < nrows,
                    c <= ncols,
                    row_vec@.len() == c,
                    row_vec.deep_view() == target.cells[r as int].subrange(0, c as int),
                decreases ncols - c,
            {
                let ghost pre_row = row_vec;
                if r < self.cells.len() {
                    let src_row = &self.cells[r];
                    proof {
                        assert(src_row.deep_view() == self.grid().cells[r as int]);
                    }
                    if c < src_row.len() {
                        let v = src_row[c].clone();
                        proof {
                            assert(src_row.deep_view()[c as int] == src_row@[c as int]@);
                        }
                        row_vec.push(v);
                    } else {
                        row_vec.push(String::new());
                    }
                } else {
                    row_vec.push(String::new());
                }
                proof {
                    lemma_push_deep_view(pre_row, row_vec, row_vec@[c as int]);
                    assert(target.cells[r as int].subrange(0, c as int).push(
                        target.cells[r as int][c as int],
                    ) =~= target.cells[r as int].subrange(0, c as int + 1));
                    assert(row_vec@[c as int].deep_view() == target.cells[r as int][c as int]);
                }
                c += 1;
            }
            proof {
                assert(row_vec.deep_view() =~= target.cells[r as int]);
            }
            let ghost pre_cells = new_cells;
            let ghost rv = row_vec;
            new_cells.push(row_vec);
            proof {
                lemma_push_deep_view(pre_cells, new_cells, rv);
                assert(target.cells.subrange(0, r as int).push(target.cells[r as int]) =~= target
                    .cells.subrange(0, r as int + 1));
            }
            r += 1;
        }

        let mut new_row_headers: Vec<String> = Vec::new();
        proof {
            assert(new_row_headers.deep_view() =~= target.row_headers.subrange(0, 0));
        }
        let mut i: usize = 0;
        while i < nrows
            invariant
                *self == *old(self),
                self.wf(),
                rows >= 0 && cols >= 0,
                nrows == rows as usize,
                target == self.grid().resized(rows as int, cols as int),
                i <= nrows,
                new_row_headers@.len() == i,
                new_row_headers.deep_view() == target.row_headers.subrange(0, i as int),
            decreases nrows - i,
        {
            let ghost pre = new_row_headers;
            if i < self.row_headers.len() {
                let v = self.row_headers[i].clone();
                proof {
                    assert(self.row_headers.deep_view()[i as int] == self.row_headers@[i as int]@);
                }
                new_row_headers.push(v);
            } else {
                new_row_headers.push(row_header_label(i as i32));
            }
            proof {
                lemma_push_deep_view(pre, new_row_headers, new_row_headers@[i as int]);
                assert(target.row_headers.subrange(0, i as int).push(
                    target.row_headers[i as int],
                ) =~= target.row_headers.subrange(0, i as int + 1));
                assert(new_row_headers@[i as int].deep_view() == target.row_headers[i as int]);
            }
            i += 1;
        }

        let mut new_col_headers: Vec<String> = Vec::new();
        proof {
            assert(new_col_headers.deep_view() =~= target.col_headers.subrange(0, 0));
        }
        let mut j: usize = 0;
        while j < ncols
            invariant
                *self == *old(self),
                self.wf(),
                rows >= 0 && cols >= 0,
                ncols == cols as usize,
                target == self.grid().resized(rows as int, cols as int),
                j <= ncols,
                new_col_headers@.len() == j,
                new_col_headers.deep_view() == target.col_headers.subrange(0, j as int),
            decreases ncols - j,
        {
            let ghost pre = new_col_headers;
            if j < self.col_headers.len() {
                let v = self.col_headers[j].clone();
                proof {
                    assert(self.col_headers.deep_view()[j as int] == self.col_headers@[j as int]@);
                }
                new_col_headers.push(v);
            } else {
                new_col_headers.push(col_header_label(j as i32));
            }
            proof {
                lemma_push_deep_view(pre, new_col_headers, new_col_headers@[j as int]);
                assert(target.col_headers.subrange(0, j as int).push(
                    target.col_headers[j as int],
                ) =~= target.col_headers.subrange(0, j as int + 1));
                assert(new_col_headers@[j as int].deep_view() == target.col_headers[j as int]);
            }
            j += 1;
        }

        self.cells = new_cells;
        self.row_headers = new_row_headers;
        self.col_headers = new_col_headers;
        proof {
            assert(self.grid().cells =~~= target.cells);
            assert(self.grid().row_headers =~~= target.row_headers);
            assert(self.grid().col_headers =~~= target.col_headers);
            assert(self.grid() =~~= target);
        }
        Ok(())
    }

    /// Apply the table options: resize the matrix to `opts.rows x opts.cols`
    /// (keeping cell text within the old bounds), regenerate both header
    /// lists to the default labels, store the options snapshot, and reset
    /// the selection and edit state. Fails with `InvalidDimension` exactly
    /// when a dimension is negative, leaving the table unmodified.
    pub fn set_opts(&mut self, opts: &TableOpts) -> (r: Result<(), TableError>)
        requires
            old(self).wf(),
        ensures
            final(self).wf(),
            opts.rows >= 0 && opts.cols >= 0 ==> {
                &&& r is Ok
                &&& final(self).grid() == old(self).grid().resized(
                    opts.rows as int,
                    opts.cols as int,
                ).with_default_headers()
                &&& final(self).opts == *opts
                &&& final(self).sel == Selection::spec_none()
                &&& final(self).edit == EditState::Idle
            },
            !(opts.rows >= 0 && opts.cols >= 0) ==> r === Err(TableError::InvalidDimension)
                && *final(self) == *old(self),
    {
        if opts.rows < 0 || opts.cols < 0 {
            return Err(TableError::InvalidDimension);
        }
        let res = self.resize(opts.rows, opts.cols);
        proof {
            assert(res is Ok);
        }
        let ghost target = old(self).grid().resized(
            opts.rows as int,
            opts.cols as int,
        ).with_default_headers();

        let nrows = opts.rows as usize;
        let ncols = opts.cols as usize;
        let mut new_row_headers: Vec<String> = Vec::new();
        proof {
            assert(new_row_headers.deep_view() =~= target.row_headers.subrange(0, 0));
        }
        let mut i: usize = 0;
        while i < nrows
            invariant
                nrows <= i32::MAX,
                i <= nrows,
                target.row_headers.len() == nrows,
                forall|k: int| 0 <= k < nrows ==> #[trigger] target.row_headers[k] == row_label(k),
                new_row_headers@.len() == i,
                new_row_headers.deep_view() == target.row_headers.subrange(0, i as int),
            decreases nrows - i,
        {
            let ghost pre = new_row_headers;
            new_row_headers.push(row_header_label(i as i32));
            proof {
                lemma_push_deep_view(pre, new_row_headers, new_row_headers@[i as int]);
                assert(target.row_headers.subrange(0, i as int).push(
                    target.row_headers[i as int],
                ) =~= target.row_headers.subrange(0, i as int + 1));
            }
            i += 1;
        }
        let mut new_col_headers: Vec<String> = Vec::new();
        proof {
            assert(new_col_headers.deep_view() =~= target.col_headers.subrange(0, 0));
        }
        let mut j: usize = 0;
        while j < ncols
            invariant
                ncols <= i32::MAX,
                j <= ncols,
                target.col_headers.len() == ncols,
                forall|k: int| 0 <= k < ncols ==> #[trigger] target.col_headers[k] == col_label(k),
                new_col_headers@.len() == j,
                new_col_headers.deep_view() == target.col_headers.subrange(0, j as int),
            decreases ncols - j,
        {
            let ghost pre = new_col_headers;
            new_col_headers.push(col_header_label(j as i32));
            proof {
                lemma_push_deep_view(pre, new_col_headers, new_col_headers@[j as int]);
                assert(target.col_headers.subrange(0, j as int).push(
                    target.col_headers[j as int],
                ) =~= target.col_headers.subrange(0, j as int + 1));
            }
            j += 1;
        }
        self.row_headers = new_row_headers;
        self.col_headers = new_col_headers;
        self.opts = *opts;
        self.sel = Selection::none();
        self.edit = EditState::Idle;
        proof {
            assert(self.grid().cells =~~= target.cells);
            assert(self.grid().row_headers =~~= target.row_headers);
            assert(self.grid().col_headers =~~= target.col_headers);
            assert(self.grid() =~~= target);
        }
        Ok(())
    }

    /// Instantiate with `TableOpts`: consumes the table and returns it with
    /// the options applied (see [`SmartTable::set_opts`]).
    pub fn with_opts(self, opts: &TableOpts) -> (r: Result<SmartTable, TableError>)
        requires
            self.wf(),
        ensures
            match r {
                Ok(t) => opts.rows >= 0 && opts.cols >= 0 && t.wf() && t.grid() == self.grid()
                    .resized(opts.rows as int, opts.cols as int).with_default_headers() && t.opts
                    == *opts && t.sel == Selection::spec_none() && t.edit == EditState::Idle,
                Err(e) => !(opts.rows >= 0 && opts.cols >= 0) && e == TableError::InvalidDimension,
            },
    {
        let mut t = self;
        match t.set_opts(opts) {
            Ok(()) => Ok(t),
            Err(e) => Err(e),
        }
    }

    /// Build a vector of `n` empty cells.
    fn make_empty_row(n: usize) -> (v: Vec<String>)
        ensures
            v.deep_view() == Seq::new(n as nat, |c: int| Seq::<char>::empty()),
    {
        let ghost target = Seq::new(n as nat, |c: int| Seq::<char>::empty());
        let mut v: Vec<String> = Vec::new();
        proof {
            assert(v.deep_view() =~= target.subrange(0, 0));
        }
        let mut c: usize = 0;
        while c < n
            invariant
                c <= n,
                target == Seq::new(n as nat, |c: int| Seq::<char>::empty()),
                v@.len() == c,
                v.deep_view() == target.subrange(0, c as int),
            decreases n - c,
        {
            let ghost pre = v;
            v.push(String::new());
            proof {
                lemma_push_deep_view(pre, v, v@[c as int]);
                assert(target.subrange(0, c as int).push(target[c as int]) =~= target.subrange(
                    0,
                    c as int + 1,
                ));
            }
            c += 1;
        }
        proof {
            assert(v.deep_view() =~= target);
        }
        v
    }

    /// Build a vector of owned copies of the given string slices.
    fn make_owned_row(vals: &[&str]) -> (v: Vec<String>)
        ensures
            v.deep_view() == views_of_strs(vals@),
    {
        let mut v: Vec<String> = Vec::new();
        proof {
            assert(v.deep_view() =~= views_of_strs(vals@).subrange(0, 0));
        }
        let mut c: usize = 0;
        while c < vals.len()
            invariant
                c <= vals@.len(),
                v@.len() == c,
                v.deep_view() == views_of_strs(vals@).subrange(0, c as int),
            decreases vals@.len() - c,
        {
            let ghost pre = v;
            let s = vals[c].to_owned();
            v.push(s);
            proof {
                lemma_push_deep_view(pre, v, v@[c as int]);
                assert(views_of_strs(vals@)[c as int] == vals@[c as int]@);
                assert(views_of_strs(vals@).subrange(0, c as int).push(
                    views_of_strs(vals@)[c as int],
                ) =~= views_of_strs(vals@).subrange(0, c as int + 1));
            }
            c += 1;
        }
        proof {
            assert(v.deep_view() =~= views_of_strs(vals@));
        }
        v
    }

    /// Insert `row_vec` as a new row at index `ru`, with `row_header` as its
    /// header label.
    fn insert_row_vec(&mut self, ru: usize, row_header: &str, row_vec: Vec<String>)
        requires
            old(self).wf(),
            ru <= old(self).grid().rows(),
            old(self).grid().rows() < i32::MAX,
            row_vec.deep_view().len() == old(self).grid().cols(),
        ensures
            final(self).wf(),
            SmartTable::ui_unchanged(*old(self), *final(self)),
            final(self).grid() == old(self).grid().insert_row(
                ru as int,
                row_header@,
                row_vec.deep_view(),
            ),
    {
        let ghost rv = row_vec;
        let ghost pre_cells = self.cells;
        self.cells.insert(ru, row_vec);
        proof {
            lemma_insert_deep_view(pre_cells, self.cells, ru as int, rv);
        }
        let hs = row_header.to_owned();
        let ghost hg = hs;
        let ghost pre_rh = self.row_headers;
        self.row_headers.insert(ru, hs);
        proof {
            lemma_insert_deep_view(pre_rh, self.row_headers, ru as int, hg);
            let post = old(self).grid().insert_row(ru as int, row_header@, rv.deep_view());
            assert(self.grid() =~~= post);
            old(self).grid().cells.insert_ensures(ru as int, rv.deep_view());
            assert forall|r: int| 0 <= r < post.cells.len() implies (#[trigger] post.cells[r]).len()
                == post.col_headers.len() by {
                if r < ru as int {
                    assert(post.cells[r] == old(self).grid().cells[r]);
                } else if r == ru as int {
                    assert(post.cells[r] == rv.deep_view());
                } else {
                    assert(post.cells[r] == old(self).grid().cells[r - 1]);
                }
            }
        }
    }

    /// Insert an empty row at the row index, with `row_header` as its header
    /// label. Fails with `IndexOutOfBounds` exactly when `row` is outside
    /// `0..=row_count()`, leaving the table unmodified.
    pub fn insert_empty_row(&mut self, row: i32, row_header: &str) -> (r: Result<(), TableError>)
        requires
            old(self).wf(),
            old(self).grid().rows() < i32::MAX,
        ensures
            final(self).wf(),
            SmartTable::ui_unchanged(*old(self), *final(self)),
            0 <= row <= old(self).grid().rows() ==> r is Ok && final(self).grid() == old(
                self,
            ).grid().insert_row(row as int, row_header@, old(self).grid().empty_row()),
            !(0 <= row <= old(self).grid().rows()) ==> r === Err(TableError::IndexOutOfBounds)
                && *final(self) == *old(self),
    {
        if row < 0 {
            return Err(TableError::IndexOutOfBounds);
        }
        let ru = row as usize;
        if ru > self.cells.len() {
            return Err(TableError::IndexOutOfBounds);
        }
        let row_vec = Self::make_empty_row(self.col_headers.len());
        self.insert_row_vec(ru, row_header, row_vec);
        Ok(())
    }

    /// Insert a row of explicit values at the row index, with `row_header`
    /// as its header label. Fails with `ColumnCountMismatch` exactly when
    /// `vals` does not have one value per column, and otherwise with
    /// `IndexOutOfBounds` exactly when `row` is outside `0..=row_count()`;
    /// on failure the table is unmodified.
    pub fn insert_row(&mut self, row: i32, row_header: &str, vals: &[&str]) -> (r: Result<
        (),
        TableError,
    >)
        requires
            old(self).wf(),
            old(self).grid().rows() < i32::MAX,
        ensures
            final(self).wf(),
            SmartTable::ui_unchanged(*old(self), *final(self)),
            vals@.len() != old(self).grid().cols() ==> r === Err(TableError::ColumnCountMismatch)
                && *final(self) == *old(self),
            vals@.len() == old(self).grid().cols() && !(0 <= row <= old(self).grid().rows()) ==> r
                === Err(TableError::IndexOutOfBounds) && *final(self) == *old(self),
            vals@.len() == old(self).grid().cols() && 0 <= row <= old(self).grid().rows() ==> r
                is Ok && final(self).grid() == old(self).grid().insert_row(
                row as int,
                row_header@,
                views_of_strs(vals@),
            ),
    {
        if vals.len() != self.col_headers.len() {
            return Err(TableError::ColumnCountMismatch);
        }
        if row < 0 {
            return Err(TableError::IndexOutOfBounds);
        }
        let ru = row as usize;
        if ru > self.cells.len() {
            return Err(TableError::IndexOutOfBounds);
        }
        let row_vec = Self::make_owned_row(vals);
        self.insert_row_vec(ru, row_header, row_vec);
        Ok(())
    }

    /// Append an empty row, with `row_header` as its header label.
    pub fn append_empty_row(&mut self, row_header: &str)
        requires
            old(self).wf(),
            old(self).grid().rows() < i32::MAX,
        ensures
            final(self).wf(),
            SmartTable::ui_unchanged(*old(self), *final(self)),
            final(self).grid() == old(self).grid().insert_row(
                old(self).grid().rows(),
                row_header@,
                old(self).grid().empty_row(),
            ),
    {
        let row_vec = Self::make_empty_row(self.col_headers.len());
        let at = self.cells.len();
        self.insert_row_vec(at, row_header, row_vec);
    }

    /// Append a row of explicit values, with `row_header` as its header
    /// label. Fails with `ColumnCountMismatch` exactly when `vals` does not
    /// have one value per column, leaving the table unmodified.
    pub fn append_row(&mut self, row_header: &str, vals: &[&str]) -> (r: Result<(), TableError>)
        requires
            old(self).wf(),
            old(self).grid().rows() < i32::MAX,
        ensures
            final(self).wf(),
            SmartTable::ui_unchanged(*old(self), *final(self)),
            vals@.len() != old(self).grid().cols() ==> r === Err(TableError::ColumnCountMismatch)
                && *final(self) == *old(self),
            vals@.len() == old(self).grid().cols() ==> r is Ok && final(self).grid() == old(
                self,
            ).grid().insert_row(old(self).grid().rows(), row_header@, views_of_strs(vals@)),
    {
        if vals.len() != self.col_headers.len() {
            return Err(TableError::ColumnCountMismatch);
        }
        let row_vec = Self::make_owned_row(vals);
        let at = self.cells.len();
        self.insert_row_vec(at, row_header, row_vec);
        Ok(())
    }

    /// Remove the row at the row index together with its header label.
    /// Fails with `IndexOutOfBounds` exactly when `row` is outside the
    /// current rows, leaving the table unmodified.
    pub fn remove_row(&mut self, row: i32) -> (r: Result<(), TableError>)
        requires
            old(self).wf(),
        ensures
            final(self).wf(),
            SmartTable::ui_unchanged(*old(self), *final(self)),
            0 <= row < old(self).grid().rows() ==> r is Ok && final(self).grid() == old(
                self,
            ).grid().remove_row(row as int),
            !(0 <= row < old(self).grid().rows()) ==> r === Err(TableError::IndexOutOfBounds)
                && *final(self) == *old(self),
    {
        if row < 0 {
            return Err(TableError::IndexOutOfBounds);
        }
        let ru = row as usize;
        if ru >= self.cells.len() {
            return Err(TableError::IndexOutOfBounds);
        }
        let ghost pre_cells = self.cells;
        let _removed = self.cells.remove(ru);
        let ghost pre_rh = self.row_headers;
        let _removed_header = self.row_headers.remove(ru);
        proof {
            lemma_remove_deep_view(pre_cells, self.cells, ru as int);
            lemma_remove_deep_view(pre_rh, self.row_headers, ru as int);
            let post = old(self).grid().remove_row(ru as int);
            assert(self.grid() =~~= post);
            old(self).grid().cells.remove_ensures(ru as int);
            assert forall|r2: int| 0 <= r2 < post.cells.len() implies (
            #[trigger] post.cells[r2]).len() == post.col_headers.len() by {
                if r2 < ru as int {
                    assert(post.cells[r2] == old(self).grid().cells[r2]);
                } else {
                    assert(post.cells[r2] == old(self).grid().cells[r2 + 1]);
                }
            }
        }
        Ok(())
    }

    /// Insert `col_vec[r]` at index `cu` of every row `r`, and `col_header`
    /// at the same index of the column-header list.
    fn insert_col_vals(&mut self, cu: usize, col_header: &str, vals: Option<&[&str]>)
        requires
            old(self).wf(),
            cu <= old(self).grid().cols(),
            old(self).grid().cols() < i32::MAX,
            vals matches Some(v) ==> v@.len() == old(self).grid().rows(),
        ensures
            final(self).wf(),
            SmartTable::ui_unchanged(*old(self), *final(self)),
            final(self).grid() == old(self).grid().insert_col(
                cu as int,
                col_header@,
                match vals {
                    Some(v) => views_of_strs(v@),
                    None => old(self).grid().empty_col(),
                },
            ),
    {
        let ghost inserted: Seq<Seq<char>> = match vals {
            Some(v) => views_of_strs(v@),
            None => old(self).grid().empty_col(),
        };
        let rows = self.cells.len();
        let mut r: usize = 0;
        while r < rows
            invariant
                old(self).wf(),
                rows == old(self).cells@.len(),
                cu <= old(self).grid().cols(),
                vals matches Some(v) ==> v@.len() == old(self).grid().rows(),
                inserted == (match vals {
                    Some(v) => views_of_strs(v@),
                    None => old(self).grid().empty_col(),
                }),
                r <= rows,
                self.cells@.len() == rows,
                self.row_headers == old(self).row_headers,
                self.col_headers == old(self).col_headers,
                self.opts == old(self).opts,
                self.sel == old(self).sel,
                self.edit == old(self).edit,
                forall|i: int| 0 <= i < r ==> #[trigger] self.cells.deep_view()[i] == old(
                    self,
                ).grid().cells[i].insert(cu as int, inserted[i]),
                forall|i: int| r <= i < rows ==> #[trigger] self.cells@[i] == old(self).cells@[i],
            decreases rows - r,
        {
            let s: String = match vals {
                Some(v) => v[r].to_owned(),
                None => String::new(),
            };
            let ghost sg = s;
            let ghost pre_cells = self.cells;
            let ghost pre_row = self.cells@[r as int];
            proof {
                assert(old(self).cells@[r as int].deep_view() == old(self).grid().cells[r as int]);
                assert(pre_row@.len() == pre_row.deep_view().len());
            }
            let rv = &mut self.cells[r];
            rv.insert(cu, s);
            proof {
                lemma_insert_deep_view(pre_row, self.cells@[r as int], cu as int, sg);
                lemma_update_deep_view(pre_cells, self.cells, r as int, self.cells@[r as int]);
                assert(sg.deep_view() == inserted[r as int]);
                assert forall|i: int| 0 <= i < r + 1 implies #[trigger] self.cells.deep_view()[i]
                    == old(self).grid().cells[i].insert(cu as int, inserted[i]) by {
                    if i < r {
                        assert(self.cells.deep_view()[i] == pre_cells.deep_view()[i]);
                    }
                }
                assert forall|i: int| r + 1 <= i < rows implies #[trigger] self.cells@[i] == old(
                    self,
                ).cells@[i] by {
                    assert(self.cells@[i] == pre_cells@[i]);
                }
            }
            r += 1;
        }
        let hs = col_header.to_owned();
        let ghost hg = hs;
        let ghost pre_ch = self.col_headers;
        self.col_headers.insert(cu, hs);
        proof {
            lemma_insert_deep_view(pre_ch, self.col_headers, cu as int, hg);
            let post = old(self).grid().insert_col(cu as int, col_header@, inserted);
            assert(self.grid().cells =~~= post.cells);
            assert(self.grid() =~~= post);
            assert forall|r2: int| 0 <= r2 < post.cells.len() implies (
            #[trigger] post.cells[r2]).len() == post.col_headers.len() by {
                old(self).grid().cells[r2].insert_ensures(cu as int, inserted[r2]);
                old(self).grid().col_headers.insert_ensures(cu as int, col_header@);
            }
        }
    }

    /// Insert an empty column at the column index, with `col_header` as its
    /// header label. Fails with `IndexOutOfBounds` exactly when `col` is
    /// outside `0..=column_count()`, leaving the table unmodified.
    pub fn insert_empty_col(&mut self, col: i32, col_header: &str) -> (r: Result<(), TableError>)
        requires
            old(self).wf(),
            old(self).grid().cols() < i32::MAX,
        ensures
            final(self).wf(),
            SmartTable::ui_unchanged(*old(self), *final(self)),
            0 <= col <= old(self).grid().cols() ==> r is Ok && final(self).grid() == old(
                self,
            ).grid().insert_col(col as int, col_header@, old(self).grid().empty_col()),
            !(0 <= col <= old(self).grid().cols()) ==> r === Err(TableError::IndexOutOfBounds)
                && *final(self) == *old(self),
    {
        if col < 0 {
            return Err(TableError::IndexOutOfBounds);
        }
        let cu = col as usize;
        if cu > self.col_headers.len() {
            return Err(TableError::IndexOutOfBounds);
        }
        self.insert_col_vals(cu, col_header, None);
        Ok(())
    }

    /// Insert a column of explicit values at the column index, with
    /// `col_header` as its header label. Fails with `RowCountMismatch`
    /// exactly when `vals` does not have one value per row, and otherwise
    /// with `IndexOutOfBounds` exactly when `col` is outside
    /// `0..=column_count()`; on failure the table is unmodified.
    pub fn insert_col(&mut self, col: i32, col_header: &str, vals: &[&str]) -> (r: Result<
        (),
        TableError,
    >)
        requires
            old(self).wf(),
            old(self).grid().cols() < i32::MAX,
        ensures
            final(self).wf(),
            SmartTable::ui_unchanged(*old(self), *final(self)),
            vals@.len() != old(self).grid().rows() ==> r === Err(TableError::RowCountMismatch)
                && *final(self) == *old(self),
            vals@.len() == old(self).grid().rows() && !(0 <= col <= old(self).grid().cols()) ==> r
                === Err(TableError::IndexOutOfBounds) && *final(self) == *old(self),
            vals@.len() == old(self).grid().rows() && 0 <= col <= old(self).grid().cols() ==> r
                is Ok && final(self).grid() == old(self).grid().insert_col(
                col as int,
                col_header@,
                views_of_strs(vals@),
            ),
    {
        if vals.len() != self.cells.len() {
            return Err(TableError::RowCountMismatch);
        }
        if col < 0 {
            return Err(TableError::IndexOutOfBounds);
        }
        let cu = col as usize;
        if cu > self.col_headers.len() {
            return Err(TableError::IndexOutOfBounds);
        }
        self.insert_col_vals(cu, col_header, Some(vals));
        Ok(())
    }

    /// Append an empty column, with `col_header` as its header label.
    pub fn append_empty_col(&mut self, col_header: &str)
        requires
            old(self).wf(),
            old(self).grid().cols() < i32::MAX,
        ensures
            final(self).wf(),
            SmartTable::ui_unchanged(*old(self), *final(self)),
            final(self).grid() == old(self).grid().insert_col(
                old(self).grid().cols(),
                col_header@,
                old(self).grid().empty_col(),
            ),
    {
        let cu = self.col_headers.len();
        self.insert_col_vals(cu, col_header, None);
    }

    /// Append a column of explicit values, with `col_header` as its header
    /// label. Fails with `RowCountMismatch` exactly when `vals` does not
    /// have one value per row, leaving the table unmodified.
    pub fn append_col(&mut self, col_header: &str, vals: &[&str]) -> (r: Result<(), TableError>)
        requires
            old(self).wf(),
            old(self).grid().cols() < i32::MAX,
        ensures
            final(self).wf(),
            SmartTable::ui_unchanged(*old(self), *final(self)),
            vals@.len() != old(self).grid().rows() ==> r === Err(TableError::RowCountMismatch)
                && *final(self) == *old(self),
            vals@.len() == old(self).grid().rows() ==> r is Ok && final(self).grid() == old(
                self,
            ).grid().insert_col(old(self).grid().cols(), col_header@, views_of_strs(vals@)),
    {
        if vals.len() != self.cells.len() {
            return Err(TableError::RowCountMismatch);
        }
        let cu = self.col_headers.len();
        self.insert_col_vals(cu, col_header, Some(vals));
        Ok(())
    }

    /// Remove the column at the column index from every row, together with
    /// its header label. Fails with `IndexOutOfBounds` exactly when `col` is
    /// outside the current columns, leaving the table unmodified.
    pub fn remove_col(&mut self, col: i32) -> (r: Result<(), TableError>)
        requires
            old(self).wf(),
        ensures
            final(self).wf(),
            SmartTable::ui_unchanged(*old(self), *final(self)),
            0 <= col < old(self).grid().cols() ==> r is Ok && final(self).grid() == old(
                self,
            ).grid().remove_col(col as int),
            !(0 <= col < old(self).grid().cols()) ==> r === Err(TableError::IndexOutOfBounds)
                && *final(self) == *old(self),
    {
        if col < 0 {
            return Err(TableError::IndexOutOfBounds);
        }
        let cu = col as usize;
        if cu >= self.col_headers.len() {
            return Err(TableError::IndexOutOfBounds);
        }
        let rows = self.cells.len();
        let mut r: usize = 0;
        while r < rows
            invariant
                old(self).wf(),
                rows == old(self).cells@.len(),
                cu < old(self).grid().cols(),
                r <= rows,
                self.cells@.len() == rows,
                self.row_headers == old(self).row_headers,
                self.col_headers == old(self).col_headers,
                self.opts == old(self).opts,
                self.sel == old(self).sel,
                self.edit == old(self).edit,
                forall|i: int| 0 <= i < r ==> #[trigger] self.cells.deep_view()[i] == old(
                    self,
                ).grid().cells[i].remove(cu as int),
                forall|i: int| r <= i < rows ==> #[trigger] self.cells@[i] == old(self).cells@[i],
            decreases rows - r,
        {
            let ghost pre_cells = self.cells;
            let ghost pre_row = self.cells@[r as int];
            proof {
                assert(old(self).cells@[r as int].deep_view() == old(self).grid().cells[r as int]);
                assert(pre_row@.len() == pre_row.deep_view().len());
            }
            let rv = &mut self.cells[r];
            let _removed = rv.remove(cu);
            proof {
                lemma_remove_deep_view(pre_row, self.cells@[r as int], cu as int);
                lemma_update_deep_view(pre_cells, self.cells, r as int, self.cells@[r as int]);
                assert forall|i: int| 0 <= i < r + 1 implies #[trigger] self.cells.deep_view()[i]
                    == old(self).grid().cells[i].remove(cu as int) by {
                    if i < r {
                        assert(self.cells.deep_view()[i] == pre_cells.deep_view()[i]);
                    }
                }
                assert forall|i: int| r + 1 <= i < rows implies #[trigger] self.cells@[i] == old(
                    self,
                ).cells@[i] by {
                    assert(self.cells@[i] == pre_cells@[i]);
                }
            }
            r += 1;
        }
        let ghost pre_ch = self.col_headers;
        let _removed_header = self.col_headers.remove(cu);
        proof {
            lemma_remove_deep_view(pre_ch, self.col_headers, cu as int);
            let post = old(self).grid().remove_col(cu as int);
            assert(self.grid().cells =~~= post.cells);
            assert(self.grid() =~~= post);
            assert forall|r2: int| 0 <= r2 < post.cells.len() implies (
            #[trigger] post.cells[r2]).len() == post.col_headers.len() by {
                old(self).grid().cells[r2].remove_ensures(cu as int);
                old(self).grid().col_headers.remove_ensures(cu as int);
            }
        }
        Ok(())
    }

    /// Clears all cells in the table: every cell becomes empty text, while
    /// the shape and both header lists are unchanged.
    pub fn clear(&mut self)
        requires
            old(self).wf(),
        ensures
            final(self).wf(),
            SmartTable::ui_unchanged(*old(self), *final(self)),
            final(self).grid() == old(self).grid().cleared(),
    {
        let ghost target = self.grid().cleared();
        let rows = self.cells.len();
        let ncols = self.col_headers.len();
        let mut new_cells: Vec<Vec<String>> = Vec::new();
        proof {
            assert(new_cells.deep_view() =~= target.cells.subrange(0, 0));
        }
        let mut r: usize = 0;
        while r < rows
            invariant
                old(self).wf(),
                *self == *old(self),
                rows == self.cells@.len(),
                ncols == old(self).grid().cols(),
                target == self.grid().cleared(),
                r <= rows,
                new_cells@.len() == r,
                new_cells.deep_view() == target.cells.subrange(0, r as int),
            decreases rows - r,
        {
            let row_vec = Self::make_empty_row(ncols);
            proof {
                assert(old(self).grid().cells[r as int].len() == ncols);
                assert(row_vec.deep_view() =~= target.cells[r as int]);
            }
            let ghost pre = new_cells;
            let ghost rv = row_vec;
            new_cells.push(row_vec);
            proof {
                lemma_push_deep_view(pre, new_cells, rv);
                assert(target.cells.subrange(0, r as int).push(target.cells[r as int]) =~= target
                    .cells.subrange(0, r as int + 1));
            }
            r += 1;
        }
        self.cells = new_cells;
        proof {
            assert(self.grid().cells =~~= target.cells);
            assert(self.grid() =~~= target);
        }
    }

    /// Get a copy of the data: the full cell matrix, row by row.
    pub fn data(&self) -> (d: Vec<Vec<String>>)
        ensures
            d.deep_view() == self.grid().cells,
    {
        let mut d: Vec<Vec<String>> = Vec::new();
        proof {
            assert(d.deep_view() =~= self.grid().cells.subrange(0, 0));
        }
        let mut r: usize = 0;
        while r < self.cells.len()
            invariant
                r <= self.cells@.len(),
                d@.len() == r,
                d.deep_view() == self.grid().cells.subrange(0, r as int),
            decreases self.cells@.len() - r,
        {
            let src_row = &self.cells[r];
            proof {
                assert(src_row.deep_view() == self.grid().cells[r as int]);
            }
            let mut row_vec: Vec<String> = Vec::new();
            proof {
                assert(row_vec.deep_view() =~= self.grid().cells[r as int].subrange(0, 0));
            }
            let mut c: usize = 0;
            while c < src_row.len()
                invariant
                    r < self.cells@.len(),
                    src_row == &self.cells@[r as int],
                    src_row.deep_view() == self.grid().cells[r as int],
                    c <= src_row@.len(),
                    row_vec@.len() == c,
                    row_vec.deep_view() == self.grid().cells[r as int].subrange(0, c as int),
                decreases src_row@.len() - c,
            {
                let ghost pre = row_vec;
                let v = src_row[c].clone();
                proof {
                    assert(src_row.deep_view()[c as int] == src_row@[c as int]@);
                }
                row_vec.push(v);
                proof {
                    lemma_push_deep_view(pre, row_vec, row_vec@[c as int]);
                    assert(self.grid().cells[r as int].subrange(0, c as int).push(
                        self.grid().cells[r as int][c as int],
                    ) =~= self.grid().cells[r as int].subrange(0, c as int + 1));
                }
                c += 1;
            }
            proof {
                assert(row_vec.deep_view() =~= self.grid().cells[r as int]);
            }
            let ghost pre_d = d;
            let ghost rv = row_vec;
            d.push(row_vec);
            proof {
                lemma_push_deep_view(pre_d, d, rv);
                assert(self.grid().cells.subrange(0, r as int).push(
                    self.grid().cells[r as int],
                ) =~= self.grid().cells.subrange(0, r as int + 1));
            }
            r += 1;
        }
        proof {
            assert(d.deep_view() =~= self.grid().cells);
        }
        d
    }
}

impl Default for SmartTable {
    /// Same as [`SmartTable::new`]: an empty table with default options.
    fn default() -> (t: Self)
        ensures
            t.wf(),
            t.grid() == GridView::empty(),
            t.opts == spec_default_opts(),
            t.sel == Selection::spec_none(),
            t.edit == EditState::Idle,
    {
        SmartTable::new()
    }
}

} // verus!
