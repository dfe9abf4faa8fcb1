//! The laws of the grid store, stated over the [`GridView`] model that the
//! executable operations' contracts speak of, and proved once for all
//! inputs.

use vstd::prelude::*;

use crate::labels::{col_label, row_label};
use crate::table::GridView;

verus! {

/// Law: a freshly constructed grid of any non-negative shape is
/// well-formed, has exactly the requested row and column counts, every cell
/// reads as empty text, and both header lists carry the default labels.
///
/// `GridView::empty().resized(rows, cols).with_default_headers()` is the
/// model of the grid that construction with options produces (see
/// `SmartTable::new` and `SmartTable::set_opts`).
pub proof fn lemma_fresh_grid_all_empty(rows: int, cols: int)
    requires
        0 <= rows <= i32::MAX,
        0 <= cols <= i32::MAX,
    ensures
        ({
            let g = GridView::empty().resized(rows, cols).with_default_headers();
            &&& g.wf()
            &&& g.rows() == rows
            &&& g.cols() == cols
            &&& g.all_empty()
            &&& forall|i: int| 0 <= i < rows ==> g.row_headers[i] == row_label(i)
            &&& forall|i: int| 0 <= i < cols ==> g.col_headers[i] == col_label(i)
        }),
{
}

/// Law: writing a cell and immediately reading it back yields exactly the
/// written value, for every well-formed grid, every in-bounds cell and
/// every text value; the write also preserves well-formedness and the
/// shape, and touches no other cell.
pub proof fn lemma_set_get_round_trip(g: GridView, row: int, col: int, v: Seq<char>)
    requires
        g.wf(),
        g.in_bounds(row, col),
    ensures
        g.set_cell(row, col, v).cell(row, col) == v,
        g.set_cell(row, col, v).wf(),
        g.set_cell(row, col, v).rows() == g.rows(),
        g.set_cell(row, col, v).cols() == g.cols(),
        forall|r: int, c: int|
            g.in_bounds(r, c) && (r, c) != (row, col) ==> g.set_cell(row, col, v).cell(r, c)
                == #[trigger] g.cell(r, c),
{
}

/// Law (no lost update): two writes to distinct cells never interfere.
/// Whatever order the grid store serializes them in, both values are in the
/// grid afterwards, and both orders produce the same grid.
pub proof fn lemma_disjoint_writes_no_lost_update(
    g: GridView,
    r1: int,
    c1: int,
    v1: Seq<char>,
    r2: int,
    c2: int,
    v2: Seq<char>,
)
    requires
        g.wf(),
        g.in_bounds(r1, c1),
        g.in_bounds(r2, c2),
        (r1, c1) != (r2, c2),
    ensures
        g.set_cell(r1, c1, v1).set_cell(r2, c2, v2).cell(r1, c1) == v1,
        g.set_cell(r1, c1, v1).set_cell(r2, c2, v2).cell(r2, c2) == v2,
        g.set_cell(r1, c1, v1).set_cell(r2, c2, v2) == g.set_cell(r2, c2, v2).set_cell(
            r1,
            c1,
            v1,
        ),
{
    let a = g.set_cell(r1, c1, v1).set_cell(r2, c2, v2);
    let b = g.set_cell(r2, c2, v2).set_cell(r1, c1, v1);
    if r1 == r2 {
        assert(a.cells[r1] =~= b.cells[r1]);
        assert(a.cells =~= b.cells);
    } else {
        assert(a.cells =~= b.cells);
    }
    assert(a =~~= b);
}

/// Law: inserting a row (with a matching number of values and its header
/// label) keeps the grid rectangular and the header lists in step: the row
/// count and the row-header list grow by one together, the column count is
/// unchanged, and every row still has `cols()` cells.
pub proof fn lemma_insert_row_shape(g: GridView, at: int, header: Seq<char>, vals: Seq<Seq<char>>)
    requires
        g.wf(),
        0 <= at <= g.rows(),
        vals.len() == g.cols(),
        g.rows() < i32::MAX,
    ensures
        g.insert_row(at, header, vals).wf(),
        g.insert_row(at, header, vals).rows() == g.rows() + 1,
        g.insert_row(at, header, vals).cols() == g.cols(),
{
    let post = g.insert_row(at, header, vals);
    g.cells.insert_ensures(at, vals);
    g.row_headers.insert_ensures(at, header);
    assert forall|r: int| 0 <= r < post.cells.len() implies (#[trigger] post.cells[r]).len()
        == post.col_headers.len() by {
        if r < at {
            assert(post.cells[r] == g.cells[r]);
        } else if r == at {
            assert(post.cells[r] == vals);
        } else {
            assert(post.cells[r] == g.cells[r - 1]);
        }
    }
}

/// Law: removing a row removes its header label in the same operation: the
/// row count and the row-header list shrink by one together, the column
/// count is unchanged, and every remaining row still has `cols()` cells.
pub proof fn lemma_remove_row_shape(g: GridView, at: int)
    requires
        g.wf(),
        0 <= at < g.rows(),
    ensures
        g.remove_row(at).wf(),
        g.remove_row(at).rows() == g.rows() - 1,
        g.remove_row(at).cols() == g.cols(),
{
    let post = g.remove_row(at);
    g.cells.remove_ensures(at);
    g.row_headers.remove_ensures(at);
    assert forall|r: int| 0 <= r < post.cells.len() implies (#[trigger] post.cells[r]).len()
        == post.col_headers.len() by {
        if r < at {
            assert(post.cells[r] == g.cells[r]);
        } else {
            assert(post.cells[r] == g.cells[r + 1]);
        }
    }
}

/// Law: inserting a column (with one value per row and its header label)
/// keeps the grid rectangular and the header lists in step: the row count
/// is unchanged, the column count and the column-header list grow by one
/// together, and every row has `cols() + 1` cells afterwards.
pub proof fn lemma_insert_col_shape(g: GridView, at: int, header: Seq<char>, vals: Seq<Seq<char>>)
    requires
        g.wf(),
        0 <= at <= g.cols(),
        vals.len() == g.rows(),
        g.cols() < i32::MAX,
    ensures
        g.insert_col(at, header, vals).wf(),
        g.insert_col(at, header, vals).rows() == g.rows(),
        g.insert_col(at, header, vals).cols() == g.cols() + 1,
{
    let post = g.insert_col(at, header, vals);
    g.col_headers.insert_ensures(at, header);
    assert forall|r: int| 0 <= r < post.cells.len() implies (#[trigger] post.cells[r]).len()
        == post.col_headers.len() by {
        g.cells[r].insert_ensures(at, vals[r]);
    }
}

/// Law: removing a column removes its header label in the same operation:
/// the row count is unchanged, the column count and the column-header list
/// shrink by one together, and every row has `cols() - 1` cells afterwards.
pub proof fn lemma_remove_col_shape(g: GridView, at: int)
    requires
        g.wf(),
        0 <= at < g.cols(),
    ensures
        g.remove_col(at).wf(),
        g.remove_col(at).rows() == g.rows(),
        g.remove_col(at).cols() == g.cols() - 1,
{
    let post = g.remove_col(at);
    g.col_headers.remove_ensures(at);
    assert forall|r: int| 0 <= r < post.cells.len() implies (#[trigger] post.cells[r]).len()
        == post.col_headers.len() by {
        g.cells[r].remove_ensures(at);
    }
}

/// Law: clearing a grid empties every cell while leaving the shape and
/// both header lists untouched.
pub proof fn lemma_cleared_all_empty(g: GridView)
    requires
        g.wf(),
    ensures
        g.cleared().wf(),
        g.cleared().rows() == g.rows(),
        g.cleared().cols() == g.cols(),
        g.cleared().all_empty(),
        g.cleared().row_headers == g.row_headers,
        g.cleared().col_headers == g.col_headers,
{
}

} // verus!
