//! The cell draw dispatcher.
//!
//! The host toolkit repaints the table by issuing one paint request per
//! visible region. The dispatcher translates each request into a
//! [`DrawPlan`]: which text to render, in which rectangle, with which of the
//! captured style options. The GUI layer replays the plan with the
//! toolkit's drawing primitives; the dispatcher itself never draws.
//!
//! Painting a data cell that the toolkit reports as selected also records
//! that cell's indices and rectangle in the selection state, since the
//! toolkit's "is this cell selected" query is only answerable during a
//! paint pass; the edit coordinator later reads that record.
//!
//! A header or cell request whose index lies outside the current dimensions
//! degrades to [`DrawPlan::Skip`] (render nothing) rather than failing:
//! header lists and toolkit-reported dimensions can transiently diverge
//! while a concurrent writer resizes the grid.

use vstd::prelude::*;

use crate::opts::{DEFAULT_FONT, DEFAULT_FONT_SIZE, TableOpts};
use crate::table::SmartTable;
use crate::edit::Selection;

verus! {

/// A paint request from the host toolkit: the semantic region tag plus the
/// indices and destination rectangle it carries.
#[derive(Clone, Copy, Debug, PartialEq, Eq, Structural)]
pub enum PaintContext {
    /// Issued once before any cell paints; resets the default font.
    StartPage,
    /// A column-header band at column `col`.
    ColHeader { col: i32, x: i32, y: i32, w: i32, h: i32 },
    /// A row-header band at row `row`.
    RowHeader { row: i32, x: i32, y: i32, w: i32, h: i32 },
    /// A data cell, with the toolkit's answer to its own selection query.
    Cell { row: i32, col: i32, x: i32, y: i32, w: i32, h: i32, selected: bool },
    /// Any other region tag; nothing is drawn for it.
    Other,
}

/// What the GUI layer must render for one paint request.
#[derive(Clone, Debug)]
pub enum DrawPlan {
    /// Render nothing.
    Skip,
    /// Set the default font and size.
    DefaultFont { font: i32, size: i32 },
    /// A header band: clip to the rectangle, draw the frame in `color`,
    /// then the text in the header font, color, size and alignment.
    Header {
        text: String,
        x: i32,
        y: i32,
        w: i32,
        h: i32,
        frame: i32,
        color: u32,
        font: i32,
        font_color: u32,
        font_size: i32,
        align: i32,
    },
    /// A data cell: clip to the rectangle, fill it with `fill_color`, draw
    /// the text in the cell font, color, size and alignment with `padding`
    /// subtracted from both horizontal sides, then the border.
    Cell {
        text: String,
        x: i32,
        y: i32,
        w: i32,
        h: i32,
        fill_color: u32,
        font: i32,
        font_color: u32,
        font_size: i32,
        align: i32,
        border_color: u32,
        padding: i32,
    },
}

/// `p` renders the header text `txt` in the rectangle `(x, y, w, h)` with
/// the header styling of `opts`.
pub open spec fn header_plan(
    p: DrawPlan,
    txt: Seq<char>,
    x: i32,
    y: i32,
    w: i32,
    h: i32,
    opts: TableOpts,
) -> bool {
    &&& p matches DrawPlan::Header {
        text,
        x: px,
        y: py,
        w: pw,
        h: ph,
        frame,
        color,
        font,
        font_color,
        font_size,
        align,
    }
    &&& text@ == txt
    &&& px == x
    &&& py == y
    &&& pw == w
    &&& ph == h
    &&& frame == opts.header_frame
    &&& color == opts.header_color
    &&& font == opts.header_font
    &&& font_color == opts.header_font_color
    &&& font_size == opts.header_font_size
    &&& align == opts.header_align
}

/// `p` renders the cell text `txt` in the rectangle `(x, y, w, h)` with the
/// cell styling of `opts`, filled with the selection color exactly when
/// `selected`.
pub open spec fn cell_plan(
    p: DrawPlan,
    txt: Seq<char>,
    x: i32,
    y: i32,
    w: i32,
    h: i32,
    selected: bool,
    opts: TableOpts,
) -> bool {
    &&& p matches DrawPlan::Cell {
        text,
        x: px,
        y: py,
        w: pw,
        h: ph,
        fill_color,
        font,
        font_color,
        font_size,
        align,
        border_color,
        padding,
    }
    &&& text@ == txt
    &&& px == x
    &&& py == y
    &&& pw == w
    &&& ph == h
    &&& fill_color == (if selected {
        opts.cell_selection_color
    } else {
        opts.cell_color
    })
    &&& font == opts.cell_font
    &&& font_color == opts.cell_font_color
    &&& font_size == opts.cell_font_size
    &&& align == opts.cell_align
    &&& border_color == opts.cell_border_color
    &&& padding == opts.cell_padding
}

impl SmartTable {
    /// Build the plan for one header band.
    pub fn draw_header(txt: &str, x: i32, y: i32, w: i32, h: i32, opts: &TableOpts) -> (p:
        DrawPlan)
        ensures
            header_plan(p, txt@, x, y, w, h, *opts),
    {
        DrawPlan::Header {
            text: txt.to_owned(),
            x,
            y,
            w,
            h,
            frame: opts.header_frame,
            color: opts.header_color,
            font: opts.header_font,
            font_color: opts.header_font_color,
            font_size: opts.header_font_size,
            align: opts.header_align,
        }
    }

    /// Build the plan for one data cell. The selected flag switches the
    /// fill color from the base cell color to the selection color.
    pub fn draw_data(txt: &str, x: i32, y: i32, w: i32, h: i32, selected: bool, opts: &TableOpts)
        -> (p: DrawPlan)
        ensures
            cell_plan(p, txt@, x, y, w, h, selected, *opts),
    {
        DrawPlan::Cell {
            text: txt.to_owned(),
            x,
            y,
            w,
            h,
            fill_color: if selected {
                opts.cell_selection_color
            } else {
                opts.cell_color
            },
            font: opts.cell_font,
            font_color: opts.cell_font_color,
            font_size: opts.cell_font_size,
            align: opts.cell_align,
            border_color: opts.cell_border_color,
            padding: opts.cell_padding,
        }
    }

    /// Dispatch one paint request: look up the text the region shows and
    /// return the plan for it, recording the selection when a data cell is
    /// painted as selected. The grid data, options and edit state are never
    /// changed, and an out-of-range index yields [`DrawPlan::Skip`].
    pub fn draw_cell(&mut self, ctx: &PaintContext) -> (p: DrawPlan)
        requires
            old(self).wf(),
        ensures
            final(self).wf(),
            final(self).grid() == old(self).grid(),
            final(self).opts == old(self).opts,
            final(self).edit == old(self).edit,
            match *ctx {
                PaintContext::StartPage => final(self).sel == old(self).sel && p
                    == (DrawPlan::DefaultFont { font: DEFAULT_FONT, size: DEFAULT_FONT_SIZE }),
                PaintContext::ColHeader { col, x, y, w, h } => final(self).sel == old(self).sel
                    && if 0 <= col < old(self).grid().cols() {
                    header_plan(
                        p,
                        old(self).grid().col_headers[col as int],
                        x,
                        y,
                        w,
                        h,
                        old(self).opts,
                    )
                } else {
                    p is Skip
                },
                PaintContext::RowHeader { row, x, y, w, h } => final(self).sel == old(self).sel
                    && if 0 <= row < old(self).grid().rows() {
                    header_plan(
                        p,
                        old(self).grid().row_headers[row as int],
                        x,
                        y,
                        w,
                        h,
                        old(self).opts,
                    )
                } else {
                    p is Skip
                },
                PaintContext::Cell { row, col, x, y, w, h, selected } => {
                    if old(self).grid().in_bounds(row as int, col as int) {
                        &&& cell_plan(
                            p,
                            old(self).grid().cell(row as int, col as int),
                            x,
                            y,
                            w,
                            h,
                            selected,
                            old(self).opts,
                        )
                        &&& selected ==> final(self).sel == (Selection {
                            valid: true,
                            row,
                            col,
                            x,
                            y,
                            w,
                            h,
                        })
                        &&& !selected ==> final(self).sel == old(self).sel
                    } else {
                        p is Skip && final(self).sel == old(self).sel
                    }
                },
                PaintContext::Other => final(self).sel == old(self).sel && p is Skip,
            },
    {
        match *ctx {
            PaintContext::StartPage => DrawPlan::DefaultFont {
                font: DEFAULT_FONT,
                size: DEFAULT_FONT_SIZE,
            },
            PaintContext::ColHeader { col, x, y, w, h } => {
                if col < 0 {
                    return DrawPlan::Skip;
                }
                let cu = col as usize;
                if cu >= self.col_headers.len() {
                    return DrawPlan::Skip;
                }
                let txt = &self.col_headers[cu];
                proof {
                    assert(txt@ == self.col_headers.deep_view()[cu as int]);
                }
                Self::draw_header(txt.as_str(), x, y, w, h, &self.opts)
            },
            PaintContext::RowHeader { row, x, y, w, h } => {
                if row < 0 {
                    return DrawPlan::Skip;
                }
                let ru = row as usize;
                if ru >= self.row_headers.len() {
                    return DrawPlan::Skip;
                }
                let txt = &self.row_headers[ru];
                proof {
                    assert(txt@ == self.row_headers.deep_view()[ru as int]);
                }
                Self::draw_header(txt.as_str(), x, y, w, h, &self.opts)
            },
            PaintContext::Cell { row, col, x, y, w, h, selected } => {
                if row < 0 || col < 0 {
                    return DrawPlan::Skip;
                }
                let ru = row as usize;
                let cu = col as usize;
                if ru >= self.cells.len() {
                    return DrawPlan::Skip;
                }
                proof {
                    assert(self.grid().cells[ru as int].len() == self.grid().cols());
                    assert(self.grid().cells[ru as int] == self.cells@[ru as int].deep_view());
                }
                if cu >= self.col_headers.len() {
                    return DrawPlan::Skip;
                }
                if selected {
                    // Capture the cell information for the edit coordinator.
                    self.sel.select(row, col, x, y, w, h);
                }
                let row_vec = &self.cells[ru];
                let txt = &row_vec[cu];
                proof {
                    assert(txt@ == row_vec.deep_view()[cu as int]);
                }
                Self::draw_data(txt.as_str(), x, y, w, h, selected, &self.opts)
            },
            PaintContext::Other => DrawPlan::Skip,
        }
    }
}

} // verus!
