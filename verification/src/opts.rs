//! Construction-time options for the table.
//!
//! The styling fields carry the host toolkit's plain numeric codes (palette
//! or RGB color codes, font and alignment codes, frame-type codes); the core
//! never interprets them beyond choosing between them, and the GUI layer
//! converts them to the toolkit's own types.

use vstd::prelude::*;

verus! {

/// Toolkit color code of the default cell background (the palette entry used
/// inside input and text widgets).
pub const DEFAULT_CELL_COLOR: u32 = 7;

/// Toolkit color code of the default cell text and cell border color (the
/// darkest gray-ramp palette entry).
pub const DEFAULT_CELL_FONT_COLOR: u32 = 32;

/// Color code of the default selection background: light gray, RGB
/// `0xD3D3D3` in the toolkit's RGB color encoding.
pub const DEFAULT_CELL_SELECTION_COLOR: u32 = 0xD3D3_D300;

/// Toolkit color code of the default header background (the frame default
/// palette entry).
pub const DEFAULT_HEADER_COLOR: u32 = 49;

/// Toolkit color code of the default header text color (black).
pub const DEFAULT_HEADER_FONT_COLOR: u32 = 56;

/// Toolkit font code of the default (Helvetica) font.
pub const DEFAULT_FONT: i32 = 0;

/// Default font size for cells and headers.
pub const DEFAULT_FONT_SIZE: i32 = 14;

/// Toolkit alignment code for centered text.
pub const ALIGN_CENTER: i32 = 0;

/// Toolkit frame-type code of the default header frame (thin up box).
pub const DEFAULT_HEADER_FRAME: i32 = 6;

/// Contains the parameters for the table, including rows, columns and other
/// styling params. Captured once at construction; the draw dispatcher reuses
/// the same snapshot on every paint request.
#[derive(Clone, Copy, Debug, PartialEq, Eq, Structural)]
pub struct TableOpts {
    pub rows: i32,
    pub cols: i32,
    pub editable: bool,
    pub cell_color: u32,
    pub cell_font: i32,
    pub cell_font_color: u32,
    pub cell_font_size: i32,
    pub cell_selection_color: u32,
    pub cell_align: i32,
    pub cell_border_color: u32,
    pub cell_padding: i32,
    pub header_font: i32,
    pub header_frame: i32,
    pub header_color: u32,
    pub header_font_color: u32,
    pub header_font_size: i32,
    pub header_align: i32,
}

/// The default options: a 1x1 non-editable table with the standard styling.
pub open spec fn spec_default_opts() -> TableOpts {
    TableOpts {
        rows: 1,
        cols: 1,
        editable: false,
        cell_color: DEFAULT_CELL_COLOR,
        cell_font: DEFAULT_FONT,
        cell_font_color: DEFAULT_CELL_FONT_COLOR,
        cell_font_size: DEFAULT_FONT_SIZE,
        cell_selection_color: DEFAULT_CELL_SELECTION_COLOR,
        cell_align: ALIGN_CENTER,
        cell_border_color: DEFAULT_CELL_FONT_COLOR,
        cell_padding: 1,
        header_font: DEFAULT_FONT,
        header_frame: DEFAULT_HEADER_FRAME,
        header_color: DEFAULT_HEADER_COLOR,
        header_font_color: DEFAULT_HEADER_FONT_COLOR,
        header_font_size: DEFAULT_FONT_SIZE,
        header_align: ALIGN_CENTER,
    }
}

impl Default for TableOpts {
    fn default() -> (r: Self)
        ensures
            r == spec_default_opts(),
    {
        TableOpts {
            rows: 1,
            cols: 1,
            editable: false,
            cell_color: DEFAULT_CELL_COLOR,
            cell_font: DEFAULT_FONT,
            cell_font_color: DEFAULT_CELL_FONT_COLOR,
            cell_font_size: DEFAULT_FONT_SIZE,
            cell_selection_color: DEFAULT_CELL_SELECTION_COLOR,
            cell_align: ALIGN_CENTER,
            cell_border_color: DEFAULT_CELL_FONT_COLOR,
            cell_padding: 1,
            header_font: DEFAULT_FONT,
            header_frame: DEFAULT_HEADER_FRAME,
            header_color: DEFAULT_HEADER_COLOR,
            header_font_color: DEFAULT_HEADER_FONT_COLOR,
            header_font_size: DEFAULT_FONT_SIZE,
            header_align: ALIGN_CENTER,
        }
    }
}

} // verus!
