//! Layout constants of the analyzer.
use vstd::prelude::*;

verus! {

/// Largest number of key rows a geometry may have.
pub const MAX_ROW: usize = 6;

/// Smallest number of key rows a geometry may have: the thumb row and the
/// three letter rows.
pub const MIN_ROW: usize = 4;

/// Number of grid cells in a row: 20 key widths of 4 cells each.
pub const MAX_COL_CELLS: usize = 80;

/// The cell at the middle of a row, between the two hands.
pub const MIDDLE_CELL: usize = 40;

/// Grid cells per key width unit (1u = 4 cells).
pub const U2CELL: usize = 4;

/// Narrowest width of an optimized key, in cells.
pub const MIN_WIDTH_CELLS: usize = 4;

/// Widest width of an optimized key, in cells.
pub const MAX_WIDTH_CELLS: usize = 12;

/// Largest digit key.
pub const MAX_DIGIT: u8 = 9;

/// Largest numeric keypad digit key.
pub const MAX_NUMPAD_DIGIT: u8 = 9;

/// Number of function keys placed when they are optimized.
pub const DEFAULT_FKEYS_MAX: u8 = 12;

/// Expected header of the key column of a frequency file.
pub const EXPECTED_KEY_HEADER: &'static str = "Key";

/// Expected header of the count column of a frequency file.
pub const EXPECTED_COUNT_HEADER: &'static str = "Count";

/// Name of the row-staggered geometry.
pub const ROW_STAGGER: &'static str = "row-stagger";

/// Name of the ortholinear geometry.
pub const ORTHO: &'static str = "ortho";

/// Name of the column-staggered geometry.
pub const COLUMN_STAGGER: &'static str = "column-stagger";

} // verus!
