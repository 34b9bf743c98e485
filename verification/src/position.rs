//! Buffer positions and visual selections.

use vstd::prelude::*;

verus! {

/// A mark position as the host reports it: buffer number, row, column
/// and offset.
#[derive(Clone, Copy, Debug, PartialEq, Eq, Structural)]
pub struct Position {
    pub buffer: usize,
    pub row: usize,
    pub col: usize,
    pub offset: usize,
}

/// A visual selection whose start never lies after its end.
#[derive(Clone, Copy, Debug, PartialEq, Eq, Structural)]
pub struct VisualSelection {
    pub start_row: usize,
    pub start_col: usize,
    pub end_row: usize,
    pub end_col: usize,
}

/// Orders the two selection marks: the result spans the same two
/// positions, with the earlier one (by row, then column) first.
pub fn normalize_selection(start: &Position, end: &Position) -> (r: VisualSelection)
    ensures
        r.start_row < r.end_row || (r.start_row == r.end_row && r.start_col <= r.end_col),
        (r.start_row == start.row && r.start_col == start.col && r.end_row == end.row
            && r.end_col == end.col) || (r.start_row == end.row && r.start_col == end.col
            && r.end_row == start.row && r.end_col == start.col),
{
    if start.row < end.row || (start.row == end.row && start.col <= end.col) {
        VisualSelection {
            start_row: start.row,
            start_col: start.col,
            end_row: end.row,
            end_col: end.col,
        }
    } else {
        VisualSelection {
            start_row: end.row,
            start_col: end.col,
            end_row: start.row,
            end_col: start.col,
        }
    }
}

} // verus!
