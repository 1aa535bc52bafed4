//! What one worker does: it turns each row of its block into a row result.

use vstd::prelude::*;
use crate::grid::{Grid, GridView};
use crate::rule::{combine_cell, or_cell, or_row};

verus! {

/// One finished row of the output, and where it belongs.
#[derive(Debug, PartialEq, Eq)]
pub struct RowResult {
    pub row_index: usize,
    pub values: Vec<u64>,
}

/// A row result as mathematics.
pub struct RowResultView {
    pub row_index: nat,
    pub values: Seq<u64>,
}

impl View for RowResult {
    type V = RowResultView;

    open spec fn view(&self) -> RowResultView {
        RowResultView { row_index: self.row_index as nat, values: self.values@ }
    }
}

/// The result that is due for the given row of two grids.
pub open spec fn row_result(a: GridView, b: GridView, row: nat) -> RowResultView {
    RowResultView {
        row_index: row,
        values: or_row(a.cells[row as int], a.nodata, b.cells[row as int], b.nodata),
    }
}

/// Combines one row of two grids of the same shape.
pub fn compute_row(a: &Grid, b: &Grid, row: usize) -> (result: RowResult)
    requires
        a.wf(),
        b.wf(),
        a@.same_shape(b@),
        row < a@.rows,
    ensures
        result@ == row_result(a@, b@, row as nat),
{
    let columns = a.columns();
    let nodata1 = a.nodata();
    let nodata2 = b.nodata();
    let first = a.row(row).unwrap();
    let second = b.row(row).unwrap();
    let mut values: Vec<u64> = Vec::new();
    let mut col: usize = 0;
    while col < columns
        invariant
            col <= columns,
            first@.len() == columns,
            second@.len() == columns,
            values@.len() == col,
            forall|c: int|
                0 <= c < col ==> #[trigger] values@[c] == or_cell(
                    first@[c],
                    nodata1,
                    second@[c],
                    nodata2,
                ),
        decreases columns - col,
    {
        values.push(combine_cell(first[col], nodata1, second[col], nodata2));
        col = col + 1;
    }
    assert(values@ =~= or_row(first@, nodata1, second@, nodata2));
    RowResult { row_index: row, values }
}

} // verus!
