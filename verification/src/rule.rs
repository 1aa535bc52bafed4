//! The combination rule: what the output holds at a place, given what the
//! two inputs hold there.

use vstd::prelude::*;
use crate::grid::GridView;
use crate::sample::{is_zero, nonzero, numeric_eq, equal, ONE, ZERO};

verus! {

/// The logical OR of two samples. Where either input is missing, that is,
/// numerically equal to its own grid's missing-data sample, the output is the
/// first grid's missing-data sample. Elsewhere it is one if either input
/// differs from zero, and zero if both are zero.
pub open spec fn or_cell(z1: u64, nodata1: u64, z2: u64, nodata2: u64) -> u64 {
    if numeric_eq(z1, nodata1) || numeric_eq(z2, nodata2) {
        nodata1
    } else if !is_zero(z1) || !is_zero(z2) {
        ONE
    } else {
        ZERO
    }
}

/// The rule applied along a row of the first grid.
pub open spec fn or_row(a: Seq<u64>, nodata1: u64, b: Seq<u64>, nodata2: u64) -> Seq<u64> {
    Seq::new(a.len(), |c: int| or_cell(a[c], nodata1, b[c], nodata2))
}

/// The rule applied to every place of two grids: a grid with the shape and
/// the missing-data sample of the first.
pub open spec fn or_grid(a: GridView, b: GridView) -> GridView {
    GridView {
        rows: a.rows,
        columns: a.columns,
        nodata: a.nodata,
        cells: Seq::new(a.rows, |r: int| or_row(a.cells[r], a.nodata, b.cells[r], b.nodata)),
    }
}

/// Wherever either input is missing, `out` holds the first grid's
/// missing-data sample.
pub open spec fn propagates_nodata(a: GridView, b: GridView, out: GridView) -> bool {
    forall|r: int, c: int|
        0 <= r < a.rows && 0 <= c < a.columns && (numeric_eq(a.cell(r, c), a.nodata) || numeric_eq(
            b.cell(r, c),
            b.nodata,
        )) ==> #[trigger] out.cell(r, c) == a.nodata
}

/// Wherever neither input is missing, `out` holds one if either input
/// differs from zero, and zero otherwise.
pub open spec fn combines_truth(a: GridView, b: GridView, out: GridView) -> bool {
    forall|r: int, c: int|
        0 <= r < a.rows && 0 <= c < a.columns && !numeric_eq(a.cell(r, c), a.nodata)
            && !numeric_eq(b.cell(r, c), b.nodata) ==> #[trigger] out.cell(r, c) == if !is_zero(
            a.cell(r, c),
        ) || !is_zero(b.cell(r, c)) {
            ONE
        } else {
            ZERO
        }
}

/// Combines two samples by the rule.
pub fn combine_cell(z1: u64, nodata1: u64, z2: u64, nodata2: u64) -> (out: u64)
    ensures
        out == or_cell(z1, nodata1, z2, nodata2),
{
    if equal(z1, nodata1) || equal(z2, nodata2) {
        nodata1
    } else if nonzero(z1) || nonzero(z2) {
        ONE
    } else {
        ZERO
    }
}

/// The combined grid has the shape and the missing-data sample of the first
/// input, carries missing data over from either input, and holds the truth
/// value of the OR everywhere else.
pub proof fn lemma_or_grid_follows_rule(a: GridView, b: GridView)
    requires
        a.wf(),
        b.wf(),
        a.same_shape(b),
    ensures
        or_grid(a, b).wf(),
        or_grid(a, b).same_shape(a),
        or_grid(a, b).nodata == a.nodata,
        propagates_nodata(a, b, or_grid(a, b)),
        combines_truth(a, b, or_grid(a, b)),
{
}

} // verus!
