//! The result collector: takes row results in whatever order they arrive and
//! writes each into the output grid at its own row, once.

use vstd::prelude::*;
use crate::grid::{Grid, GridView};
use crate::worker::{RowResult, RowResultView};

verus! {

/// Why the collector refused a row result.
#[derive(Debug, Clone, Copy, PartialEq, Eq, Structural)]
pub enum Rejection {
    /// The output grid has no row of that index.
    RowOutOfRange,
    /// The result does not hold one sample for each column.
    WrongLength,
    /// That row of the output has been written before.
    AlreadyWritten,
}

/// The number of rows marked as written.
pub open spec fn written_count(written: Seq<bool>) -> nat
    decreases written.len(),
{
    if written.len() == 0 {
        0
    } else {
        written_count(written.drop_last()) + if written.last() {
            1nat
        } else {
            0nat
        }
    }
}

/// What a collector is, as mathematics: the output as far as it has been
/// written, a mark for each row that says whether it has been written, and
/// the number of results taken so far.
pub struct CollectorView {
    pub output: GridView,
    pub written: Seq<bool>,
    pub received: nat,
}

impl CollectorView {
    /// There is a mark for each row of the output, and as many results were
    /// taken as rows are marked.
    pub open spec fn wf(self) -> bool {
        &&& self.output.wf()
        &&& self.written.len() == self.output.rows
        &&& self.received == written_count(self.written)
    }

    /// The collector before any result has arrived: a blank output with the
    /// shape and the missing-data sample of `template`, no row marked.
    pub open spec fn start(template: GridView) -> CollectorView {
        CollectorView {
            output: GridView::blank(template.rows, template.columns, template.nodata),
            written: Seq::new(template.rows, |r: int| false),
            received: 0,
        }
    }

    /// Why the result would be refused, if it would be.
    pub open spec fn rejection(self, result: RowResultView) -> Option<Rejection> {
        if result.row_index >= self.output.rows {
            Some(Rejection::RowOutOfRange)
        } else if result.values.len() != self.output.columns {
            Some(Rejection::WrongLength)
        } else if self.written[result.row_index as int] {
            Some(Rejection::AlreadyWritten)
        } else {
            None
        }
    }

    /// The result is for a row of the output that has not been written, and
    /// it has one sample for each column.
    pub open spec fn accepts(self, result: RowResultView) -> bool {
        self.rejection(result) is None
    }

    /// The collector after it has taken the result.
    pub open spec fn accept(self, result: RowResultView) -> CollectorView {
        CollectorView {
            output: self.output.with_row(result.row_index as int, result.values),
            written: self.written.update(result.row_index as int, true),
            received: self.received + 1,
        }
    }

    /// As many results were taken as the output has rows.
    pub open spec fn complete(self) -> bool {
        self.received == self.output.rows
    }

    /// The collector after the given results have arrived one after the
    /// other. A result that the collector refuses leaves it as it was.
    pub open spec fn after(self, arrivals: Seq<RowResultView>) -> CollectorView
        decreases arrivals.len(),
    {
        if arrivals.len() == 0 {
            self
        } else {
            let before = self.after(arrivals.drop_last());
            if before.accepts(arrivals.last()) {
                before.accept(arrivals.last())
            } else {
                before
            }
        }
    }
}

/// The output grid under construction, with the record of which of its rows
/// have been written.
pub struct Collector {
    output: Grid,
    written: Vec<bool>,
    received: usize,
}

impl View for Collector {
    type V = CollectorView;

    closed spec fn view(&self) -> CollectorView {
        CollectorView {
            output: self.output@,
            written: self.written@,
            received: self.received as nat,
        }
    }
}

impl Collector {
    /// The record agrees with the output. Every collector that this module
    /// hands out is well formed.
    pub open spec fn wf(&self) -> bool {
        self@.wf()
    }

    /// A collector for an output shaped like `template`, with no row written.
    pub fn new(template: &Grid) -> (collector: Collector)
        ensures
            collector.wf(),
            collector@ == CollectorView::start(template@),
    {
        let rows = template.rows();
        let output = Grid::like(template);
        let mut written: Vec<bool> = Vec::new();
        let mut r: usize = 0;
        while r < rows
            invariant
                r <= rows,
                written@ == Seq::new(r as nat, |k: int| false),
                written_count(written@) == 0,
            decreases rows - r,
        {
            let ghost before = written@;
            written.push(false);
            r = r + 1;
            assert(written@.drop_last() =~= before);
            assert(written@ =~= Seq::new(r as nat, |k: int| false));
        }
        Collector { output, written, received: 0 }
    }

    /// Takes one row result. If the output has that row, the row has not
    /// been written yet and the result has one sample for each column, the
    /// row is written and marked. Otherwise the collector stays as it was and
    /// the reason comes back.
    pub fn accept(&mut self, result: RowResult) -> (outcome: Result<(), Rejection>)
        requires
            old(self).wf(),
        ensures
            final(self).wf(),
            match outcome {
                Ok(_) => old(self)@.accepts(result@) && final(self)@ == old(self)@.accept(
                    result@,
                ),
                Err(reason) => old(self)@.rejection(result@) == Some(reason) && final(self)@
                    == old(self)@,
            },
    {
        let row = result.row_index;
        if row >= self.output.rows() {
            return Err(Rejection::RowOutOfRange);
        }
        if result.values.len() != self.output.columns() {
            return Err(Rejection::WrongLength);
        }
        if self.written[row] {
            return Err(Rejection::AlreadyWritten);
        }
        proof {
            lemma_accept_keeps_wf(self@, result@);
        }
        let ghost before = self@;
        let RowResult { row_index, values } = result;
        let done = self.output.set_row(row, values);
        self.written.set(row, true);
        self.received = self.received + 1;
        assert(self@ == before.accept(result@));
        Ok(())
    }

    /// The number of results taken so far.
    pub fn received(&self) -> (n: usize)
        ensures
            n == self@.received,
    {
        self.received
    }

    /// The number of results still to come.
    pub fn remaining(&self) -> (n: usize)
        requires
            self.wf(),
        ensures
            n == self@.output.rows - self@.received,
    {
        proof {
            lemma_written_count_bounds(self@.written);
        }
        self.output.rows() - self.received
    }

    /// Tells whether every row of the output has been written.
    pub fn is_complete(&self) -> (complete: bool)
        requires
            self.wf(),
        ensures
            complete == self@.complete(),
            complete <==> forall|r: int| 0 <= r < self@.output.rows ==> self@.written[r],
    {
        proof {
            lemma_complete_means_every_row_written(self@);
        }
        self.received == self.output.rows()
    }

    /// Hands over the output, once every row of it has been written.
    pub fn finish(self) -> (grid: Grid)
        requires
            self.wf(),
            self@.complete(),
        ensures
            grid.wf(),
            grid@ == self@.output,
    {
        self.output
    }
}

/// No more rows are marked than there are, and all are marked exactly when
/// the count says so.
pub proof fn lemma_written_count_bounds(written: Seq<bool>)
    ensures
        written_count(written) <= written.len(),
        written_count(written) == written.len() <==> forall|r: int|
            0 <= r < written.len() ==> written[r],
    decreases written.len(),
{
    if written.len() > 0 {
        let front = written.drop_last();
        lemma_written_count_bounds(front);
        assert forall|r: int| 0 <= r < front.len() implies front[r] == written[r] by {}
        if written_count(written) == written.len() {
            assert(written_count(front) == front.len());
            assert(written.last());
            assert forall|r: int| 0 <= r < written.len() implies written[r] by {
                if r < front.len() {
                    assert(front[r]);
                }
            }
        }
        if forall|r: int| 0 <= r < written.len() ==> written[r] {
            assert(written[written.len() - 1]);
            assert forall|r: int| 0 <= r < front.len() implies front[r] by {
                assert(written[r]);
            }
        }
    }
}

/// Where no row is marked, the count is zero.
proof fn lemma_unmarked_rows_count_nothing(written: Seq<bool>)
    requires
        forall|r: int| 0 <= r < written.len() ==> !written[r],
    ensures
        written_count(written) == 0,
    decreases written.len(),
{
    if written.len() > 0 {
        lemma_unmarked_rows_count_nothing(written.drop_last());
    }
}

/// Marking a row that was not marked raises the count by one.
pub proof fn lemma_written_count_grows(written: Seq<bool>, row: int)
    requires
        0 <= row < written.len(),
        !written[row],
    ensures
        written_count(written.update(row, true)) == written_count(written) + 1,
    decreases written.len(),
{
    let marked = written.update(row, true);
    if row == written.len() - 1 {
        assert(marked.drop_last() =~= written.drop_last());
    } else {
        lemma_written_count_grows(written.drop_last(), row);
        assert(marked.drop_last() =~= written.drop_last().update(row, true));
    }
}

/// Taking a result that it accepts keeps a collector well formed.
pub proof fn lemma_accept_keeps_wf(before: CollectorView, result: RowResultView)
    requires
        before.wf(),
        before.accepts(result),
    ensures
        before.accept(result).wf(),
        before.received < before.output.rows,
{
    lemma_written_count_grows(before.written, result.row_index as int);
    lemma_written_count_bounds(before.written);
}

/// A collector is complete exactly when every row of its output has been
/// written.
pub proof fn lemma_complete_means_every_row_written(collector: CollectorView)
    requires
        collector.wf(),
    ensures
        collector.complete() <==> forall|r: int|
            0 <= r < collector.output.rows ==> collector.written[r],
{
    lemma_written_count_bounds(collector.written);
}

/// A collector is well formed before anything has arrived.
pub proof fn lemma_start_is_wf(template: GridView)
    ensures
        CollectorView::start(template).wf(),
{
    lemma_unmarked_rows_count_nothing(CollectorView::start(template).written);
}

/// Arrivals keep a collector well formed, and the shape and the missing-data
/// sample of its output as they were.
pub proof fn lemma_after_keeps_shape(before: CollectorView, arrivals: Seq<RowResultView>)
    requires
        before.wf(),
    ensures
        before.after(arrivals).wf(),
        before.after(arrivals).output.same_shape(before.output),
        before.after(arrivals).output.nodata == before.output.nodata,
    decreases arrivals.len(),
{
    if arrivals.len() > 0 {
        lemma_after_keeps_shape(before, arrivals.drop_last());
        let mid = before.after(arrivals.drop_last());
        if mid.accepts(arrivals.last()) {
            lemma_accept_keeps_wf(mid, arrivals.last());
        }
    }
}

/// Arrivals may be taken in two batches as well as in one.
pub proof fn lemma_after_in_two_batches(
    before: CollectorView,
    first: Seq<RowResultView>,
    second: Seq<RowResultView>,
)
    ensures
        before.after(first + second) == before.after(first).after(second),
    decreases second.len(),
{
    if second.len() == 0 {
        assert(first + second =~= first);
    } else {
        lemma_after_in_two_batches(before, first, second.drop_last());
        assert((first + second).drop_last() =~= first + second.drop_last());
        assert((first + second).last() == second.last());
    }
}

/// The arrivals are for rows of a grid with `rows_due.len()` rows, no two of
/// them for the same row, and each carries the row that is due at its index.
pub open spec fn arrives_once_each(arrivals: Seq<RowResultView>, rows_due: Seq<Seq<u64>>) -> bool {
    &&& forall|i: int|
        0 <= i < arrivals.len() ==> (#[trigger] arrivals[i]).row_index < rows_due.len()
            && arrivals[i].values == rows_due[arrivals[i].row_index as int]
    &&& forall|i: int, j: int|
        0 <= i < j < arrivals.len() ==> (#[trigger] arrivals[i]).row_index
            != (#[trigger] arrivals[j]).row_index
}

/// Some arrival is for the given row.
pub open spec fn arrived(arrivals: Seq<RowResultView>, row: int) -> bool {
    exists|i: int| 0 <= i < arrivals.len() && (#[trigger] arrivals[i]).row_index == row
}

/// A collector that has been sent results for distinct rows has taken every
/// one of them, has marked exactly the rows that arrived, and holds under
/// each mark the row that was due there.
pub proof fn lemma_distinct_arrivals_are_taken(
    template: GridView,
    rows_due: Seq<Seq<u64>>,
    arrivals: Seq<RowResultView>,
)
    requires
        rows_due.len() == template.rows,
        forall|r: int| 0 <= r < rows_due.len() ==> (#[trigger] rows_due[r]).len() == template.columns,
        arrives_once_each(arrivals, rows_due),
    ensures
        CollectorView::start(template).after(arrivals).wf(),
        CollectorView::start(template).after(arrivals).received == arrivals.len(),
        CollectorView::start(template).after(arrivals).output.same_shape(template),
        CollectorView::start(template).after(arrivals).output.nodata == template.nodata,
        forall|r: int|
            0 <= r < template.rows ==> (#[trigger] CollectorView::start(template).after(
                arrivals,
            ).written[r] <==> arrived(arrivals, r)),
        forall|r: int|
            0 <= r < template.rows && #[trigger] CollectorView::start(template).after(
                arrivals,
            ).written[r] ==> CollectorView::start(template).after(arrivals).output.cells[r]
                == rows_due[r],
    decreases arrivals.len(),
{
    let start = CollectorView::start(template);
    if arrivals.len() == 0 {
        lemma_unmarked_rows_count_nothing(start.written);
    } else {
        let front = arrivals.drop_last();
        let last = arrivals.last();
        assert forall|i: int| 0 <= i < front.len() implies front[i] == arrivals[i] by {}
        lemma_distinct_arrivals_are_taken(template, rows_due, front);
        let mid = start.after(front);
        let row = last.row_index as int;
        assert(arrivals[arrivals.len() - 1] == last);
        if mid.written[row] {
            assert(arrived(front, row));
            let i = choose|i: int| 0 <= i < front.len() && (#[trigger] front[i]).row_index == row;
            assert(arrivals[i].row_index == arrivals[arrivals.len() - 1].row_index);
        }
        assert(mid.accepts(last));
        lemma_accept_keeps_wf(mid, last);
        let end = mid.accept(last);
        assert(end == start.after(arrivals));
        assert forall|r: int| 0 <= r < template.rows implies (#[trigger] end.written[r]
            <==> arrived(arrivals, r)) by {
            if r == row {
                assert(arrivals[arrivals.len() - 1].row_index == r);
            } else {
                if arrived(front, r) {
                    let i = choose|i: int|
                        0 <= i < front.len() && (#[trigger] front[i]).row_index == r;
                    assert(arrivals[i].row_index == r);
                }
                if arrived(arrivals, r) {
                    let i = choose|i: int|
                        0 <= i < arrivals.len() && (#[trigger] arrivals[i]).row_index == r;
                    assert(front[i].row_index == r);
                }
            }
        }
    }
}

/// The order of arrival does not matter, and every row is written exactly
/// once: when one result has arrived for each row of the output, in any
/// order, the collector has taken all of them, it is complete, and its output
/// holds in each row the row that was due there.
pub proof fn lemma_arrival_order_is_irrelevant(
    template: GridView,
    rows_due: Seq<Seq<u64>>,
    arrivals: Seq<RowResultView>,
)
    requires
        rows_due.len() == template.rows,
        forall|r: int| 0 <= r < rows_due.len() ==> (#[trigger] rows_due[r]).len() == template.columns,
        arrives_once_each(arrivals, rows_due),
        arrivals.len() == template.rows,
    ensures
        CollectorView::start(template).after(arrivals).complete(),
        CollectorView::start(template).after(arrivals).received == arrivals.len(),
        forall|r: int| 0 <= r < template.rows ==> arrived(arrivals, r),
        CollectorView::start(template).after(arrivals).output == (GridView {
            rows: template.rows,
            columns: template.columns,
            nodata: template.nodata,
            cells: rows_due,
        }),
{
    let end = CollectorView::start(template).after(arrivals);
    lemma_distinct_arrivals_are_taken(template, rows_due, arrivals);
    lemma_complete_means_every_row_written(end);
    assert forall|r: int| 0 <= r < template.rows implies arrived(arrivals, r) by {
        assert(end.written[r]);
    }
    assert forall|r: int| 0 <= r < template.rows implies end.output.cells[r] == rows_due[r] by {
        assert(end.written[r]);
    }
    assert(end.output.cells =~= rows_due);
}

} // verus!
