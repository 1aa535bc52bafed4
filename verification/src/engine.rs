//! The engine: checks that the two inputs have the same shape, has the rows
//! cut into blocks, lets a worker go through each block and the collector put
//! the output together.
//!
//! Here the workers run one after the other on the calling thread. The
//! pieces are the ones a caller with threads of its own would use:
//! [`row_blocks`] to plan, [`compute_row`] in each worker, and a
//! [`Collector`] at the receiving end.

use vstd::prelude::*;
use crate::collector::{
    lemma_after_in_two_batches, lemma_after_keeps_shape, lemma_arrival_order_is_irrelevant,
    lemma_complete_means_every_row_written, lemma_start_is_wf, Collector, CollectorView,
};
use crate::grid::{Grid, GridView};
use crate::rule::{combines_truth, lemma_or_grid_follows_rule, or_grid, propagates_nodata};
use crate::schedule::{
    block_count, block_end, block_start, is_schedule, lemma_blocks_partition_rows, row_blocks,
    RowBlock,
};
use crate::worker::{compute_row, row_result, RowResultView};

verus! {

/// Why the engine did not produce a grid.
#[derive(Debug, Clone, Copy, PartialEq, Eq, Structural)]
pub enum EngineError {
    /// The two inputs differ in their number of rows or of columns.
    InvalidInput,
}

impl EngineError {
    /// The error in words.
    pub fn message(&self) -> (text: String)
        ensures
            text@
                == "The input files must have the same number of rows and columns and spatial extent."@,
    {
        "The input files must have the same number of rows and columns and spatial extent.".to_owned()
    }
}

/// The results that are due for the rows `from..to`, top to bottom.
pub open spec fn results_due(a: GridView, b: GridView, from: nat, to: nat) -> Seq<RowResultView> {
    Seq::new((to - from) as nat, |j: int| row_result(a, b, (from + j) as nat))
}

/// `out` is what the engine owes for the inputs `a` and `b`: the rule applied
/// at every place, in a grid with the shape and the missing-data sample of
/// `a`.
pub open spec fn is_combination(a: GridView, b: GridView, out: GridView) -> bool {
    &&& out == or_grid(a, b)
    &&& out.wf()
    &&& out.same_shape(a)
    &&& out.nodata == a.nodata
    &&& propagates_nodata(a, b, out)
    &&& combines_truth(a, b, out)
}

/// The results that the first `blocks` blocks of the schedule for `workers`
/// workers give out, block after block and, within a block, top to bottom.
pub open spec fn emitted(a: GridView, b: GridView, workers: nat, blocks: nat) -> Seq<RowResultView>
    decreases blocks,
{
    if blocks == 0 {
        Seq::empty()
    } else {
        let last = (blocks - 1) as nat;
        emitted(a, b, workers, last) + results_due(
            a,
            b,
            block_start(a.rows, workers, last),
            block_end(a.rows, workers, last),
        )
    }
}

/// What comes before any worker is started: the check that the two inputs
/// have the same shape and, where they have, the blocks for `num_workers`
/// workers.
pub fn plan(a: &Grid, b: &Grid, num_workers: usize) -> (blocks: Result<Vec<RowBlock>, EngineError>)
    requires
        num_workers >= 1,
    ensures
        a@.same_shape(b@) ==> blocks is Ok,
        !a@.same_shape(b@) ==> blocks == Err::<Vec<RowBlock>, EngineError>(
            EngineError::InvalidInput,
        ),
        blocks matches Ok(schedule) ==> is_schedule(schedule@, a@.rows, num_workers as nat),
{
    if !a.same_shape(b) {
        return Err(EngineError::InvalidInput);
    }
    Ok(row_blocks(a.rows(), num_workers))
}

/// One worker's share: combines the rows of the block from its first to its
/// last and hands each to the collector as soon as it is done.
pub fn run_block(a: &Grid, b: &Grid, block: RowBlock, collector: &mut Collector)
    requires
        a.wf(),
        b.wf(),
        a@.same_shape(b@),
        block.start_row <= block.end_row <= a@.rows,
        old(collector).wf(),
    ensures
        final(collector).wf(),
        final(collector)@ == old(collector)@.after(
            results_due(a@, b@, block.start_row as nat, block.end_row as nat),
        ),
{
    let mut row: usize = block.start_row;
    assert(results_due(a@, b@, block.start_row as nat, row as nat) =~= Seq::empty());
    while row < block.end_row
        invariant
            a.wf(),
            b.wf(),
            a@.same_shape(b@),
            block.start_row <= row <= block.end_row <= a@.rows,
            collector.wf(),
            collector@ == old(collector)@.after(
                results_due(a@, b@, block.start_row as nat, row as nat),
            ),
        decreases block.end_row - row,
    {
        let ghost sent = results_due(a@, b@, block.start_row as nat, row as nat);
        let result = compute_row(a, b, row);
        let ghost arrival = result@;
        let _ = collector.accept(result);
        row = row + 1;
        proof {
            let now = results_due(a@, b@, block.start_row as nat, row as nat);
            assert(now.drop_last() =~= sent);
            assert(now.last() == arrival);
        }
    }
}

/// Combines two grids with the rows cut into blocks for `num_workers`
/// workers. The result does not depend on that number.
pub fn combine_with_workers(a: &Grid, b: &Grid, num_workers: usize) -> (outcome: Result<
    Grid,
    EngineError,
>)
    requires
        a.wf(),
        b.wf(),
        num_workers >= 1,
    ensures
        a@.same_shape(b@) ==> outcome is Ok,
        !a@.same_shape(b@) ==> outcome == Err::<Grid, EngineError>(EngineError::InvalidInput),
        outcome matches Ok(out) ==> is_combination(a@, b@, out@),
{
    let blocks = match plan(a, b, num_workers) {
        Ok(blocks) => blocks,
        Err(error) => {
            return Err(error);
        },
    };
    let mut collector = Collector::new(a);
    let mut i: usize = 0;
    while i < blocks.len()
        invariant
            a.wf(),
            b.wf(),
            a@.same_shape(b@),
            num_workers >= 1,
            i <= blocks@.len(),
            is_schedule(blocks@, a@.rows, num_workers as nat),
            collector.wf(),
            collector@ == CollectorView::start(a@).after(
                emitted(a@, b@, num_workers as nat, i as nat),
            ),
        decreases blocks@.len() - i,
    {
        let block = blocks[i];
        proof {
            lemma_blocks_partition_rows(a@.rows, num_workers as nat);
            assert(block_start(a@.rows, num_workers as nat, i as nat) < block_end(
                a@.rows,
                num_workers as nat,
                i as nat,
            ));
            lemma_after_in_two_batches(
                CollectorView::start(a@),
                emitted(a@, b@, num_workers as nat, i as nat),
                results_due(a@, b@, block.start_row as nat, block.end_row as nat),
            );
        }
        run_block(a, b, block, &mut collector);
        i = i + 1;
    }
    proof {
        lemma_worker_count_is_irrelevant(a@, b@, num_workers as nat);
    }
    Ok(collector.finish())
}

/// The number of logical processors that `num_cpus::get` reports for this
/// machine. Nothing is verified of it; its documentation promises that it is
/// never less than one, and that is all the contract says.
#[verifier::external_body]
fn available_workers() -> (n: usize)
    ensures
        n >= 1,
{
    num_cpus::get()
}

/// Combines two grids with the rows cut into blocks for as many workers as
/// the machine has processors.
pub fn combine(a: &Grid, b: &Grid) -> (outcome: Result<Grid, EngineError>)
    requires
        a.wf(),
        b.wf(),
    ensures
        a@.same_shape(b@) ==> outcome is Ok,
        !a@.same_shape(b@) ==> outcome == Err::<Grid, EngineError>(EngineError::InvalidInput),
        outcome matches Ok(out) ==> is_combination(a@, b@, out@),
{
    combine_with_workers(a, b, available_workers())
}

/// The blocks of a schedule give out the rows from the top down, without a
/// gap: after `blocks` of them, every row above the next block is out.
pub proof fn lemma_emitted_in_row_order(a: GridView, b: GridView, workers: nat, blocks: nat)
    requires
        workers >= 1,
        blocks <= block_count(a.rows, workers),
    ensures
        emitted(a, b, workers, blocks) == results_due(
            a,
            b,
            0,
            if blocks < block_count(a.rows, workers) {
                block_start(a.rows, workers, blocks)
            } else {
                a.rows
            },
        ),
    decreases blocks,
{
    lemma_blocks_partition_rows(a.rows, workers);
    if blocks == 0 {
        assert(emitted(a, b, workers, blocks) =~= results_due(a, b, 0, 0));
    } else {
        let last = (blocks - 1) as nat;
        lemma_emitted_in_row_order(a, b, workers, last);
        let from = block_start(a.rows, workers, last);
        let to = block_end(a.rows, workers, last);
        assert(results_due(a, b, 0, from) + results_due(a, b, from, to) =~= results_due(
            a,
            b,
            0,
            to,
        ));
    }
}

/// The output does not depend on the number of workers: whatever that
/// number, once the collector has taken what the blocks of its schedule give
/// out, every row has been written and the output is the combination of the
/// two inputs.
pub proof fn lemma_worker_count_is_irrelevant(a: GridView, b: GridView, workers: nat)
    requires
        a.wf(),
        b.wf(),
        a.same_shape(b),
        workers >= 1,
    ensures
        CollectorView::start(a).after(
            emitted(a, b, workers, block_count(a.rows, workers)),
        ).complete(),
        CollectorView::start(a).after(
            emitted(a, b, workers, block_count(a.rows, workers)),
        ).output == or_grid(a, b),
        is_combination(a, b, or_grid(a, b)),
{
    lemma_emitted_in_row_order(a, b, workers, block_count(a.rows, workers));
    lemma_or_grid_follows_rule(a, b);
    lemma_arrival_order_is_irrelevant(a, or_grid(a, b).cells, results_due(a, b, 0, a.rows));
}

/// Every row is written exactly once: the blocks of a schedule give out one
/// result for each row of the grid and none for any row twice, and the
/// collector takes every one of them, so that in the end each row is marked
/// and as many results were taken as there are rows.
pub proof fn lemma_every_row_is_written_once(a: GridView, b: GridView, workers: nat)
    requires
        a.wf(),
        b.wf(),
        a.same_shape(b),
        workers >= 1,
    ensures
        emitted(a, b, workers, block_count(a.rows, workers)).len() == a.rows,
        forall|r: int|
            0 <= r < a.rows ==> (#[trigger] emitted(
                a,
                b,
                workers,
                block_count(a.rows, workers),
            )[r]).row_index == r,
        CollectorView::start(a).after(
            emitted(a, b, workers, block_count(a.rows, workers)),
        ).received == a.rows,
        forall|r: int|
            0 <= r < a.rows ==> #[trigger] CollectorView::start(a).after(
                emitted(a, b, workers, block_count(a.rows, workers)),
            ).written[r],
{
    let out = emitted(a, b, workers, block_count(a.rows, workers));
    lemma_emitted_in_row_order(a, b, workers, block_count(a.rows, workers));
    lemma_or_grid_follows_rule(a, b);
    lemma_arrival_order_is_irrelevant(a, or_grid(a, b).cells, out);
    lemma_start_is_wf(a);
    lemma_after_keeps_shape(CollectorView::start(a), out);
    lemma_complete_means_every_row_written(CollectorView::start(a).after(out));
}

} // verus!
