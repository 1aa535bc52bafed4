//! The row scheduler: cuts the rows of a grid into contiguous blocks, one for
//! each worker to be started.
//!
//! Every block has `rows / workers` rows, and at least one, but for the last,
//! which ends where the grid ends. Blocks are handed out from the top until
//! the grid is used up, so there may be more blocks than `workers` (when the
//! division leaves a remainder) or fewer (when there are more workers than
//! rows).

use vstd::prelude::*;

verus! {

/// The rows from `start_row` up to, and without, `end_row`.
#[derive(Debug, Clone, Copy, PartialEq, Eq, Structural)]
pub struct RowBlock {
    pub start_row: usize,
    pub end_row: usize,
}

/// The number of rows in every block but the last.
pub open spec fn block_size(rows: nat, workers: nat) -> nat {
    if rows / workers == 0 {
        1
    } else {
        rows / workers
    }
}

/// The number of blocks that the rows are cut into.
pub open spec fn block_count(rows: nat, workers: nat) -> nat {
    let size = block_size(rows, workers);
    ((rows + size - 1) / (size as int)) as nat
}

/// The first row of block `i`.
pub open spec fn block_start(rows: nat, workers: nat, i: nat) -> nat {
    i * block_size(rows, workers)
}

/// The row after the last row of block `i`.
pub open spec fn block_end(rows: nat, workers: nat, i: nat) -> nat {
    let end = (i + 1) * block_size(rows, workers);
    if end > rows {
        rows
    } else {
        end
    }
}

/// The block that holds the given row.
pub open spec fn block_of(rows: nat, workers: nat, row: nat) -> nat {
    row / block_size(rows, workers)
}

/// `blocks` is the schedule for a grid of `rows` rows and `workers` workers:
/// as many blocks as are due, each from its start to its end.
pub open spec fn is_schedule(blocks: Seq<RowBlock>, rows: nat, workers: nat) -> bool {
    &&& blocks.len() == block_count(rows, workers)
    &&& forall|i: int|
        0 <= i < blocks.len() ==> (#[trigger] blocks[i]).start_row == block_start(
            rows,
            workers,
            i as nat,
        ) && blocks[i].end_row == block_end(rows, workers, i as nat)
}

/// With `count` blocks of `size` rows the grid is used up, and with one
/// block fewer it is not: then `count` is the rounded-up quotient.
proof fn lemma_count_is_ceiling(rows: int, size: int, count: int)
    by (nonlinear_arith)
    requires
        rows >= 0,
        size >= 1,
        count >= 0,
        count * size >= rows,
        count > 0 ==> (count - 1) * size < rows,
    ensures
        count == (rows + size - 1) / size,
{
}

/// The number of rows in every block but the last.
pub fn rows_per_block(rows: usize, num_workers: usize) -> (size: usize)
    requires
        num_workers >= 1,
    ensures
        size == block_size(rows as nat, num_workers as nat),
        size >= 1,
{
    let quotient = rows / num_workers;
    if quotient == 0 {
        1
    } else {
        quotient
    }
}

/// Cuts the rows `0..rows` into blocks for `num_workers` workers.
pub fn row_blocks(rows: usize, num_workers: usize) -> (blocks: Vec<RowBlock>)
    requires
        num_workers >= 1,
    ensures
        is_schedule(blocks@, rows as nat, num_workers as nat),
{
    let size = rows_per_block(rows, num_workers);
    let mut blocks: Vec<RowBlock> = Vec::new();
    let mut start: usize = 0;
    assert(blocks@.len() * size == 0) by (nonlinear_arith)
        requires
            blocks@.len() == 0,
    ;
    while start < rows
        invariant
            size >= 1,
            size == block_size(rows as nat, num_workers as nat),
            start <= rows,
            start == if blocks@.len() * size <= rows {
                blocks@.len() * size
            } else {
                rows as int
            },
            blocks@.len() > 0 ==> (blocks@.len() - 1) * size < rows,
            forall|i: int|
                0 <= i < blocks@.len() ==> (#[trigger] blocks@[i]).start_row == block_start(
                    rows as nat,
                    num_workers as nat,
                    i as nat,
                ) && blocks@[i].end_row == block_end(rows as nat, num_workers as nat, i as nat),
        decreases rows - start,
    {
        let ghost k = blocks@.len() as int;
        assert((k + 1) * size == k * size + size) by (nonlinear_arith);
        let end = if rows - start <= size {
            rows
        } else {
            start + size
        };
        blocks.push(RowBlock { start_row: start, end_row: end });
        start = end;
    }
    proof {
        lemma_count_is_ceiling(rows as int, size as int, blocks@.len() as int);
    }
    blocks
}

/// The blocks lie end to end from the first row to the last, none of them is
/// empty, and every row is in exactly one of them: in block `block_of`.
pub proof fn lemma_blocks_partition_rows(rows: nat, workers: nat)
    requires
        workers >= 1,
    ensures
        rows == 0 <==> block_count(rows, workers) == 0,
        rows > 0 ==> block_start(rows, workers, 0) == 0,
        rows > 0 ==> block_end(rows, workers, (block_count(rows, workers) - 1) as nat) == rows,
        forall|i: nat|
            i < block_count(rows, workers) ==> #[trigger] block_start(rows, workers, i)
                < block_end(rows, workers, i) <= rows,
        forall|i: nat|
            i + 1 < block_count(rows, workers) ==> #[trigger] block_end(rows, workers, i)
                == block_start(rows, workers, i + 1),
        forall|row: nat|
            row < rows ==> #[trigger] block_of(rows, workers, row) < block_count(rows, workers)
                && block_start(rows, workers, block_of(rows, workers, row)) <= row < block_end(
                rows,
                workers,
                block_of(rows, workers, row),
            ),
        forall|row: nat, i: nat|
            row < rows && i < block_count(rows, workers) && #[trigger] block_start(
                rows,
                workers,
                i,
            ) <= row < block_end(rows, workers, i) ==> i == #[trigger] block_of(
                rows,
                workers,
                row,
            ),
{
    let size = block_size(rows, workers) as int;
    let count = block_count(rows, workers) as int;
    let r = rows as int;
    assert(count * size >= r && (count > 0 ==> (count - 1) * size < r) && count >= 0)
        by (nonlinear_arith)
        requires
            size >= 1,
            r >= 0,
            count == (r + size - 1) / size,
    ;
    assert forall|i: nat| i < count implies #[trigger] block_start(rows, workers, i) < block_end(
        rows,
        workers,
        i,
    ) <= rows by {
        let n = i as int;
        assert(n * size < r && (n + 1) * size > n * size) by (nonlinear_arith)
            requires
                size >= 1,
                0 <= n <= count - 1,
                (count - 1) * size < r,
        ;
    }
    assert forall|i: nat| i + 1 < count implies #[trigger] block_end(rows, workers, i)
        == block_start(rows, workers, i + 1) by {
        let n = i as int;
        assert((n + 1) * size <= r) by (nonlinear_arith)
            requires
                size >= 1,
                0 <= n + 1 <= count - 1,
                (count - 1) * size < r,
        ;
    }
    assert forall|row: nat| row < rows implies #[trigger] block_of(rows, workers, row) < count
        && block_start(rows, workers, block_of(rows, workers, row)) <= row < block_end(
        rows,
        workers,
        block_of(rows, workers, row),
    ) by {
        let x = row as int;
        let q = x / size;
        assert(q * size <= x < (q + 1) * size && q >= 0 && q < count) by (nonlinear_arith)
            requires
                size >= 1,
                0 <= x < r,
                q == x / size,
                count * size >= r,
        ;
    }
    assert forall|row: nat, i: nat|
        row < rows && i < count && #[trigger] block_start(rows, workers, i) <= row < block_end(
            rows,
            workers,
            i,
        ) implies i == #[trigger] block_of(rows, workers, row) by {
        let x = row as int;
        let n = i as int;
        assert(n == x / size) by (nonlinear_arith)
            requires
                size >= 1,
                n >= 0,
                n * size <= x < (n + 1) * size,
        ;
    }
    if rows > 0 {
        assert(0 * size == 0 && (count - 1 + 1) * size >= r) by (nonlinear_arith)
            requires
                count * size >= r,
        ;
    }
}

} // verus!
