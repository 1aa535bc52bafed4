use whitebox_or::schedule::{row_blocks, rows_per_block, RowBlock};

fn block(start_row: usize, end_row: usize) -> RowBlock {
    RowBlock { start_row, end_row }
}

#[test]
fn remainder_gets_a_block_of_its_own() {
    assert_eq!(row_blocks(10, 3), vec![block(0, 3), block(3, 6), block(6, 9), block(9, 10)]);
}

#[test]
fn even_division_gives_one_block_per_worker() {
    assert_eq!(row_blocks(9, 3), vec![block(0, 3), block(3, 6), block(6, 9)]);
    assert_eq!(row_blocks(8, 4), vec![block(0, 2), block(2, 4), block(4, 6), block(6, 8)]);
}

#[test]
fn one_worker_takes_everything() {
    assert_eq!(row_blocks(5, 1), vec![block(0, 5)]);
}

#[test]
fn no_rows_no_blocks() {
    assert_eq!(row_blocks(0, 1), Vec::<RowBlock>::new());
    assert_eq!(row_blocks(0, 8), Vec::<RowBlock>::new());
}

#[test]
fn more_workers_than_rows_gives_one_row_each() {
    assert_eq!(row_blocks(2, 7), vec![block(0, 1), block(1, 2)]);
    assert_eq!(row_blocks(1, usize::MAX), vec![block(0, 1)]);
}

#[test]
fn as_many_workers_as_rows() {
    assert_eq!(row_blocks(3, 3), vec![block(0, 1), block(1, 2), block(2, 3)]);
}

#[test]
fn block_size_is_the_quotient_and_at_least_one() {
    assert_eq!(rows_per_block(10, 3), 3);
    assert_eq!(rows_per_block(9, 3), 3);
    assert_eq!(rows_per_block(2, 7), 1);
    assert_eq!(rows_per_block(0, 7), 1);
    assert_eq!(rows_per_block(100, 1), 100);
}

#[test]
fn the_largest_grid_does_not_overflow() {
    let half = usize::MAX / 2;
    assert_eq!(
        row_blocks(usize::MAX, 2),
        vec![block(0, half), block(half, 2 * half), block(2 * half, usize::MAX)]
    );
    assert_eq!(row_blocks(usize::MAX, 1), vec![block(0, usize::MAX)]);
}

#[test]
fn blocks_partition_the_rows() {
    for rows in 0..40usize {
        for workers in 1..45usize {
            let blocks = row_blocks(rows, workers);
            let size = rows_per_block(rows, workers);
            let mut next = 0;
            for (i, b) in blocks.iter().enumerate() {
                assert_eq!(b.start_row, next, "rows {rows} workers {workers}");
                assert!(b.start_row < b.end_row);
                if i + 1 < blocks.len() {
                    assert_eq!(b.end_row - b.start_row, size);
                } else {
                    assert!(b.end_row - b.start_row <= size);
                }
                next = b.end_row;
            }
            assert_eq!(next, rows);
            assert_eq!(blocks.len(), (rows + size - 1) / size);
        }
    }
}

#[test]
fn every_row_is_in_the_block_that_its_index_names() {
    let rows = 23;
    let workers = 4;
    let blocks = row_blocks(rows, workers);
    let size = rows_per_block(rows, workers);
    for row in 0..rows {
        let holders: Vec<usize> = (0..blocks.len())
            .filter(|i| blocks[*i].start_row <= row && row < blocks[*i].end_row)
            .collect();
        assert_eq!(holders, vec![row / size]);
    }
}
