use whitebox_or::collector::{Collector, Rejection};
use whitebox_or::grid::Grid;
use whitebox_or::worker::RowResult;

fn result(row_index: usize, values: &[u64]) -> RowResult {
    RowResult { row_index, values: values.to_vec() }
}

#[test]
fn rows_may_arrive_in_any_order() {
    let template = Grid::new(3, 2, 99);
    let mut collector = Collector::new(&template);
    assert_eq!(collector.remaining(), 3);
    assert_eq!(collector.accept(result(2, &[5, 6])), Ok(()));
    assert_eq!(collector.accept(result(0, &[1, 2])), Ok(()));
    assert!(!collector.is_complete());
    assert_eq!(collector.received(), 2);
    assert_eq!(collector.remaining(), 1);
    assert_eq!(collector.accept(result(1, &[3, 4])), Ok(()));
    assert!(collector.is_complete());
    assert_eq!(collector.remaining(), 0);
    let grid = collector.finish();
    assert_eq!(grid, Grid::from_rows(vec![vec![1, 2], vec![3, 4], vec![5, 6]], 2, 99).unwrap());
}

#[test]
fn every_arrival_order_gives_the_same_grid() {
    let template = Grid::new(3, 1, 0);
    let orders = [[0, 1, 2], [0, 2, 1], [1, 0, 2], [1, 2, 0], [2, 0, 1], [2, 1, 0]];
    let expected = Grid::from_rows(vec![vec![10], vec![11], vec![12]], 1, 0).unwrap();
    for order in orders {
        let mut collector = Collector::new(&template);
        for row in order {
            assert_eq!(collector.accept(result(row, &[10 + row as u64])), Ok(()));
        }
        assert!(collector.is_complete());
        assert_eq!(collector.finish(), expected);
    }
}

#[test]
fn a_row_is_written_only_once() {
    let template = Grid::new(2, 1, 0);
    let mut collector = Collector::new(&template);
    assert_eq!(collector.accept(result(1, &[5])), Ok(()));
    assert_eq!(collector.accept(result(1, &[6])), Err(Rejection::AlreadyWritten));
    assert_eq!(collector.received(), 1);
    assert_eq!(collector.accept(result(0, &[4])), Ok(()));
    assert_eq!(collector.finish(), Grid::from_rows(vec![vec![4], vec![5]], 1, 0).unwrap());
}

#[test]
fn a_row_outside_the_output_is_refused() {
    let template = Grid::new(2, 1, 0);
    let mut collector = Collector::new(&template);
    assert_eq!(collector.accept(result(2, &[5])), Err(Rejection::RowOutOfRange));
    assert_eq!(collector.accept(result(usize::MAX, &[5])), Err(Rejection::RowOutOfRange));
    assert_eq!(collector.received(), 0);
}

#[test]
fn a_row_of_the_wrong_length_is_refused() {
    let template = Grid::new(2, 2, 0);
    let mut collector = Collector::new(&template);
    assert_eq!(collector.accept(result(0, &[5])), Err(Rejection::WrongLength));
    assert_eq!(collector.accept(result(0, &[5, 6, 7])), Err(Rejection::WrongLength));
    assert_eq!(collector.accept(result(0, &[5, 6])), Ok(()));
}

#[test]
fn the_row_index_is_checked_before_the_length() {
    let template = Grid::new(1, 2, 0);
    let mut collector = Collector::new(&template);
    assert_eq!(collector.accept(result(1, &[5])), Err(Rejection::RowOutOfRange));
    assert_eq!(collector.accept(result(0, &[1, 2])), Ok(()));
    assert_eq!(collector.accept(result(0, &[1])), Err(Rejection::WrongLength));
}

#[test]
fn a_collector_for_no_rows_is_complete_at_once() {
    let template = Grid::new(0, 4, 3);
    let collector = Collector::new(&template);
    assert!(collector.is_complete());
    assert_eq!(collector.remaining(), 0);
    assert_eq!(collector.finish(), Grid::new(0, 4, 3));
}

#[test]
fn the_output_starts_blank_with_the_shape_of_the_template() {
    let mut template = Grid::new(1, 2, 3);
    assert!(template.set_row(0, vec![8, 9]));
    let mut collector = Collector::new(&template);
    assert!(!collector.is_complete());
    assert_eq!(collector.accept(result(0, &[1, 2])), Ok(()));
    let grid = collector.finish();
    assert_eq!(grid.nodata(), 3);
    assert_eq!(grid.row(0), Some(&vec![1, 2]));
}
