use whitebox_or::grid::Grid;
use whitebox_or::rule::combine_cell;
use whitebox_or::worker::{compute_row, RowResult};

fn bits(values: &[f64]) -> Vec<u64> {
    values.iter().map(|z| z.to_bits()).collect()
}

fn or(z1: f64, nodata1: f64, z2: f64, nodata2: f64) -> f64 {
    f64::from_bits(combine_cell(z1.to_bits(), nodata1.to_bits(), z2.to_bits(), nodata2.to_bits()))
}

#[test]
fn truth_table_of_the_rule() {
    let nodata = -9999.0;
    assert_eq!(or(0.0, nodata, 0.0, nodata), 0.0);
    assert_eq!(or(1.0, nodata, 0.0, nodata), 1.0);
    assert_eq!(or(0.0, nodata, 1.0, nodata), 1.0);
    assert_eq!(or(1.0, nodata, 1.0, nodata), 1.0);
}

#[test]
fn any_value_but_zero_counts_as_true() {
    let nodata = -9999.0;
    assert_eq!(or(5.0, nodata, 0.0, nodata), 1.0);
    assert_eq!(or(0.0, nodata, -0.25, nodata), 1.0);
    assert_eq!(or(f64::INFINITY, nodata, 0.0, nodata), 1.0);
    assert_eq!(or(f64::NAN, nodata, 0.0, nodata), 1.0);
    assert_eq!(or(f64::MIN_POSITIVE / 8.0, nodata, 0.0, nodata), 1.0);
}

#[test]
fn negative_zero_counts_as_false() {
    let nodata: f64 = -9999.0;
    let out = combine_cell((-0.0f64).to_bits(), nodata.to_bits(), (-0.0f64).to_bits(), nodata.to_bits());
    assert_eq!(out, 0.0f64.to_bits());
}

#[test]
fn missing_data_in_either_input_gives_the_first_nodata() {
    assert_eq!(or(-9999.0, -9999.0, 1.0, -32768.0), -9999.0);
    assert_eq!(or(1.0, -9999.0, -32768.0, -32768.0), -9999.0);
    assert_eq!(or(-9999.0, -9999.0, -32768.0, -32768.0), -9999.0);
    assert_eq!(or(-32768.0, -9999.0, -9999.0, -32768.0), 1.0);
}

#[test]
fn nodata_is_compared_as_a_number() {
    assert_eq!(
        combine_cell((-0.0f64).to_bits(), 0.0f64.to_bits(), 1.0f64.to_bits(), 7.0f64.to_bits()),
        0.0f64.to_bits()
    );
    let nan = f64::NAN.to_bits();
    assert_eq!(combine_cell(nan, nan, 0.0f64.to_bits(), nan), 1.0f64.to_bits());
    assert_eq!(combine_cell(0.0f64.to_bits(), nan, 0.0f64.to_bits(), nan), 0.0f64.to_bits());
}

#[test]
fn compute_row_combines_along_the_row() {
    let nodata: f64 = -9999.0;
    let a = Grid::from_rows(vec![bits(&[9.0, 9.0, 9.0, 9.0]), bits(&[0.0, 1.0, nodata, 0.0])], 4, nodata.to_bits())
        .expect("well shaped");
    let b = Grid::from_rows(vec![bits(&[0.0, 0.0, 0.0, 0.0]), bits(&[0.0, 0.0, 5.0, nodata])], 4, nodata.to_bits())
        .expect("well shaped");
    assert_eq!(
        compute_row(&a, &b, 1),
        RowResult { row_index: 1, values: bits(&[0.0, 1.0, -9999.0, -9999.0]) }
    );
    assert_eq!(compute_row(&a, &b, 0), RowResult { row_index: 0, values: bits(&[1.0, 1.0, 1.0, 1.0]) });
}

#[test]
fn compute_row_of_a_grid_without_columns() {
    let a = Grid::new(2, 0, 0);
    let b = Grid::new(2, 0, 0);
    assert_eq!(compute_row(&a, &b, 1), RowResult { row_index: 1, values: Vec::new() });
}
