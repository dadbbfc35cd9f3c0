use mna::{concat_horizontal, concat_vertical, plus_equals, SparseMat};

fn cells(matrix: &SparseMat<i64>) -> Vec<(usize, usize, i64)> {
    let mut all: Vec<(usize, usize, i64)> =
        matrix.non_zero_vals().iter().map(|e| (e.row, e.col, e.value)).collect();
    all.sort();
    all
}

#[test]
fn empty_matrix_has_no_size_and_no_cells() {
    let m: SparseMat<i64> = SparseMat::empty();
    assert_eq!(m.num_rows(), 0);
    assert_eq!(m.num_cols(), 0);
    assert!(m.non_zero_vals().is_empty());
}

#[test]
fn absent_cell_reads_as_zero() {
    let mut m: SparseMat<i64> = SparseMat::empty();
    assert_eq!(m.get_unbounded(3, 4), 0);
    m.insert_unbounded(1, 1, 9);
    assert_eq!(m.get_unbounded(0, 0), 0);
    assert_eq!(m.get_unbounded(100, 100), 0);
}

#[test]
fn insert_grows_the_matrix_to_hold_the_cell() {
    let mut m: SparseMat<i64> = SparseMat::empty();
    m.insert_unbounded(2, 5, 7);
    assert_eq!(m.num_rows(), 3);
    assert_eq!(m.num_cols(), 6);
    assert_eq!(m.get_unbounded(2, 5), 7);
    m.insert_unbounded(0, 0, 1);
    assert_eq!(m.num_rows(), 3);
    assert_eq!(m.num_cols(), 6);
    m.insert_unbounded(4, 1, 2);
    assert_eq!(m.num_rows(), 5);
    assert_eq!(m.num_cols(), 6);
    assert_eq!(cells(&m), vec![(0, 0, 1), (2, 5, 7), (4, 1, 2)]);
}

#[test]
fn insert_replaces_the_stored_value() {
    let mut m: SparseMat<i64> = SparseMat::empty();
    m.insert_unbounded(1, 2, 7);
    m.insert_unbounded(0, 0, 3);
    m.insert_unbounded(1, 2, -4);
    assert_eq!(m.get_unbounded(1, 2), -4);
    assert_eq!(m.get_unbounded(0, 0), 3);
    assert_eq!(m.non_zero_vals().len(), 2);
}

#[test]
fn entries_list_each_stored_cell_once() {
    let mut m: SparseMat<i64> = SparseMat::empty();
    m.insert_unbounded(3, 3, 1);
    m.insert_unbounded(0, 1, 2);
    m.insert_unbounded(3, 3, 5);
    m.insert_unbounded(2, 0, 0);
    assert_eq!(m.non_zero_vals().len(), 3);
    assert_eq!(cells(&m), vec![(0, 1, 2), (2, 0, 0), (3, 3, 5)]);
    let first: Vec<(usize, usize, i64)> =
        m.non_zero_vals().iter().map(|e| (e.row, e.col, e.value)).collect();
    let second: Vec<(usize, usize, i64)> =
        m.non_zero_vals().iter().map(|e| (e.row, e.col, e.value)).collect();
    assert_eq!(first, second);
}

#[test]
fn resize_keeps_the_cells_inside() {
    let mut m: SparseMat<i64> = SparseMat::empty();
    m.insert_unbounded(1, 1, 4);
    m.resize(7, 9);
    assert_eq!(m.num_rows(), 7);
    assert_eq!(m.num_cols(), 9);
    assert_eq!(cells(&m), vec![(1, 1, 4)]);
    m.resize(2, 2);
    assert_eq!(m.num_rows(), 2);
    assert_eq!(m.num_cols(), 2);
    assert_eq!(m.get_unbounded(1, 1), 4);
}

#[test]
fn resize_drops_the_cells_outside() {
    let mut m: SparseMat<i64> = SparseMat::empty();
    m.insert_unbounded(0, 0, 1);
    m.insert_unbounded(2, 1, 2);
    m.insert_unbounded(1, 2, 3);
    m.insert_unbounded(1, 1, 4);
    m.insert_unbounded(3, 3, 5);
    m.resize(2, 3);
    assert_eq!(m.num_rows(), 2);
    assert_eq!(m.num_cols(), 3);
    assert_eq!(cells(&m), vec![(0, 0, 1), (1, 1, 4), (1, 2, 3)]);
    assert_eq!(m.get_unbounded(2, 1), 0);
    m.resize(5, 5);
    assert_eq!(cells(&m), vec![(0, 0, 1), (1, 1, 4), (1, 2, 3)]);
    m.resize(0, 0);
    assert!(m.non_zero_vals().is_empty());
}

#[test]
fn plus_equals_adds_to_the_cell() {
    let mut m: SparseMat<i64> = SparseMat::empty();
    plus_equals(&mut m, 1, 0, 5);
    assert_eq!(m.get_unbounded(1, 0), 5);
    assert_eq!(m.num_rows(), 2);
    assert_eq!(m.num_cols(), 1);
    plus_equals(&mut m, 1, 0, -7);
    assert_eq!(m.get_unbounded(1, 0), -2);
    plus_equals(&mut m, 0, 3, 1);
    assert_eq!(cells(&m), vec![(0, 3, 1), (1, 0, -2)]);
    assert_eq!(m.num_cols(), 4);
}

#[test]
fn horizontal_concatenation_moves_the_right_block() {
    let mut left: SparseMat<i64> = SparseMat::empty();
    left.insert_unbounded(0, 0, 1);
    left.insert_unbounded(1, 1, 2);
    let mut right: SparseMat<i64> = SparseMat::empty();
    right.insert_unbounded(0, 0, 3);
    right.insert_unbounded(1, 2, 4);
    left.resize(2, 2);
    right.resize(2, 3);
    let joined = concat_horizontal(left, &right);
    assert_eq!(joined.num_rows(), 2);
    assert_eq!(joined.num_cols(), 5);
    assert_eq!(cells(&joined), vec![(0, 0, 1), (0, 2, 3), (1, 1, 2), (1, 4, 4)]);
}

#[test]
fn vertical_concatenation_moves_the_bottom_block() {
    let mut top: SparseMat<i64> = SparseMat::empty();
    top.insert_unbounded(0, 1, 1);
    let mut bottom: SparseMat<i64> = SparseMat::empty();
    bottom.insert_unbounded(0, 0, 2);
    bottom.insert_unbounded(2, 1, 3);
    top.resize(1, 2);
    bottom.resize(3, 2);
    let joined = concat_vertical(top, &bottom);
    assert_eq!(joined.num_rows(), 4);
    assert_eq!(joined.num_cols(), 2);
    assert_eq!(cells(&joined), vec![(0, 1, 1), (1, 0, 2), (3, 1, 3)]);
}

#[test]
fn concatenation_takes_the_larger_size() {
    let mut left: SparseMat<i64> = SparseMat::empty();
    left.insert_unbounded(2, 0, 1);
    let mut right: SparseMat<i64> = SparseMat::empty();
    right.insert_unbounded(0, 1, 2);
    let joined = concat_horizontal(left, &right);
    assert_eq!(joined.num_rows(), 3);
    assert_eq!(joined.num_cols(), 3);
    assert_eq!(cells(&joined), vec![(0, 2, 2), (2, 0, 1)]);
    let mut top: SparseMat<i64> = SparseMat::empty();
    top.insert_unbounded(0, 0, 1);
    let mut bottom: SparseMat<i64> = SparseMat::empty();
    bottom.insert_unbounded(0, 3, 2);
    let stacked = concat_vertical(top, &bottom);
    assert_eq!(stacked.num_rows(), 2);
    assert_eq!(stacked.num_cols(), 4);
    assert_eq!(cells(&stacked), vec![(0, 0, 1), (1, 3, 2)]);
}

#[test]
fn concatenation_of_empty_blocks_is_empty() {
    let left: SparseMat<i64> = SparseMat::empty();
    let right: SparseMat<i64> = SparseMat::empty();
    let joined = concat_horizontal(left, &right);
    assert_eq!(joined.num_rows(), 0);
    assert_eq!(joined.num_cols(), 0);
    assert!(joined.non_zero_vals().is_empty());
}
