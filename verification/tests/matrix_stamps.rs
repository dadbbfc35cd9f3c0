use mna::{MnaMatrix, SparseMat, StampError};

fn dense(matrix: &SparseMat<i64>) -> Vec<Vec<i64>> {
    let mut rows = vec![vec![0; matrix.num_cols()]; matrix.num_rows()];
    for entry in matrix.non_zero_vals().iter() {
        rows[entry.row][entry.col] = entry.value;
    }
    rows
}

fn cells(matrix: &SparseMat<i64>) -> Vec<(usize, usize, i64)> {
    let mut all: Vec<(usize, usize, i64)> =
        matrix.non_zero_vals().iter().map(|e| (e.row, e.col, e.value)).collect();
    all.sort();
    all
}

#[test]
fn new_matrix_is_empty() {
    let m: MnaMatrix<i64> = MnaMatrix::new();
    assert_eq!(m.num_voltage_nodes(), 0);
    assert_eq!(m.num_current_edges(), 0);
    assert!(m.top_left().non_zero_vals().is_empty());
    assert!(m.top_right().non_zero_vals().is_empty());
    assert!(m.bottom_left().non_zero_vals().is_empty());
    assert!(m.bottom_right().non_zero_vals().is_empty());
    let whole = m.get_matrix();
    assert_eq!(whole.num_rows(), 0);
    assert_eq!(whole.num_cols(), 0);
    assert!(whole.non_zero_vals().is_empty());
}

#[test]
fn group1_between_two_nodes() {
    let mut m: MnaMatrix<i64> = MnaMatrix::new();
    assert_eq!(m.add_symmetric_group1(1, 2, 3, -3), Ok(()));
    assert_eq!(m.num_voltage_nodes(), 2);
    assert_eq!(m.num_current_edges(), 0);
    assert_eq!(dense(&m.get_matrix()), vec![vec![3, -3], vec![-3, 3]]);
}

#[test]
fn group1_uses_the_second_value_off_the_diagonal() {
    let mut m: MnaMatrix<i64> = MnaMatrix::new();
    assert_eq!(m.add_symmetric_group1(3, 1, 5, 7), Ok(()));
    assert_eq!(m.num_voltage_nodes(), 3);
    assert_eq!(dense(&m.get_matrix()), vec![vec![5, 0, 7], vec![0, 0, 0], vec![7, 0, 5]]);
}

#[test]
fn group1_adds_to_what_is_there() {
    let mut m: MnaMatrix<i64> = MnaMatrix::new();
    assert_eq!(m.add_symmetric_group1(1, 2, 3, -3), Ok(()));
    assert_eq!(m.add_symmetric_group1(2, 3, 10, -10), Ok(()));
    assert_eq!(m.add_symmetric_group1(2, 1, 100, -100), Ok(()));
    assert_eq!(
        dense(&m.get_matrix()),
        vec![vec![103, -103, 0], vec![-103, 113, -10], vec![0, -10, 10]]
    );
}

#[test]
fn group1_to_ground_touches_one_cell() {
    let mut m: MnaMatrix<i64> = MnaMatrix::new();
    assert_eq!(m.add_symmetric_group1(3, 0, 4, -4), Ok(()));
    assert_eq!(m.num_voltage_nodes(), 3);
    assert_eq!(cells(m.top_left()), vec![(2, 2, 4)]);
    assert_eq!(m.add_symmetric_group1(0, 2, 6, -6), Ok(()));
    assert_eq!(m.num_voltage_nodes(), 3);
    assert_eq!(cells(m.top_left()), vec![(1, 1, 6), (2, 2, 4)]);
    assert!(m.top_right().non_zero_vals().is_empty());
    assert!(m.bottom_left().non_zero_vals().is_empty());
    assert!(m.bottom_right().non_zero_vals().is_empty());
    assert_eq!(cells(&m.get_matrix()), vec![(1, 1, 6), (2, 2, 4)]);
}

#[test]
fn group1_rejects_equal_terminals() {
    let mut m: MnaMatrix<i64> = MnaMatrix::new();
    assert_eq!(m.add_symmetric_group1(1, 2, 3, -3), Ok(()));
    assert_eq!(m.add_symmetric_group1(4, 4, 9, -9), Err(StampError::InvalidTopology));
    assert_eq!(m.add_symmetric_group1(0, 0, 9, -9), Err(StampError::InvalidTopology));
    assert_eq!(m.num_voltage_nodes(), 2);
    assert_eq!(dense(&m.get_matrix()), vec![vec![3, -3], vec![-3, 3]]);
}

#[test]
fn group2_couples_in_both_directions() {
    let mut m: MnaMatrix<i64> = MnaMatrix::new();
    assert_eq!(m.add_symmetric_group2(1, 2, 0, 1, -1, -7), Ok(()));
    assert_eq!(m.num_voltage_nodes(), 2);
    assert_eq!(m.num_current_edges(), 1);
    assert_eq!(cells(m.top_right()), vec![(0, 0, 1), (1, 0, -1)]);
    assert_eq!(cells(m.bottom_left()), vec![(0, 0, 1), (0, 1, -1)]);
    assert_eq!(cells(m.bottom_right()), vec![(0, 0, -7)]);
    assert!(m.top_left().non_zero_vals().is_empty());
    assert_eq!(
        dense(&m.get_matrix()),
        vec![vec![0, 0, 1], vec![0, 0, -1], vec![1, -1, -7]]
    );
}

#[test]
fn group2_skips_ground() {
    let mut m: MnaMatrix<i64> = MnaMatrix::new();
    assert_eq!(m.add_symmetric_group2(0, 2, 1, 5, 6, 7), Ok(()));
    assert_eq!(m.num_voltage_nodes(), 2);
    assert_eq!(m.num_current_edges(), 2);
    assert_eq!(cells(m.top_right()), vec![(1, 1, 6)]);
    assert_eq!(cells(m.bottom_left()), vec![(1, 1, 6)]);
    assert_eq!(cells(m.bottom_right()), vec![(1, 1, 7)]);
    assert_eq!(m.add_symmetric_group2(1, 0, 0, 5, 6, 7), Ok(()));
    assert_eq!(
        dense(&m.get_matrix()),
        vec![vec![0, 0, 5, 0], vec![0, 0, 0, 6], vec![5, 0, 7, 0], vec![0, 6, 0, 7]]
    );
}

#[test]
fn group2_adds_to_what_is_there() {
    let mut m: MnaMatrix<i64> = MnaMatrix::new();
    assert_eq!(m.add_symmetric_group2(1, 2, 0, 1, -1, 10), Ok(()));
    assert_eq!(m.add_symmetric_group2(1, 2, 0, 1, -1, 10), Ok(()));
    assert_eq!(
        dense(&m.get_matrix()),
        vec![vec![0, 0, 2], vec![0, 0, -2], vec![2, -2, 20]]
    );
}

#[test]
fn right_stamp_writes_the_column_only() {
    let mut m: MnaMatrix<i64> = MnaMatrix::new();
    assert_eq!(m.add_unsymmetric_right_group2(1, 2, 0, 3, 4, 5), Ok(()));
    assert_eq!(m.num_voltage_nodes(), 2);
    assert_eq!(m.num_current_edges(), 1);
    assert!(m.bottom_left().non_zero_vals().is_empty());
    assert_eq!(
        dense(&m.get_matrix()),
        vec![vec![0, 0, 3], vec![0, 0, 4], vec![0, 0, 5]]
    );
}

#[test]
fn right_stamp_skips_ground() {
    let mut m: MnaMatrix<i64> = MnaMatrix::new();
    assert_eq!(m.add_unsymmetric_right_group2(0, 1, 0, 3, 4, 5), Ok(()));
    assert_eq!(dense(&m.get_matrix()), vec![vec![0, 4], vec![0, 5]]);
}

#[test]
fn bottom_stamp_writes_the_row_only() {
    let mut m: MnaMatrix<i64> = MnaMatrix::new();
    assert_eq!(m.add_unsymmetric_bottom_group2(1, 2, 0, 3, 4, 5), Ok(()));
    assert_eq!(m.num_voltage_nodes(), 2);
    assert_eq!(m.num_current_edges(), 1);
    assert!(m.top_right().non_zero_vals().is_empty());
    assert_eq!(
        dense(&m.get_matrix()),
        vec![vec![0, 0, 0], vec![0, 0, 0], vec![3, 4, 5]]
    );
}

#[test]
fn bottom_stamp_skips_ground() {
    let mut m: MnaMatrix<i64> = MnaMatrix::new();
    assert_eq!(m.add_unsymmetric_bottom_group2(2, 0, 1, 3, 4, 5), Ok(()));
    assert_eq!(
        dense(&m.get_matrix()),
        vec![vec![0, 0, 0, 0], vec![0, 0, 0, 0], vec![0, 0, 0, 0], vec![0, 3, 0, 5]]
    );
}

#[test]
fn coupling_stamps_reject_equal_terminals() {
    let mut m: MnaMatrix<i64> = MnaMatrix::new();
    let rejected = Err(StampError::InvalidTopology);
    assert_eq!(m.add_symmetric_group2(2, 2, 0, 1, -1, 0), rejected);
    assert_eq!(m.add_unsymmetric_right_group2(3, 3, 1, 1, -1, 0), rejected);
    assert_eq!(m.add_unsymmetric_bottom_group2(0, 0, 2, 1, -1, 0), rejected);
    assert_eq!(m.num_voltage_nodes(), 0);
    assert_eq!(m.num_current_edges(), 0);
    assert!(m.get_matrix().non_zero_vals().is_empty());
}

#[test]
fn group2_value_couples_two_currents() {
    let mut m: MnaMatrix<i64> = MnaMatrix::new();
    m.add_group2_value(0, 2, -4);
    assert_eq!(m.num_voltage_nodes(), 0);
    assert_eq!(m.num_current_edges(), 3);
    m.add_group2_value(0, 2, -4);
    m.add_group2_value(1, 1, 9);
    assert_eq!(
        dense(&m.get_matrix()),
        vec![vec![0, 0, -8], vec![0, 9, 0], vec![0, 0, 0]]
    );
}

#[test]
fn node_five_alone_makes_five_rows() {
    let mut m: MnaMatrix<i64> = MnaMatrix::new();
    assert_eq!(m.add_symmetric_group1(5, 0, 1, -1), Ok(()));
    assert_eq!(m.num_voltage_nodes(), 5);
    assert_eq!(m.num_current_edges(), 0);
    let whole = m.get_matrix();
    assert_eq!(whole.num_rows(), 5);
    assert_eq!(whole.num_cols(), 5);
    assert_eq!(cells(&whole), vec![(4, 4, 1)]);
}

#[test]
fn currents_come_after_all_the_nodes() {
    let mut m: MnaMatrix<i64> = MnaMatrix::new();
    m.add_group2_value(2, 2, 8);
    assert_eq!(m.add_symmetric_group1(5, 0, 1, -1), Ok(()));
    assert_eq!(m.num_voltage_nodes(), 5);
    assert_eq!(m.num_current_edges(), 3);
    let whole = m.get_matrix();
    assert_eq!(whole.num_rows(), 8);
    assert_eq!(whole.num_cols(), 8);
    assert_eq!(cells(&whole), vec![(4, 4, 1), (7, 7, 8)]);
}

#[test]
fn counts_never_shrink() {
    let mut m: MnaMatrix<i64> = MnaMatrix::new();
    assert_eq!(m.add_symmetric_group2(7, 1, 4, 1, 1, 1), Ok(()));
    assert_eq!((m.num_voltage_nodes(), m.num_current_edges()), (7, 5));
    assert_eq!(m.add_symmetric_group2(2, 3, 0, 1, 1, 1), Ok(()));
    assert_eq!((m.num_voltage_nodes(), m.num_current_edges()), (7, 5));
    assert_eq!(m.add_symmetric_group1(1, 9, 1, 1), Ok(()));
    assert_eq!((m.num_voltage_nodes(), m.num_current_edges()), (9, 5));
}

#[test]
fn all_four_blocks_land_in_their_quadrants() {
    let mut m: MnaMatrix<i64> = MnaMatrix::new();
    assert_eq!(m.add_symmetric_group1(1, 2, 11, 12), Ok(()));
    assert_eq!(m.add_unsymmetric_right_group2(1, 2, 1, 21, 22, 0), Ok(()));
    assert_eq!(m.add_unsymmetric_bottom_group2(1, 2, 0, 31, 32, 0), Ok(()));
    m.add_group2_value(1, 0, 41);
    assert_eq!(
        dense(&m.get_matrix()),
        vec![
            vec![11, 12, 0, 21],
            vec![12, 11, 0, 22],
            vec![31, 32, 0, 0],
            vec![0, 0, 41, 0],
        ]
    );
}
