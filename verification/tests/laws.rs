use mna::{Component, Mna, MnaMatrix};

fn assemble(elements: &[&Component<i64>]) -> (Vec<(usize, usize, i64)>, usize, Vec<i64>) {
    let mut mna: Mna<i64> = Mna::new();
    for element in elements.iter() {
        assert_eq!(mna.add_element_stamp(element), Ok(()));
    }
    let (matrix, rhs) = mna.get_system();
    let mut cells: Vec<(usize, usize, i64)> =
        matrix.non_zero_vals().iter().map(|e| (e.row, e.col, e.value)).collect();
    cells.sort();
    (cells, matrix.num_rows(), rhs)
}

#[test]
fn any_order_gives_the_same_system() {
    let a = Component::Resistor { term_1: 1, term_2: 2, current_index: None, resistance: 1 };
    let b = Component::Resistor { term_1: 2, term_2: 0, current_index: Some(1), resistance: 6 };
    let c = Component::IndependentVoltageSource {
        term_pos: 1,
        term_neg: 0,
        current_index: 0,
        voltage: 10,
    };
    let d = Component::CurrentControlledVoltageSource {
        term_pos: 3,
        term_neg: 2,
        ctrl_edge: 0,
        current_index: 2,
        voltage_scale: 4,
    };
    let e = Component::IndependentCurrentSource {
        term_pos: 3,
        term_neg: 1,
        current_index: None,
        current: 2,
    };
    let expected = assemble(&[&a, &b, &c, &d, &e]);
    assert_eq!(expected.1, 6);
    assert_eq!(
        expected.0,
        vec![
            (0, 0, 1),
            (0, 1, -1),
            (0, 3, 1),
            (1, 0, -1),
            (1, 1, 1),
            (1, 4, 1),
            (1, 5, -1),
            (2, 5, 1),
            (3, 0, 1),
            (3, 3, 0),
            (4, 1, 1),
            (4, 4, -6),
            (5, 1, -1),
            (5, 2, 1),
            (5, 3, -4),
            (5, 5, 0),
        ]
    );
    assert_eq!(expected.2, vec![2, 0, -2, 10, 0, 0]);
    assert_eq!(assemble(&[&e, &d, &c, &b, &a]), expected);
    assert_eq!(assemble(&[&c, &a, &e, &b, &d]), expected);
    assert_eq!(assemble(&[&b, &d, &a, &e, &c]), expected);
    assert_eq!(assemble(&[&d, &e, &b, &c, &a]), expected);
}

#[test]
fn order_decides_between_two_excitations_of_one_row() {
    let nodes = Component::Resistor { term_1: 1, term_2: 0, current_index: None, resistance: 1 };
    let two = Component::IndependentCurrentSource {
        term_pos: 0,
        term_neg: 1,
        current_index: None,
        current: 2,
    };
    let three = Component::IndependentCurrentSource {
        term_pos: 0,
        term_neg: 1,
        current_index: None,
        current: 3,
    };
    assert_eq!(assemble(&[&nodes, &two, &three]).2, vec![3]);
    assert_eq!(assemble(&[&nodes, &three, &two]).2, vec![2]);
    assert_eq!(assemble(&[&nodes, &two, &three]).0, assemble(&[&nodes, &three, &two]).0);
}

#[test]
fn two_stamps_are_one_stamp_of_the_sums() {
    let mut twice: MnaMatrix<i64> = MnaMatrix::new();
    assert_eq!(twice.add_symmetric_group1(1, 2, 9, 1), Ok(()));
    assert_eq!(twice.add_symmetric_group1(2, 3, 2, -2), Ok(()));
    assert_eq!(twice.add_symmetric_group1(2, 3, 3, -3), Ok(()));
    let mut once: MnaMatrix<i64> = MnaMatrix::new();
    assert_eq!(once.add_symmetric_group1(1, 2, 9, 1), Ok(()));
    assert_eq!(once.add_symmetric_group1(2, 3, 5, -5), Ok(()));
    let mut left: Vec<(usize, usize, i64)> =
        twice.get_matrix().non_zero_vals().iter().map(|e| (e.row, e.col, e.value)).collect();
    let mut right: Vec<(usize, usize, i64)> =
        once.get_matrix().non_zero_vals().iter().map(|e| (e.row, e.col, e.value)).collect();
    left.sort();
    right.sort();
    assert_eq!(left, right);
    assert_eq!(
        left,
        vec![(0, 0, 9), (0, 1, 1), (1, 0, 1), (1, 1, 14), (1, 2, -5), (2, 1, -5), (2, 2, 5)]
    );
}

#[test]
fn no_cell_lies_outside_the_counts() {
    let elements: Vec<Component<i64>> = vec![
        Component::Resistor { term_1: 4, term_2: 0, current_index: Some(2), resistance: 3 },
        Component::VoltageControlledVoltageSource {
            term_pos: 0,
            term_neg: 2,
            ctrl_pos: 6,
            ctrl_neg: 0,
            current_index: 0,
            voltage_scale: 2,
        },
        Component::CurrentControlledVoltageSource {
            term_pos: 1,
            term_neg: 0,
            ctrl_edge: 4,
            current_index: 1,
            voltage_scale: 2,
        },
    ];
    let mut mna: Mna<i64> = Mna::new();
    for element in elements.iter() {
        assert_eq!(mna.add_element_stamp(element), Ok(()));
        let nodes = mna.num_voltage_nodes();
        let edges = mna.num_current_edges();
        let matrix = mna.matrix();
        let top_left = matrix.top_left().non_zero_vals();
        let top_right = matrix.top_right().non_zero_vals();
        let bottom_left = matrix.bottom_left().non_zero_vals();
        let bottom_right = matrix.bottom_right().non_zero_vals();
        assert!(top_left.iter().all(|e| e.row < nodes && e.col < nodes));
        assert!(top_right.iter().all(|e| e.row < nodes && e.col < edges));
        assert!(bottom_left.iter().all(|e| e.row < edges && e.col < nodes));
        assert!(bottom_right.iter().all(|e| e.row < edges && e.col < edges));
    }
    assert_eq!(mna.num_voltage_nodes(), 6);
    assert_eq!(mna.num_current_edges(), 5);
    let (matrix, rhs) = mna.get_system();
    assert_eq!(matrix.num_rows(), 11);
    assert_eq!(rhs.len(), 11);
    assert!(matrix.non_zero_vals().iter().all(|e| e.row < 11 && e.col < 11));
}
