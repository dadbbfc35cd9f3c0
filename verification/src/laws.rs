//! What holds of every system that the stamps can build.

use crate::component::Component;
use crate::matrix::{accumulate, larger, MatrixModel};
use crate::mna::MnaModel;
use crate::scalar::{negation_distributes, plus_is_associative, Scalar};
use crate::sparse::{cell_value, cells_within};
use vstd::prelude::*;

verus! {

/// Adding to a cell inside a block leaves every cell inside the block.
proof fn lemma_accumulate_within<S: Scalar>(
    cells: Map<(int, int), S>,
    row: int,
    col: int,
    x: S,
    rows: int,
    cols: int,
)
    requires
        cells_within(cells, rows, cols),
        0 <= row < rows,
        0 <= col < cols,
    ensures
        cells_within(accumulate(cells, row, col, x), rows, cols),
{
}

/// Counting a node or a current in leaves every cell inside its block.
proof fn lemma_grow_within<S: Scalar>(m: MatrixModel<S>, nodes: nat, edges: nat)
    requires
        m.within_counts(),
        m.num_voltage_nodes <= nodes,
        m.num_current_edges <= edges,
    ensures
        (MatrixModel { num_voltage_nodes: nodes, num_current_edges: edges, ..m }).within_counts(),
{
}

/// A single stamp into one block leaves every cell inside its block, where
/// the counts hold the stamped indices.
proof fn lemma_cell_stamps_within<S: Scalar>(m: MatrixModel<S>, a: nat, b: nat, x: S)
    requires
        m.within_counts(),
    ensures
        a <= m.num_voltage_nodes && b <= m.num_voltage_nodes ==> m.add_top_left(
            a,
            b,
            x,
        ).within_counts(),
        a <= m.num_voltage_nodes && b < m.num_current_edges ==> m.add_top_right(
            a,
            b,
            x,
        ).within_counts(),
        a < m.num_current_edges && b <= m.num_voltage_nodes ==> m.add_bottom_left(
            a,
            b,
            x,
        ).within_counts(),
        a < m.num_current_edges && b < m.num_current_edges ==> m.add_bottom_right(
            a,
            b,
            x,
        ).within_counts(),
{
    if a <= m.num_voltage_nodes && b <= m.num_voltage_nodes && a != 0 && b != 0 {
        lemma_accumulate_within(
            m.top_left,
            a - 1,
            b - 1,
            x,
            m.num_voltage_nodes as int,
            m.num_voltage_nodes as int,
        );
    }
    if a <= m.num_voltage_nodes && b < m.num_current_edges && a != 0 {
        lemma_accumulate_within(
            m.top_right,
            a - 1,
            b as int,
            x,
            m.num_voltage_nodes as int,
            m.num_current_edges as int,
        );
    }
    if a < m.num_current_edges && b <= m.num_voltage_nodes && b != 0 {
        lemma_accumulate_within(
            m.bottom_left,
            a as int,
            b - 1,
            x,
            m.num_current_edges as int,
            m.num_voltage_nodes as int,
        );
    }
    if a < m.num_current_edges && b < m.num_current_edges {
        lemma_accumulate_within(
            m.bottom_right,
            a as int,
            b as int,
            x,
            m.num_current_edges as int,
            m.num_current_edges as int,
        );
    }
}

/// Each stamp of the matrix leaves every cell inside its block.
pub proof fn lemma_matrix_stamps_within<S: Scalar>(
    m: MatrixModel<S>,
    n1: nat,
    n2: nat,
    e: nat,
    x1: S,
    x2: S,
    y: S,
)
    requires
        m.within_counts(),
    ensures
        m.add_symmetric_group1(n1, n2, x1, x2).within_counts(),
        m.add_symmetric_group2(n1, n2, e, x1, x2, y).within_counts(),
        m.add_unsymmetric_right_group2(n1, n2, e, x1, x2, y).within_counts(),
        m.add_unsymmetric_bottom_group2(n1, n2, e, x1, x2, y).within_counts(),
        m.add_group2_value(n1, n2, y).within_counts(),
{
    let grown = m.with_node(n1).with_node(n2);
    lemma_grow_within(m, grown.num_voltage_nodes, grown.num_current_edges);
    assert(grown.within_counts());
    {
        let s1 = grown.add_top_left(n1, n1, x1);
        lemma_cell_stamps_within(grown, n1, n1, x1);
        let s2 = s1.add_top_left(n2, n2, x1);
        lemma_cell_stamps_within(s1, n2, n2, x1);
        let s3 = s2.add_top_left(n1, n2, x2);
        lemma_cell_stamps_within(s2, n1, n2, x2);
        lemma_cell_stamps_within(s3, n2, n1, x2);
    }
    let both = grown.with_edge(e);
    lemma_grow_within(grown, both.num_voltage_nodes, both.num_current_edges);
    let diag = both.add_bottom_right(e, e, y);
    lemma_cell_stamps_within(both, e, e, y);
    {
        let s1 = diag.add_top_right(n1, e, x1);
        lemma_cell_stamps_within(diag, n1, e, x1);
        let s2 = s1.add_bottom_left(e, n1, x1);
        lemma_cell_stamps_within(s1, e, n1, x1);
        let s3 = s2.add_top_right(n2, e, x2);
        lemma_cell_stamps_within(s2, n2, e, x2);
        lemma_cell_stamps_within(s3, e, n2, x2);
    }
    {
        let s1 = diag.add_top_right(n1, e, x1);
        lemma_cell_stamps_within(diag, n1, e, x1);
        lemma_cell_stamps_within(s1, n2, e, x2);
    }
    {
        let s1 = diag.add_bottom_left(e, n1, x1);
        lemma_cell_stamps_within(diag, e, n1, x1);
        lemma_cell_stamps_within(s1, e, n2, x2);
    }
    {
        let edges = m.with_edge(n1).with_edge(n2);
        lemma_grow_within(m, edges.num_voltage_nodes, edges.num_current_edges);
        lemma_cell_stamps_within(edges, n1, n2, y);
    }
}

/// No stamp writes outside the blocks that the counts describe: after any
/// element, every row and column of a stored cell is at least 0 and below the
/// count of its kind. In particular ground never gets a row or a column.
pub proof fn law_cells_stay_inside<S: Scalar>(m: MnaModel<S>, c: Component<S>)
    requires
        m.matrix.within_counts(),
    ensures
        m.add_element_stamp(c).matrix.within_counts(),
{
    let zero = S::spec_zero();
    let one = S::spec_one();
    let minus_one = S::spec_one().spec_negated();
    if c.stamp_error().is_none() {
        match c {
            Component::Resistor { term_1, term_2, current_index: None, resistance } => {
                let g = resistance.spec_reciprocal();
                lemma_matrix_stamps_within(
                    m.matrix,
                    term_1 as nat,
                    term_2 as nat,
                    0,
                    g,
                    g.spec_negated(),
                    zero,
                );
            },
            Component::Resistor { term_1, term_2, current_index: Some(e), resistance } => {
                lemma_matrix_stamps_within(
                    m.matrix,
                    term_1 as nat,
                    term_2 as nat,
                    e as nat,
                    one,
                    minus_one,
                    resistance.spec_negated(),
                );
            },
            Component::IndependentVoltageSource { term_pos, term_neg, current_index, .. } => {
                lemma_matrix_stamps_within(
                    m.matrix,
                    term_pos as nat,
                    term_neg as nat,
                    current_index as nat,
                    one,
                    minus_one,
                    zero,
                );
            },
            Component::IndependentCurrentSource {
                term_pos,
                term_neg,
                current_index: Some(e),
                ..
            } => {
                lemma_matrix_stamps_within(
                    m.matrix,
                    term_pos as nat,
                    term_neg as nat,
                    e as nat,
                    one,
                    minus_one,
                    one,
                );
            },
            Component::VoltageControlledVoltageSource {
                term_pos,
                term_neg,
                ctrl_pos,
                ctrl_neg,
                current_index,
                voltage_scale,
            } => {
                lemma_matrix_stamps_within(
                    m.matrix,
                    term_pos as nat,
                    term_neg as nat,
                    current_index as nat,
                    one,
                    minus_one,
                    zero,
                );
                lemma_matrix_stamps_within(
                    m.matrix.add_symmetric_group2(
                        term_pos as nat,
                        term_neg as nat,
                        current_index as nat,
                        one,
                        minus_one,
                        zero,
                    ),
                    ctrl_pos as nat,
                    ctrl_neg as nat,
                    current_index as nat,
                    voltage_scale.spec_negated(),
                    voltage_scale,
                    zero,
                );
            },
            Component::CurrentControlledVoltageSource {
                term_pos,
                term_neg,
                ctrl_edge,
                current_index,
                voltage_scale,
            } => {
                lemma_matrix_stamps_within(
                    m.matrix,
                    term_pos as nat,
                    term_neg as nat,
                    current_index as nat,
                    one,
                    minus_one,
                    zero,
                );
                lemma_matrix_stamps_within(
                    m.matrix.add_symmetric_group2(
                        term_pos as nat,
                        term_neg as nat,
                        current_index as nat,
                        one,
                        minus_one,
                        zero,
                    ),
                    current_index as nat,
                    ctrl_edge as nat,
                    0,
                    zero,
                    zero,
                    voltage_scale.spec_negated(),
                );
            },
            _ => {},
        }
    }
}

/// Where each cell of the whole matrix comes from.
///
/// With `n` nodes and `m` currents, the cell at (`r`, `c`) of the whole matrix
/// is the cell of the top left block where both are below `n`, the cell at
/// (`r`, `c - n`) of the top right block where only `r` is, the cell at
/// (`r - n`, `c`) of the bottom left block where only `c` is, and the cell at
/// (`r - n`, `c - n`) of the bottom right block where neither is. Nothing is
/// stored outside the first `n + m` rows and columns.
pub proof fn law_assembled_layout<S: Scalar>(m: MatrixModel<S>)
    requires
        m.within_counts(),
    ensures
        cells_within(
            m.assembled(),
            (m.num_voltage_nodes + m.num_current_edges) as int,
            (m.num_voltage_nodes + m.num_current_edges) as int,
        ),
        forall|r: int, c: int|
            #![trigger m.assembled().contains_key((r, c))]
            #![trigger cell_value(m.assembled(), r, c)]
            {
                let n = m.num_voltage_nodes as int;
                let block = if r < n && c < n {
                    m.top_left
                } else if r < n {
                    m.top_right
                } else if c < n {
                    m.bottom_left
                } else {
                    m.bottom_right
                };
                let row = if r < n {
                    r
                } else {
                    r - n
                };
                let col = if c < n {
                    c
                } else {
                    c - n
                };
                &&& m.assembled().contains_key((r, c)) == block.contains_key((row, col))
                &&& cell_value(m.assembled(), r, c) == cell_value(block, row, col)
            },
{
}

/// A resistor between two nodes `a` and `b`, neither of them ground, adds its
/// conductance to the two diagonal cells (`a - 1`, `a - 1`) and
/// (`b - 1`, `b - 1`) and the inverse of its conductance to the two cells
/// (`a - 1`, `b - 1`) and (`b - 1`, `a - 1`), and changes no other cell, no
/// other block and nothing of the right-hand side. The four cells belong to
/// the top left block, whose cells keep their positions in the whole matrix.
pub proof fn law_resistor_stamp<S: Scalar>(m: MnaModel<S>, a: usize, b: usize, resistance: S)
    requires
        a != b,
        a != 0,
        b != 0,
    ensures
        ({
            let g = resistance.spec_reciprocal();
            let after = m.add_element_stamp(
                Component::Resistor { term_1: a, term_2: b, current_index: None, resistance },
            );
            let before = m.matrix.top_left;
            let cells = after.matrix.top_left;
            let i = a - 1;
            let j = b - 1;
            &&& cell_value(cells, i, i) == cell_value(before, i, i).spec_plus(g)
            &&& cell_value(cells, j, j) == cell_value(before, j, j).spec_plus(g)
            &&& cell_value(cells, i, j) == cell_value(before, i, j).spec_plus(g.spec_negated())
            &&& cell_value(cells, j, i) == cell_value(before, j, i).spec_plus(g.spec_negated())
            &&& forall|r: int, c: int|
                !((r == i || r == j) && (c == i || c == j)) ==> (#[trigger] cells.contains_key(
                    (r, c),
                )) == before.contains_key((r, c)) && cells[(r, c)] == before[(r, c)]
            &&& after.matrix.num_voltage_nodes == larger(
                larger(m.matrix.num_voltage_nodes, a as nat),
                b as nat,
            )
            &&& after.matrix.num_current_edges == m.matrix.num_current_edges
            &&& after.matrix.top_right == m.matrix.top_right
            &&& after.matrix.bottom_left == m.matrix.bottom_left
            &&& after.matrix.bottom_right == m.matrix.bottom_right
            &&& after.rhs == m.rhs
        }),
{
}

/// A resistor between a node `a` and ground adds its conductance to the
/// diagonal cell (`a - 1`, `a - 1`) and touches nothing else, whichever of its
/// two terminals is the grounded one.
pub proof fn law_grounded_resistor<S: Scalar>(m: MnaModel<S>, a: usize, resistance: S)
    requires
        a != 0,
    ensures
        ({
            let g = resistance.spec_reciprocal();
            let stamped = MnaModel {
                matrix: MatrixModel {
                    num_voltage_nodes: larger(m.matrix.num_voltage_nodes, a as nat),
                    top_left: accumulate(m.matrix.top_left, a - 1, a - 1, g),
                    ..m.matrix
                },
                ..m
            };
            &&& m.add_element_stamp(
                Component::Resistor { term_1: a, term_2: 0, current_index: None, resistance },
            ) == stamped
            &&& m.add_element_stamp(
                Component::Resistor { term_1: 0, term_2: a, current_index: None, resistance },
            ) == stamped
        }),
{
}

/// Two symmetric stamps between the same two different nodes, one after the
/// other, are one stamp of the sums, where addition is associative.
pub proof fn lemma_group1_accumulates<S: Scalar>(
    m: MatrixModel<S>,
    n1: nat,
    n2: nat,
    x1: S,
    x2: S,
    y1: S,
    y2: S,
)
    requires
        plus_is_associative::<S>(),
        n1 != n2,
    ensures
        m.add_symmetric_group1(n1, n2, x1, x2).add_symmetric_group1(n1, n2, y1, y2)
            == m.add_symmetric_group1(n1, n2, x1.spec_plus(y1), x2.spec_plus(y2)),
{
    let first = m.add_symmetric_group1(n1, n2, x1, x2);
    let both = first.add_symmetric_group1(n1, n2, y1, y2);
    let once = m.add_symmetric_group1(n1, n2, x1.spec_plus(y1), x2.spec_plus(y2));
    let cells = m.top_left;
    if n1 != 0 && n2 != 0 {
        let aa = cell_value(cells, n1 - 1, n1 - 1);
        let bb = cell_value(cells, n2 - 1, n2 - 1);
        let ab = cell_value(cells, n1 - 1, n2 - 1);
        let ba = cell_value(cells, n2 - 1, n1 - 1);
        assert(aa.spec_plus(x1).spec_plus(y1) == aa.spec_plus(x1.spec_plus(y1)));
        assert(bb.spec_plus(x1).spec_plus(y1) == bb.spec_plus(x1.spec_plus(y1)));
        assert(ab.spec_plus(x2).spec_plus(y2) == ab.spec_plus(x2.spec_plus(y2)));
        assert(ba.spec_plus(x2).spec_plus(y2) == ba.spec_plus(x2.spec_plus(y2)));
        assert(both.top_left =~= once.top_left);
    } else if n1 != 0 {
        let aa = cell_value(cells, n1 - 1, n1 - 1);
        assert(aa.spec_plus(x1).spec_plus(y1) == aa.spec_plus(x1.spec_plus(y1)));
        assert(both.top_left =~= once.top_left);
    } else if n2 != 0 {
        let bb = cell_value(cells, n2 - 1, n2 - 1);
        assert(bb.spec_plus(x1).spec_plus(y1) == bb.spec_plus(x1.spec_plus(y1)));
        assert(both.top_left =~= once.top_left);
    }
}

/// Two resistors between the same two nodes make the matrix that one resistor
/// makes whose conductance is the sum of theirs, where addition is associative
/// and the inverse of a sum is the sum of the inverses.
pub proof fn law_parallel_resistors<S: Scalar>(
    m: MnaModel<S>,
    a: usize,
    b: usize,
    r1: S,
    r2: S,
    r: S,
)
    requires
        plus_is_associative::<S>(),
        negation_distributes::<S>(),
        a != b,
        r.spec_reciprocal() == r1.spec_reciprocal().spec_plus(r2.spec_reciprocal()),
    ensures
        m.add_element_stamp(
            Component::Resistor { term_1: a, term_2: b, current_index: None, resistance: r1 },
        ).add_element_stamp(
            Component::Resistor { term_1: a, term_2: b, current_index: None, resistance: r2 },
        ) == m.add_element_stamp(
            Component::Resistor { term_1: a, term_2: b, current_index: None, resistance: r },
        ),
{
    let g1 = r1.spec_reciprocal();
    let g2 = r2.spec_reciprocal();
    lemma_group1_accumulates(
        m.matrix,
        a as nat,
        b as nat,
        g1,
        g1.spec_negated(),
        g2,
        g2.spec_negated(),
    );
    assert(g1.spec_plus(g2).spec_negated() == g1.spec_negated().spec_plus(g2.spec_negated()));
}

/// The two counts never shrink, and after an element was stamped they hold
/// every node and every current that its matrix stamp names: the count of the
/// nodes is at least each of its terminals, and the count of the currents is
/// more than each of its current indices.
pub proof fn law_counts_grow<S: Scalar>(m: MnaModel<S>, c: Component<S>)
    ensures
        m.add_element_stamp(c).matrix.num_voltage_nodes >= m.matrix.num_voltage_nodes,
        m.add_element_stamp(c).matrix.num_current_edges >= m.matrix.num_current_edges,
        c.stamp_error().is_none() ==> {
            let after = m.add_element_stamp(c).matrix;
            match c {
                Component::Resistor { term_1, term_2, current_index, .. } => {
                    &&& after.num_voltage_nodes == larger(
                        larger(m.matrix.num_voltage_nodes, term_1 as nat),
                        term_2 as nat,
                    )
                    &&& after.num_current_edges == match current_index {
                        Some(e) => larger(m.matrix.num_current_edges, e as nat + 1),
                        None => m.matrix.num_current_edges,
                    }
                },
                Component::IndependentVoltageSource { term_pos, term_neg, current_index, .. } => {
                    &&& after.num_voltage_nodes == larger(
                        larger(m.matrix.num_voltage_nodes, term_pos as nat),
                        term_neg as nat,
                    )
                    &&& after.num_current_edges == larger(
                        m.matrix.num_current_edges,
                        current_index as nat + 1,
                    )
                },
                Component::IndependentCurrentSource {
                    term_pos,
                    term_neg,
                    current_index: Some(e),
                    ..
                } => {
                    &&& after.num_voltage_nodes == larger(
                        larger(m.matrix.num_voltage_nodes, term_pos as nat),
                        term_neg as nat,
                    )
                    &&& after.num_current_edges == larger(m.matrix.num_current_edges, e as nat + 1)
                },
                Component::IndependentCurrentSource { current_index: None, .. } => {
                    &&& after.num_voltage_nodes == m.matrix.num_voltage_nodes
                    &&& after.num_current_edges == m.matrix.num_current_edges
                },
                Component::VoltageControlledVoltageSource {
                    term_pos,
                    term_neg,
                    ctrl_pos,
                    ctrl_neg,
                    current_index,
                    ..
                } => {
                    &&& after.num_voltage_nodes == larger(
                        larger(
                            larger(
                                larger(m.matrix.num_voltage_nodes, term_pos as nat),
                                term_neg as nat,
                            ),
                            ctrl_pos as nat,
                        ),
                        ctrl_neg as nat,
                    )
                    &&& after.num_current_edges == larger(
                        m.matrix.num_current_edges,
                        current_index as nat + 1,
                    )
                },
                Component::CurrentControlledVoltageSource {
                    term_pos,
                    term_neg,
                    ctrl_edge,
                    current_index,
                    ..
                } => {
                    &&& after.num_voltage_nodes == larger(
                        larger(m.matrix.num_voltage_nodes, term_pos as nat),
                        term_neg as nat,
                    )
                    &&& after.num_current_edges == larger(
                        larger(m.matrix.num_current_edges, current_index as nat + 1),
                        ctrl_edge as nat + 1,
                    )
                },
                _ => true,
            }
        },
{
}

} // verus!
