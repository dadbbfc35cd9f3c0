//! The order in which the elements are stamped does not matter.

use crate::component::Component;
use crate::matrix::{accumulate, MatrixModel};
use crate::mna::MnaModel;
use crate::rhs::RhsModel;
use crate::scalar::{plus_is_associative, plus_is_commutative, Scalar};
use vstd::prelude::*;
use vstd::seq_lib::{to_multiset_build, to_multiset_contains, to_multiset_len, to_multiset_remove};

verus! {

/// What one step of a matrix stamp changes.
enum Target {
    Nodes,
    Edges,
    TopLeft,
    TopRight,
    BottomLeft,
    BottomRight,
}

/// One step of a matrix stamp: a node or a current counted in, or a value
/// added to one cell.
struct Step<S> {
    target: Target,
    i: nat,
    j: nat,
    x: S,
}

spec fn node<S: Scalar>(n: nat) -> Step<S> {
    Step { target: Target::Nodes, i: n, j: 0, x: S::spec_zero() }
}

spec fn edge<S: Scalar>(e: nat) -> Step<S> {
    Step { target: Target::Edges, i: e, j: 0, x: S::spec_zero() }
}

spec fn cell<S: Scalar>(target: Target, i: nat, j: nat, x: S) -> Step<S> {
    Step { target, i, j, x }
}

/// The matrix after one step.
spec fn step<S: Scalar>(m: MatrixModel<S>, s: Step<S>) -> MatrixModel<S> {
    match s.target {
        Target::Nodes => m.with_node(s.i),
        Target::Edges => m.with_edge(s.i),
        Target::TopLeft => m.add_top_left(s.i, s.j, s.x),
        Target::TopRight => m.add_top_right(s.i, s.j, s.x),
        Target::BottomLeft => m.add_bottom_left(s.i, s.j, s.x),
        Target::BottomRight => m.add_bottom_right(s.i, s.j, s.x),
    }
}

/// The matrix after a list of steps.
spec fn run<S: Scalar>(m: MatrixModel<S>, steps: Seq<Step<S>>) -> MatrixModel<S>
    decreases steps.len(),
{
    if steps.len() == 0 {
        m
    } else {
        step(run(m, steps.drop_last()), steps.last())
    }
}

proof fn lemma_run_push<S: Scalar>(m: MatrixModel<S>, steps: Seq<Step<S>>, s: Step<S>)
    ensures
        run(m, steps.push(s)) == step(run(m, steps), s),
{
    assert(steps.push(s).drop_last() =~= steps);
}

proof fn lemma_run_concat<S: Scalar>(m: MatrixModel<S>, a: Seq<Step<S>>, b: Seq<Step<S>>)
    ensures
        run(m, a + b) == run(run(m, a), b),
    decreases b.len(),
{
    if b.len() == 0 {
        assert(a + b =~= a);
    } else {
        lemma_run_concat(m, a, b.drop_last());
        assert((a + b).drop_last() =~= a + b.drop_last());
    }
}

/// Two additions to cells of one block can be made in either order.
proof fn lemma_accumulate_commutes<S: Scalar>(
    cells: Map<(int, int), S>,
    r1: int,
    c1: int,
    x: S,
    r2: int,
    c2: int,
    y: S,
)
    requires
        plus_is_commutative::<S>(),
        plus_is_associative::<S>(),
    ensures
        accumulate(accumulate(cells, r1, c1, x), r2, c2, y) == accumulate(
            accumulate(cells, r2, c2, y),
            r1,
            c1,
            x,
        ),
{
    if r1 == r2 && c1 == c2 {
        let v = crate::sparse::cell_value(cells, r1, c1);
        assert(v.spec_plus(x).spec_plus(y) == v.spec_plus(x.spec_plus(y)));
        assert(x.spec_plus(y) == y.spec_plus(x));
        assert(v.spec_plus(y).spec_plus(x) == v.spec_plus(y.spec_plus(x)));
    }
    assert(accumulate(accumulate(cells, r1, c1, x), r2, c2, y) =~= accumulate(
        accumulate(cells, r2, c2, y),
        r1,
        c1,
        x,
    ));
}

/// Two steps can be made in either order.
proof fn lemma_steps_commute<S: Scalar>(m: MatrixModel<S>, a: Step<S>, b: Step<S>)
    requires
        plus_is_commutative::<S>(),
        plus_is_associative::<S>(),
    ensures
        step(step(m, a), b) == step(step(m, b), a),
{
    lemma_accumulate_commutes(m.top_left, a.i - 1, a.j - 1, a.x, b.i - 1, b.j - 1, b.x);
    lemma_accumulate_commutes(m.top_right, a.i - 1, a.j as int, a.x, b.i - 1, b.j as int, b.x);
    lemma_accumulate_commutes(m.bottom_left, a.i as int, a.j - 1, a.x, b.i as int, b.j - 1, b.x);
    lemma_accumulate_commutes(
        m.bottom_right,
        a.i as int,
        a.j as int,
        a.x,
        b.i as int,
        b.j as int,
        b.x,
    );
}

/// A step can be made before a list of steps or after it.
proof fn lemma_step_through_run<S: Scalar>(m: MatrixModel<S>, a: Step<S>, steps: Seq<Step<S>>)
    requires
        plus_is_commutative::<S>(),
        plus_is_associative::<S>(),
    ensures
        run(step(m, a), steps) == step(run(m, steps), a),
    decreases steps.len(),
{
    if steps.len() > 0 {
        lemma_step_through_run(m, a, steps.drop_last());
        lemma_steps_commute(run(m, steps.drop_last()), a, steps.last());
    }
}

/// Two lists of steps can be run in either order.
proof fn lemma_runs_commute<S: Scalar>(m: MatrixModel<S>, a: Seq<Step<S>>, b: Seq<Step<S>>)
    requires
        plus_is_commutative::<S>(),
        plus_is_associative::<S>(),
    ensures
        run(run(m, a), b) == run(run(m, b), a),
    decreases b.len(),
{
    if b.len() > 0 {
        lemma_runs_commute(m, a, b.drop_last());
        lemma_step_through_run(run(m, b.drop_last()), b.last(), a);
    }
}

spec fn group1_steps<S: Scalar>(n1: nat, n2: nat, x1: S, x2: S) -> Seq<Step<S>> {
    Seq::empty()
        .push(node(n1))
        .push(node(n2))
        .push(cell(Target::TopLeft, n1, n1, x1))
        .push(cell(Target::TopLeft, n2, n2, x1))
        .push(cell(Target::TopLeft, n1, n2, x2))
        .push(cell(Target::TopLeft, n2, n1, x2))
}

spec fn group2_steps<S: Scalar>(n1: nat, n2: nat, e: nat, x1: S, x2: S, y: S) -> Seq<Step<S>> {
    Seq::empty()
        .push(node(n1))
        .push(node(n2))
        .push(edge(e))
        .push(cell(Target::BottomRight, e, e, y))
        .push(cell(Target::TopRight, n1, e, x1))
        .push(cell(Target::BottomLeft, e, n1, x1))
        .push(cell(Target::TopRight, n2, e, x2))
        .push(cell(Target::BottomLeft, e, n2, x2))
}

spec fn right_steps<S: Scalar>(n1: nat, n2: nat, e: nat, x1: S, x2: S, y: S) -> Seq<Step<S>> {
    Seq::empty()
        .push(node(n1))
        .push(node(n2))
        .push(edge(e))
        .push(cell(Target::BottomRight, e, e, y))
        .push(cell(Target::TopRight, n1, e, x1))
        .push(cell(Target::TopRight, n2, e, x2))
}

spec fn bottom_steps<S: Scalar>(n1: nat, n2: nat, e: nat, x1: S, x2: S, y: S) -> Seq<Step<S>> {
    Seq::empty()
        .push(node(n1))
        .push(node(n2))
        .push(edge(e))
        .push(cell(Target::BottomRight, e, e, y))
        .push(cell(Target::BottomLeft, e, n1, x1))
        .push(cell(Target::BottomLeft, e, n2, x2))
}

spec fn value_steps<S: Scalar>(e1: nat, e2: nat, y: S) -> Seq<Step<S>> {
    Seq::empty()
        .push(edge(e1))
        .push(edge(e2))
        .push(cell(Target::BottomRight, e1, e2, y))
}

/// Each stamp of the matrix is the run of its list of steps.
proof fn lemma_stamps_are_runs<S: Scalar>(
    m: MatrixModel<S>,
    n1: nat,
    n2: nat,
    e: nat,
    x1: S,
    x2: S,
    y: S,
)
    ensures
        run(m, group1_steps(n1, n2, x1, x2)) == m.add_symmetric_group1(n1, n2, x1, x2),
        run(m, group2_steps(n1, n2, e, x1, x2, y)) == m.add_symmetric_group2(n1, n2, e, x1, x2, y),
        run(m, right_steps(n1, n2, e, x1, x2, y)) == m.add_unsymmetric_right_group2(
            n1,
            n2,
            e,
            x1,
            x2,
            y,
        ),
        run(m, bottom_steps(n1, n2, e, x1, x2, y)) == m.add_unsymmetric_bottom_group2(
            n1,
            n2,
            e,
            x1,
            x2,
            y,
        ),
        run(m, value_steps(n1, n2, y)) == m.add_group2_value(n1, n2, y),
{
    let none = Seq::<Step<S>>::empty();
    {
        let s1 = none.push(node(n1));
        let s2 = s1.push(node(n2));
        let s3 = s2.push(cell(Target::TopLeft, n1, n1, x1));
        let s4 = s3.push(cell(Target::TopLeft, n2, n2, x1));
        let s5 = s4.push(cell(Target::TopLeft, n1, n2, x2));
        lemma_run_push(m, none, node(n1));
        lemma_run_push(m, s1, node(n2));
        lemma_run_push(m, s2, cell(Target::TopLeft, n1, n1, x1));
        lemma_run_push(m, s3, cell(Target::TopLeft, n2, n2, x1));
        lemma_run_push(m, s4, cell(Target::TopLeft, n1, n2, x2));
        lemma_run_push(m, s5, cell(Target::TopLeft, n2, n1, x2));
    }
    let s1 = none.push(node(n1));
    let s2 = s1.push(node(n2));
    let s3 = s2.push(edge(e));
    let s4 = s3.push(cell(Target::BottomRight, e, e, y));
    lemma_run_push(m, none, node(n1));
    lemma_run_push(m, s1, node(n2));
    lemma_run_push(m, s2, edge(e));
    lemma_run_push(m, s3, cell(Target::BottomRight, e, e, y));
    {
        let s5 = s4.push(cell(Target::TopRight, n1, e, x1));
        let s6 = s5.push(cell(Target::BottomLeft, e, n1, x1));
        let s7 = s6.push(cell(Target::TopRight, n2, e, x2));
        lemma_run_push(m, s4, cell(Target::TopRight, n1, e, x1));
        lemma_run_push(m, s5, cell(Target::BottomLeft, e, n1, x1));
        lemma_run_push(m, s6, cell(Target::TopRight, n2, e, x2));
        lemma_run_push(m, s7, cell(Target::BottomLeft, e, n2, x2));
    }
    {
        let s5 = s4.push(cell(Target::TopRight, n1, e, x1));
        lemma_run_push(m, s5, cell(Target::TopRight, n2, e, x2));
    }
    {
        let s5 = s4.push(cell(Target::BottomLeft, e, n1, x1));
        lemma_run_push(m, s4, cell(Target::BottomLeft, e, n1, x1));
        lemma_run_push(m, s5, cell(Target::BottomLeft, e, n2, x2));
    }
    {
        let t1 = none.push(edge(n1));
        let t2 = t1.push(edge(n2));
        lemma_run_push(m, none, edge(n1));
        lemma_run_push(m, t1, edge(n2));
        lemma_run_push(m, t2, cell(Target::BottomRight, n1, n2, y));
    }
}

/// The steps of the matrix stamp of an element. An element that cannot be
/// stamped has none.
spec fn matrix_steps<S: Scalar>(c: Component<S>) -> Seq<Step<S>> {
    let zero = S::spec_zero();
    let one = S::spec_one();
    let minus_one = S::spec_one().spec_negated();
    if c.stamp_error().is_some() {
        Seq::empty()
    } else {
        match c {
            Component::Resistor { term_1, term_2, current_index: None, resistance } => {
                let g = resistance.spec_reciprocal();
                group1_steps(term_1 as nat, term_2 as nat, g, g.spec_negated())
            },
            Component::Resistor { term_1, term_2, current_index: Some(e), resistance } => {
                group2_steps(
                    term_1 as nat,
                    term_2 as nat,
                    e as nat,
                    one,
                    minus_one,
                    resistance.spec_negated(),
                )
            },
            Component::IndependentVoltageSource { term_pos, term_neg, current_index, .. } => {
                group2_steps(
                    term_pos as nat,
                    term_neg as nat,
                    current_index as nat,
                    one,
                    minus_one,
                    zero,
                )
            },
            Component::IndependentCurrentSource {
                term_pos,
                term_neg,
                current_index: Some(e),
                ..
            } => { right_steps(term_pos as nat, term_neg as nat, e as nat, one, minus_one, one) },
            Component::VoltageControlledVoltageSource {
                term_pos,
                term_neg,
                ctrl_pos,
                ctrl_neg,
                current_index,
                voltage_scale,
            } => {
                group2_steps(
                    term_pos as nat,
                    term_neg as nat,
                    current_index as nat,
                    one,
                    minus_one,
                    zero,
                ) + bottom_steps(
                    ctrl_pos as nat,
                    ctrl_neg as nat,
                    current_index as nat,
                    voltage_scale.spec_negated(),
                    voltage_scale,
                    zero,
                )
            },
            Component::CurrentControlledVoltageSource {
                term_pos,
                term_neg,
                ctrl_edge,
                current_index,
                voltage_scale,
            } => {
                group2_steps(
                    term_pos as nat,
                    term_neg as nat,
                    current_index as nat,
                    one,
                    minus_one,
                    zero,
                ) + value_steps(
                    current_index as nat,
                    ctrl_edge as nat,
                    voltage_scale.spec_negated(),
                )
            },
            _ => Seq::empty(),
        }
    }
}

/// A right-hand side with the excitations `w` written over it.
spec fn overlay<S>(r: RhsModel<S>, w: RhsModel<S>) -> RhsModel<S> {
    RhsModel { top: r.top.union_prefer_right(w.top), bottom: r.bottom.union_prefer_right(w.bottom) }
}

/// The stamp of an element runs the steps of the element on the matrix and
/// writes the excitation of the element over the right-hand side.
proof fn lemma_stamp_in_parts<S: Scalar>(m: MnaModel<S>, c: Component<S>)
    ensures
        m.add_element_stamp(c) == (MnaModel {
            matrix: run(m.matrix, matrix_steps(c)),
            rhs: overlay(m.rhs, c.excitation()),
        }),
{
    let zero = S::spec_zero();
    let one = S::spec_one();
    let minus_one = S::spec_one().spec_negated();
    let after = m.add_element_stamp(c);
    let written = overlay(m.rhs, c.excitation());
    assert(after.rhs.top =~= written.top);
    assert(after.rhs.bottom =~= written.bottom);
    if c.stamp_error().is_none() {
        match c {
            Component::Resistor { term_1, term_2, current_index: None, resistance } => {
                let g = resistance.spec_reciprocal();
                lemma_stamps_are_runs(
                    m.matrix,
                    term_1 as nat,
                    term_2 as nat,
                    0,
                    g,
                    g.spec_negated(),
                    zero,
                );
            },
            Component::Resistor { term_1, term_2, current_index: Some(e), resistance } => {
                lemma_stamps_are_runs(
                    m.matrix,
                    term_1 as nat,
                    term_2 as nat,
                    e as nat,
                    one,
                    minus_one,
                    resistance.spec_negated(),
                );
            },
            Component::IndependentVoltageSource { term_pos, term_neg, current_index, .. } => {
                lemma_stamps_are_runs(
                    m.matrix,
                    term_pos as nat,
                    term_neg as nat,
                    current_index as nat,
                    one,
                    minus_one,
                    zero,
                );
            },
            Component::IndependentCurrentSource {
                term_pos,
                term_neg,
                current_index: Some(e),
                ..
            } => {
                lemma_stamps_are_runs(
                    m.matrix,
                    term_pos as nat,
                    term_neg as nat,
                    e as nat,
                    one,
                    minus_one,
                    one,
                );
            },
            Component::VoltageControlledVoltageSource {
                term_pos,
                term_neg,
                ctrl_pos,
                ctrl_neg,
                current_index,
                voltage_scale,
            } => {
                let first = group2_steps(
                    term_pos as nat,
                    term_neg as nat,
                    current_index as nat,
                    one,
                    minus_one,
                    zero,
                );
                let second = bottom_steps(
                    ctrl_pos as nat,
                    ctrl_neg as nat,
                    current_index as nat,
                    voltage_scale.spec_negated(),
                    voltage_scale,
                    zero,
                );
                lemma_run_concat(m.matrix, first, second);
                lemma_stamps_are_runs(
                    m.matrix,
                    term_pos as nat,
                    term_neg as nat,
                    current_index as nat,
                    one,
                    minus_one,
                    zero,
                );
                lemma_stamps_are_runs(
                    run(m.matrix, first),
                    ctrl_pos as nat,
                    ctrl_neg as nat,
                    current_index as nat,
                    voltage_scale.spec_negated(),
                    voltage_scale,
                    zero,
                );
            },
            Component::CurrentControlledVoltageSource {
                term_pos,
                term_neg,
                ctrl_edge,
                current_index,
                voltage_scale,
            } => {
                let first = group2_steps(
                    term_pos as nat,
                    term_neg as nat,
                    current_index as nat,
                    one,
                    minus_one,
                    zero,
                );
                let second = value_steps(
                    current_index as nat,
                    ctrl_edge as nat,
                    voltage_scale.spec_negated(),
                );
                lemma_run_concat(m.matrix, first, second);
                lemma_stamps_are_runs(
                    m.matrix,
                    term_pos as nat,
                    term_neg as nat,
                    current_index as nat,
                    one,
                    minus_one,
                    zero,
                );
                lemma_stamps_are_runs(
                    run(m.matrix, first),
                    current_index as nat,
                    ctrl_edge as nat,
                    0,
                    zero,
                    zero,
                    voltage_scale.spec_negated(),
                );
            },
            _ => {},
        }
    }
}

/// Two elements whose excitations agree can be stamped in either order.
pub proof fn lemma_stamps_commute<S: Scalar>(m: MnaModel<S>, a: Component<S>, b: Component<S>)
    requires
        plus_is_commutative::<S>(),
        plus_is_associative::<S>(),
        a.excitation_agrees(b),
    ensures
        m.add_element_stamp(a).add_element_stamp(b) == m.add_element_stamp(b).add_element_stamp(a),
{
    lemma_stamp_in_parts(m, a);
    lemma_stamp_in_parts(m, b);
    lemma_stamp_in_parts(m.add_element_stamp(a), b);
    lemma_stamp_in_parts(m.add_element_stamp(b), a);
    lemma_runs_commute(m.matrix, matrix_steps(a), matrix_steps(b));
    let ab = overlay(overlay(m.rhs, a.excitation()), b.excitation());
    let ba = overlay(overlay(m.rhs, b.excitation()), a.excitation());
    assert(ab.top =~= ba.top);
    assert(ab.bottom =~= ba.bottom);
}

/// An element of a list can be stamped last instead of in its place, where
/// its excitation agrees with that of every element behind it.
proof fn lemma_stamp_last<S: Scalar>(m: MnaModel<S>, cs: Seq<Component<S>>, i: int)
    requires
        plus_is_commutative::<S>(),
        plus_is_associative::<S>(),
        0 <= i < cs.len(),
        forall|j: int| i < j < cs.len() ==> cs[i].excitation_agrees(#[trigger] cs[j]),
    ensures
        m.add_element_stamps(cs) == m.add_element_stamps(cs.remove(i)).add_element_stamp(cs[i]),
    decreases cs.len(),
{
    if i == cs.len() - 1 {
        assert(cs.remove(i) =~= cs.drop_last());
    } else {
        let front = cs.drop_last();
        assert forall|j: int| i < j < front.len() implies cs[i].excitation_agrees(
            #[trigger] front[j],
        ) by {
            assert(front[j] == cs[j]);
        }
        lemma_stamp_last(m, front, i);
        lemma_stamps_commute(m.add_element_stamps(front.remove(i)), cs[i], cs.last());
        assert(cs.remove(i).drop_last() =~= front.remove(i));
        assert(cs.remove(i).last() == cs.last());
    }
}

/// Stamping the same elements in another order builds the same system: the
/// same counts, the same cells in every block, hence the same matrix, and the
/// same right-hand side.
///
/// This holds where addition is commutative and associative, and where no two
/// of the elements write different excitations for the same row: the stamps of
/// the matrix add to what is there, but an excitation replaces what was
/// written before it.
pub proof fn law_order_independence<S: Scalar>(
    m: MnaModel<S>,
    first: Seq<Component<S>>,
    second: Seq<Component<S>>,
)
    requires
        plus_is_commutative::<S>(),
        plus_is_associative::<S>(),
        first.to_multiset() == second.to_multiset(),
        forall|i: int, j: int|
            0 <= i < first.len() && 0 <= j < first.len() ==> (
            #[trigger] first[i]).excitation_agrees(#[trigger] first[j]),
    ensures
        m.add_element_stamps(first) == m.add_element_stamps(second),
        m.add_element_stamps(first).matrix.assembled() == m.add_element_stamps(
            second,
        ).matrix.assembled(),
        m.add_element_stamps(first).vector() == m.add_element_stamps(second).vector(),
    decreases first.len(),
{
    to_multiset_len(first);
    to_multiset_len(second);
    if first.len() > 0 {
        let x = first.last();
        let front = first.drop_last();
        assert(first =~= front.push(x));
        to_multiset_build(front, x);
        to_multiset_contains(first, x);
        to_multiset_contains(second, x);
        assert(first.contains(x));
        assert(second.contains(x));
        let i = choose|i: int| 0 <= i < second.len() && second[i] == x;
        let rest = second.remove(i);
        to_multiset_remove(second, i);
        assert(front.to_multiset() =~= rest.to_multiset());
        assert forall|j: int| 0 <= j < second.len() implies x.excitation_agrees(
            #[trigger] second[j],
        ) by {
            to_multiset_contains(second, second[j]);
            to_multiset_contains(first, second[j]);
            assert(second.contains(second[j]));
            let k = choose|k: int| 0 <= k < first.len() && first[k] == second[j];
            assert(first[first.len() - 1].excitation_agrees(first[k]));
        }
        lemma_stamp_last(m, second, i);
        assert forall|a: int, b: int| 0 <= a < front.len() && 0 <= b < front.len() implies (
        #[trigger] front[a]).excitation_agrees(#[trigger] front[b]) by {
            assert(front[a] == first[a]);
            assert(front[b] == first[b]);
        }
        law_order_independence(m, front, rest);
    }
}

} // verus!
