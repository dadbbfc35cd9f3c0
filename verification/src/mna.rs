//! The assembly of the whole system, element by element.

use crate::component::{Component, StampError};
use crate::matrix::{MatrixModel, MnaMatrix};
use crate::rhs::{MnaRhs, RhsModel};
use crate::scalar::Scalar;
use crate::sparse::SparseMat;
use vstd::prelude::*;

verus! {

/// What a system under construction holds.
pub struct MnaModel<S> {
    /// The coefficient matrix, in its four blocks.
    pub matrix: MatrixModel<S>,
    /// The right-hand side, in its two segments.
    pub rhs: RhsModel<S>,
}

impl<S: Scalar> MnaModel<S> {
    /// The model of a system without elements.
    pub open spec fn empty() -> Self {
        MnaModel { matrix: MatrixModel::empty(), rhs: RhsModel::empty() }
    }

    /// The coefficient matrix after the stamp of an element that can be
    /// stamped.
    ///
    /// A resistor without a current index stamps its conductance between its
    /// two nodes. Every element with a current index couples that current with
    /// its two nodes by 1 and -1: a resistor in both directions, with the
    /// inverse of its resistance on the diagonal of the current; a voltage
    /// source in both directions; a current source in the column of the
    /// current only, with 1 on the diagonal. A voltage source that is
    /// controlled by a voltage adds the inverse of its scale and its scale in
    /// the row of the current, at its two controlling nodes. A voltage source
    /// that is controlled by a current adds the inverse of its scale where its
    /// own current meets the controlling one. A current source without a
    /// current index leaves the matrix as it is.
    pub open spec fn stamp_matrix(matrix: MatrixModel<S>, c: Component<S>) -> MatrixModel<S> {
        let zero = S::spec_zero();
        let one = S::spec_one();
        let minus_one = S::spec_one().spec_negated();
        match c {
            Component::Resistor { term_1, term_2, current_index: None, resistance } => {
                let g = resistance.spec_reciprocal();
                matrix.add_symmetric_group1(term_1 as nat, term_2 as nat, g, g.spec_negated())
            },
            Component::Resistor { term_1, term_2, current_index: Some(e), resistance } => {
                matrix.add_symmetric_group2(
                    term_1 as nat,
                    term_2 as nat,
                    e as nat,
                    one,
                    minus_one,
                    resistance.spec_negated(),
                )
            },
            Component::IndependentVoltageSource { term_pos, term_neg, current_index, .. } => {
                matrix.add_symmetric_group2(
                    term_pos as nat,
                    term_neg as nat,
                    current_index as nat,
                    one,
                    minus_one,
                    zero,
                )
            },
            Component::IndependentCurrentSource {
                term_pos,
                term_neg,
                current_index: Some(e),
                ..
            } => {
                matrix.add_unsymmetric_right_group2(
                    term_pos as nat,
                    term_neg as nat,
                    e as nat,
                    one,
                    minus_one,
                    one,
                )
            },
            Component::IndependentCurrentSource { current_index: None, .. } => matrix,
            Component::VoltageControlledVoltageSource {
                term_pos,
                term_neg,
                ctrl_pos,
                ctrl_neg,
                current_index,
                voltage_scale,
            } => {
                matrix.add_symmetric_group2(
                    term_pos as nat,
                    term_neg as nat,
                    current_index as nat,
                    one,
                    minus_one,
                    zero,
                ).add_unsymmetric_bottom_group2(
                    ctrl_pos as nat,
                    ctrl_neg as nat,
                    current_index as nat,
                    voltage_scale.spec_negated(),
                    voltage_scale,
                    zero,
                )
            },
            Component::CurrentControlledVoltageSource {
                term_pos,
                term_neg,
                ctrl_edge,
                current_index,
                voltage_scale,
            } => {
                matrix.add_symmetric_group2(
                    term_pos as nat,
                    term_neg as nat,
                    current_index as nat,
                    one,
                    minus_one,
                    zero,
                ).add_group2_value(
                    current_index as nat,
                    ctrl_edge as nat,
                    voltage_scale.spec_negated(),
                )
            },
            Component::VoltageControlledCurrentSource { .. } => matrix,
            Component::CurrentControlledCurrentSource { .. } => matrix,
        }
    }

    /// The right-hand side after the stamp of an element that can be stamped.
    ///
    /// An independent source with a current index writes its value for that
    /// current. A current source without one writes the inverse of its value
    /// for its positive node and then its value for its negative node. Every
    /// other element leaves the right-hand side as it is.
    pub open spec fn stamp_rhs(rhs: RhsModel<S>, c: Component<S>) -> RhsModel<S> {
        match c {
            Component::IndependentVoltageSource { current_index, voltage, .. } => {
                rhs.add_rhs_group2(current_index as nat, voltage)
            },
            Component::IndependentCurrentSource { current_index: Some(e), current, .. } => {
                rhs.add_rhs_group2(e as nat, current)
            },
            Component::IndependentCurrentSource {
                term_pos,
                term_neg,
                current_index: None,
                current,
            } => {
                rhs.add_rhs_group1(term_pos as nat, current.spec_negated()).add_rhs_group1(
                    term_neg as nat,
                    current,
                )
            },
            _ => rhs,
        }
    }

    /// The system after an element was offered for stamping: stamped where the
    /// element can be, and as before where it cannot.
    pub open spec fn add_element_stamp(self, c: Component<S>) -> Self {
        if c.stamp_error().is_some() {
            self
        } else {
            MnaModel {
                matrix: Self::stamp_matrix(self.matrix, c),
                rhs: Self::stamp_rhs(self.rhs, c),
            }
        }
    }

    /// The right-hand side of the whole system: one value for each node and,
    /// after them, one for each current.
    pub open spec fn vector(self) -> Seq<S> {
        self.rhs.vector(self.matrix.num_voltage_nodes, self.matrix.num_current_edges)
    }

    /// The system after a list of elements was offered for stamping, one after
    /// the other.
    pub open spec fn add_element_stamps(self, cs: Seq<Component<S>>) -> Self
        decreases cs.len(),
    {
        if cs.len() == 0 {
            self
        } else {
            self.add_element_stamps(cs.drop_last()).add_element_stamp(cs.last())
        }
    }
}

impl<S: Scalar> Component<S> {
    /// What the stamp of the element writes into a right-hand side in which
    /// nothing was written. An element that cannot be stamped writes nothing.
    pub open spec fn excitation(self) -> RhsModel<S> {
        if self.stamp_error().is_some() {
            RhsModel::empty()
        } else {
            MnaModel::stamp_rhs(RhsModel::empty(), self)
        }
    }

    /// The two elements write the same value wherever both write an
    /// excitation for the same row.
    pub open spec fn excitation_agrees(self, other: Self) -> bool {
        &&& self.excitation().top.agrees(other.excitation().top)
        &&& self.excitation().bottom.agrees(other.excitation().bottom)
    }
}

/// The linear system of a circuit while it is being built.
///
/// Elements are stamped one by one, in any order. [`Mna::get_system`] then
/// hands out the matrix and the right-hand side. The unknowns of the system
/// are the voltages of the nodes 1, 2, ... and, after them, the currents 0, 1,
/// ...
pub struct Mna<S> {
    matrix: MnaMatrix<S>,
    rhs: MnaRhs<S>,
}

impl<S> View for Mna<S> {
    type V = MnaModel<S>;

    closed spec fn view(&self) -> MnaModel<S> {
        MnaModel { matrix: self.matrix@, rhs: self.rhs@ }
    }
}

impl<S: Scalar> Mna<S> {
    /// A system without elements.
    pub fn new() -> (m: Self)
        ensures
            m@ == MnaModel::<S>::empty(),
    {
        Mna { matrix: MnaMatrix::new(), rhs: MnaRhs::new() }
    }

    /// The number of node voltages among the unknowns.
    pub fn num_voltage_nodes(&self) -> (n: usize)
        ensures
            n == self@.matrix.num_voltage_nodes,
    {
        self.matrix.num_voltage_nodes()
    }

    /// The number of currents among the unknowns.
    pub fn num_current_edges(&self) -> (n: usize)
        ensures
            n == self@.matrix.num_current_edges,
    {
        self.matrix.num_current_edges()
    }

    /// The coefficient matrix, as it stands.
    pub fn matrix(&self) -> (matrix: &MnaMatrix<S>)
        ensures
            matrix@ == self@.matrix,
    {
        &self.matrix
    }

    /// The right-hand side, as it stands.
    pub fn rhs(&self) -> (rhs: &MnaRhs<S>)
        ensures
            rhs@ == self@.rhs,
    {
        &self.rhs
    }

    /// Stamps one element into the system.
    ///
    /// What is stamped depends on the kind of the element: see
    /// [`MnaModel::stamp_matrix`] and [`MnaModel::stamp_rhs`]. An element that
    /// cannot be stamped is reported and leaves the system as it was: see
    /// [`Component::stamp_error`].
    pub fn add_element_stamp(&mut self, component: &Component<S>) -> (r: Result<(), StampError>)
        requires
            component.indices_fit(),
        ensures
            r == match component.stamp_error() {
                Some(e) => Err::<(), StampError>(e),
                None => Ok::<(), StampError>(()),
            },
            final(self)@ == old(self)@.add_element_stamp(*component),
    {
        match component {
            Component::Resistor { term_1, term_2, current_index, resistance } => {
                match current_index {
                    Some(edge) => {
                        let one = S::one();
                        self.matrix.add_symmetric_group2(
                            *term_1,
                            *term_2,
                            *edge,
                            one,
                            one.negated(),
                            resistance.negated(),
                        )
                    },
                    None => {
                        let g = resistance.reciprocal();
                        self.matrix.add_symmetric_group1(*term_1, *term_2, g, g.negated())
                    },
                }
            },
            Component::IndependentVoltageSource { term_pos, term_neg, current_index, voltage } => {
                let one = S::one();
                self.matrix.add_symmetric_group2(
                    *term_pos,
                    *term_neg,
                    *current_index,
                    one,
                    one.negated(),
                    S::zero(),
                )?;
                self.rhs.add_rhs_group2(*current_index, *voltage);
                Ok(())
            },
            Component::VoltageControlledVoltageSource {
                term_pos,
                term_neg,
                ctrl_pos,
                ctrl_neg,
                current_index,
                voltage_scale,
            } => {
                if *ctrl_pos == *ctrl_neg {
                    return Err(StampError::InvalidTopology);
                }
                let one = S::one();
                self.matrix.add_symmetric_group2(
                    *term_pos,
                    *term_neg,
                    *current_index,
                    one,
                    one.negated(),
                    S::zero(),
                )?;
                self.matrix.add_unsymmetric_bottom_group2(
                    *ctrl_pos,
                    *ctrl_neg,
                    *current_index,
                    voltage_scale.negated(),
                    *voltage_scale,
                    S::zero(),
                )
            },
            Component::CurrentControlledVoltageSource {
                term_pos,
                term_neg,
                ctrl_edge,
                current_index,
                voltage_scale,
            } => {
                let one = S::one();
                self.matrix.add_symmetric_group2(
                    *term_pos,
                    *term_neg,
                    *current_index,
                    one,
                    one.negated(),
                    S::zero(),
                )?;
                self.matrix.add_group2_value(*current_index, *ctrl_edge, voltage_scale.negated());
                Ok(())
            },
            Component::IndependentCurrentSource { term_pos, term_neg, current_index, current } => {
                match current_index {
                    Some(edge) => {
                        let one = S::one();
                        self.matrix.add_unsymmetric_right_group2(
                            *term_pos,
                            *term_neg,
                            *edge,
                            one,
                            one.negated(),
                            one,
                        )?;
                        self.rhs.add_rhs_group2(*edge, *current);
                        Ok(())
                    },
                    None => {
                        self.rhs.add_rhs_group1(*term_pos, current.negated());
                        self.rhs.add_rhs_group1(*term_neg, *current);
                        Ok(())
                    },
                }
            },
            _ => Err(StampError::UnsupportedElement),
        }
    }

    /// Hands out the finished system: the matrix and the right-hand side.
    ///
    /// The matrix is square and the right-hand side has one value for each of
    /// its rows: first the rows of the nodes, then those of the currents.
    pub fn get_system(self) -> (system: (SparseMat<S>, Vec<S>))
        requires
            self@.matrix.num_voltage_nodes + self@.matrix.num_current_edges <= usize::MAX,
        ensures
            system.1@.len() == system.0.spec_num_rows(),
            system.0.spec_num_rows() == self@.matrix.num_voltage_nodes
                + self@.matrix.num_current_edges,
            system.0.spec_num_cols() == self@.matrix.num_voltage_nodes
                + self@.matrix.num_current_edges,
            system.0@ == self@.matrix.assembled(),
            system.1@ == self@.vector(),
    {
        let num_voltage_nodes = self.matrix.num_voltage_nodes();
        let num_current_edges = self.matrix.num_current_edges();
        let matrix = self.matrix.get_matrix();
        let rhs = self.rhs.get_vector(num_voltage_nodes, num_current_edges);
        (matrix, rhs)
    }
}

} // verus!
