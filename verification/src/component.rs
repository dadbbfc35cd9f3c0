//! The elements of a circuit, and the ways in which stamping one can fail.

use vstd::prelude::*;

verus! {

/// One element of a circuit.
///
/// A terminal is the index of a circuit node, and node 0 is ground. A current
/// index names the unknown that stands for the current through the element,
/// counted from 0.
#[allow(inconsistent_fields)]
#[derive(Debug, PartialEq)]
pub enum Component<S> {
    /// A resistor between two nodes. With a current index, the current through
    /// it becomes an unknown of the system.
    Resistor { term_1: usize, term_2: usize, current_index: Option<usize>, resistance: S },
    /// A source that holds `term_pos` at `voltage` above `term_neg`.
    IndependentVoltageSource { term_pos: usize, term_neg: usize, current_index: usize, voltage: S },
    /// A source that drives `current` from `term_pos` through itself to
    /// `term_neg`. With a current index, that current becomes an unknown of the
    /// system.
    IndependentCurrentSource {
        term_pos: usize,
        term_neg: usize,
        current_index: Option<usize>,
        current: S,
    },
    /// A source that holds `term_pos` above `term_neg` by `voltage_scale` times
    /// the voltage from `ctrl_neg` to `ctrl_pos`.
    VoltageControlledVoltageSource {
        term_pos: usize,
        term_neg: usize,
        ctrl_pos: usize,
        ctrl_neg: usize,
        current_index: usize,
        voltage_scale: S,
    },
    /// A source that holds `term_pos` above `term_neg` by `voltage_scale` times
    /// the current with index `ctrl_edge`.
    CurrentControlledVoltageSource {
        term_pos: usize,
        term_neg: usize,
        ctrl_edge: usize,
        current_index: usize,
        voltage_scale: S,
    },
    /// A source that drives, from `term_pos` to `term_neg`, `current_scale`
    /// times the voltage from `ctrl_neg` to `ctrl_pos`.
    VoltageControlledCurrentSource {
        term_pos: usize,
        term_neg: usize,
        ctrl_pos: usize,
        ctrl_neg: usize,
        current_index: Option<usize>,
        current_scale: S,
    },
    /// A source that drives, from `term_pos` to `term_neg`, `current_scale`
    /// times the current with index `ctrl_edge`.
    CurrentControlledCurrentSource {
        term_pos: usize,
        term_neg: usize,
        ctrl_edge: usize,
        current_index: Option<usize>,
        current_scale: S,
    },
}

impl<S: Copy> Clone for Component<S> {
    fn clone(&self) -> (c: Self)
        ensures
            c == *self,
    {
        *self
    }
}

impl<S: Copy> Copy for Component<S> {

}

/// Why an element was not stamped.
#[derive(Clone, Copy, Debug, PartialEq, Eq, Structural)]
pub enum StampError {
    /// Two terminals that must differ name the same node.
    InvalidTopology,
    /// No stamp is defined for this kind of element.
    UnsupportedElement,
}

impl<S> Component<S> {
    /// Why the element cannot be stamped, if it cannot.
    ///
    /// An element that stamps the matrix between two terminals is rejected
    /// where the two are the same node. A source that is controlled by a
    /// voltage is rejected as well where its two controlling nodes are the
    /// same. A current source without a current index stamps no matrix cell and
    /// is accepted with any terminals. The controlled current sources have no
    /// stamp.
    pub open spec fn stamp_error(self) -> Option<StampError> {
        match self {
            Component::Resistor { term_1, term_2, .. } => if term_1 == term_2 {
                Some(StampError::InvalidTopology)
            } else {
                None
            },
            Component::IndependentVoltageSource { term_pos, term_neg, .. } => if term_pos
                == term_neg {
                Some(StampError::InvalidTopology)
            } else {
                None
            },
            Component::IndependentCurrentSource {
                term_pos,
                term_neg,
                current_index: Some(_),
                ..
            } => if term_pos == term_neg {
                Some(StampError::InvalidTopology)
            } else {
                None
            },
            Component::IndependentCurrentSource { current_index: None, .. } => None,
            Component::VoltageControlledVoltageSource {
                term_pos,
                term_neg,
                ctrl_pos,
                ctrl_neg,
                ..
            } => if term_pos == term_neg || ctrl_pos == ctrl_neg {
                Some(StampError::InvalidTopology)
            } else {
                None
            },
            Component::CurrentControlledVoltageSource { term_pos, term_neg, .. } => if term_pos
                == term_neg {
                Some(StampError::InvalidTopology)
            } else {
                None
            },
            Component::VoltageControlledCurrentSource { .. } => Some(
                StampError::UnsupportedElement,
            ),
            Component::CurrentControlledCurrentSource { .. } => Some(
                StampError::UnsupportedElement,
            ),
        }
    }

    /// Every current index that the stamp of the element uses leaves room for
    /// the count of the currents, which is one more than the largest index.
    pub open spec fn spec_indices_fit(&self) -> bool {
        match *self {
            Component::Resistor { current_index: Some(e), .. } => e < usize::MAX,
            Component::Resistor { current_index: None, .. } => true,
            Component::IndependentVoltageSource { current_index, .. } => current_index < usize::MAX,
            Component::IndependentCurrentSource { current_index: Some(e), .. } => e < usize::MAX,
            Component::IndependentCurrentSource { current_index: None, .. } => true,
            Component::VoltageControlledVoltageSource { current_index, .. } => current_index
                < usize::MAX,
            Component::CurrentControlledVoltageSource { ctrl_edge, current_index, .. } => ctrl_edge
                < usize::MAX && current_index < usize::MAX,
            Component::VoltageControlledCurrentSource { .. } => true,
            Component::CurrentControlledCurrentSource { .. } => true,
        }
    }

    /// Whether every current index that the stamp of the element uses leaves
    /// room for the count of the currents, which is one more than the largest
    /// index. Only such an element can be offered for stamping.
    #[verifier::when_used_as_spec(spec_indices_fit)]
    pub fn indices_fit(&self) -> (fit: bool)
        ensures
            fit == self.spec_indices_fit(),
    {
        match self {
            Component::Resistor { current_index: Some(e), .. } => *e < usize::MAX,
            Component::IndependentVoltageSource { current_index, .. } => *current_index
                < usize::MAX,
            Component::IndependentCurrentSource { current_index: Some(e), .. } => *e < usize::MAX,
            Component::VoltageControlledVoltageSource { current_index, .. } => *current_index
                < usize::MAX,
            Component::CurrentControlledVoltageSource { ctrl_edge, current_index, .. } => *ctrl_edge
                < usize::MAX && *current_index < usize::MAX,
            _ => true,
        }
    }
}

} // verus!
