//! Assembly of the linear system of modified nodal analysis.
//!
//! A circuit is a list of elements between numbered nodes, node 0 being
//! ground. [`Mna`] takes the elements one by one and stamps each into a
//! coefficient matrix and a right-hand side, whose solution holds the voltage
//! of every node and the current through every element that asked for one.
//! The values are of any type that implements [`Scalar`].

pub mod component;
pub mod laws;
pub mod matrix;
pub mod mna;
pub mod order;
pub mod rhs;
pub mod scalar;
pub mod sparse;

pub use component::{Component, StampError};
pub use matrix::{plus_equals, MatrixModel, MnaMatrix};
pub use mna::{Mna, MnaModel};
pub use rhs::{MnaRhs, RhsModel};
pub use scalar::Scalar;
pub use sparse::{concat_horizontal, concat_vertical, Entry, SparseMat};
