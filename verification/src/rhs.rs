//! The right-hand side of the system, kept as two growing columns.

use crate::scalar::Scalar;
use crate::sparse::{cells_of, Entry, SparseMat};
use vstd::prelude::*;

verus! {

/// The first column of a block, as a map from the row to the value.
pub open spec fn first_column<S>(cells: Map<(int, int), S>) -> Map<int, S> {
    Map::new(|row: int| cells.contains_key((row, 0)), |row: int| cells[(row, 0)])
}

/// The value of a column at a row: what was written there, and zero where
/// nothing was.
pub open spec fn column_value<S: Scalar>(column: Map<int, S>, row: int) -> S {
    if column.contains_key(row) {
        column[row]
    } else {
        S::spec_zero()
    }
}

/// The first `len` values of a column.
pub open spec fn segment<S: Scalar>(column: Map<int, S>, len: nat) -> Seq<S> {
    Seq::new(len, |row: int| column_value(column, row))
}

/// What a right-hand side under construction holds.
pub struct RhsModel<S> {
    /// The excitation written for each node row.
    pub top: Map<int, S>,
    /// The excitation written for each current row.
    pub bottom: Map<int, S>,
}

impl<S: Scalar> RhsModel<S> {
    /// The model of a right-hand side in which nothing is written.
    pub open spec fn empty() -> Self {
        RhsModel { top: Map::empty(), bottom: Map::empty() }
    }

    /// The model after `x` was written for the node `n`. Ground has no row.
    pub open spec fn add_rhs_group1(self, n: nat, x: S) -> Self {
        if n == 0 {
            self
        } else {
            RhsModel { top: self.top.insert(n - 1, x), ..self }
        }
    }

    /// The model after `x` was written for the current `e`.
    pub open spec fn add_rhs_group2(self, e: nat, x: S) -> Self {
        RhsModel { bottom: self.bottom.insert(e as int, x), ..self }
    }

    /// The vector of a system with the given numbers of nodes and currents:
    /// the node rows first, the current rows after them, zero where nothing
    /// was written. What was written for a row that the system does not have
    /// is left out.
    pub open spec fn vector(self, num_voltage_nodes: nat, num_current_edges: nat) -> Seq<S> {
        segment(self.top, num_voltage_nodes) + segment(self.bottom, num_current_edges)
    }
}

/// The right-hand side of the system while it is being built.
pub struct MnaRhs<S> {
    top: SparseMat<S>,
    bottom: SparseMat<S>,
}

impl<S> View for MnaRhs<S> {
    type V = RhsModel<S>;

    closed spec fn view(&self) -> RhsModel<S> {
        RhsModel { top: first_column(self.top@), bottom: first_column(self.bottom@) }
    }
}

/// Writes the first column of `block` into `out`, row `i` of the block at
/// index `offset + i`, for the rows below `len`.
fn scatter<S: Scalar>(out: &mut Vec<S>, block: &SparseMat<S>, offset: usize, len: usize)
    requires
        offset + len <= old(out)@.len(),
    ensures
        final(out)@.len() == old(out)@.len(),
        forall|k: int|
            0 <= k < old(out)@.len() ==> #[trigger] final(out)@[k] == if offset <= k < offset + len
                && first_column(block@).contains_key(k - offset) {
                first_column(block@)[k - offset]
            } else {
                old(out)@[k]
            },
{
    let entries = block.non_zero_vals();
    let size: usize = out.len();
    let mut j: usize = 0;
    proof {
        assert(entries@.take(0) =~= Seq::<Entry<S>>::empty());
    }
    while j < entries.len()
        invariant
            j <= entries@.len(),
            offset + len <= size,
            out@.len() == size,
            old(out)@.len() == size,
            forall|k: int|
                0 <= k < out@.len() ==> #[trigger] out@[k] == if offset <= k < offset + len
                    && first_column(cells_of(entries@.take(j as int))).contains_key(k - offset) {
                    first_column(cells_of(entries@.take(j as int)))[k - offset]
                } else {
                    old(out)@[k]
                },
        decreases entries@.len() - j,
    {
        let e = &entries[j];
        proof {
            assert(entries@.take(j + 1).drop_last() == entries@.take(j as int));
            assert(entries@.take(j + 1).last() == entries@[j as int]);
        }
        if e.col == 0 && e.row < len {
            out.set(offset + e.row, e.value);
        }
        j += 1;
    }
    proof {
        assert(entries@.take(entries@.len() as int) == entries@);
    }
}

impl<S: Scalar> MnaRhs<S> {
    /// A right-hand side in which nothing is written.
    pub fn new() -> (r: Self)
        ensures
            r@ == RhsModel::<S>::empty(),
    {
        let r = MnaRhs { top: SparseMat::empty(), bottom: SparseMat::empty() };
        proof {
            assert(r@.top =~= Map::<int, S>::empty());
            assert(r@.bottom =~= Map::<int, S>::empty());
        }
        r
    }

    /// The excitations of the node rows, as they stand: a block whose first
    /// column holds them.
    pub fn top(&self) -> (block: &SparseMat<S>)
        ensures
            first_column(block@) == self@.top,
    {
        &self.top
    }

    /// The excitations of the current rows, as they stand: a block whose first
    /// column holds them.
    pub fn bottom(&self) -> (block: &SparseMat<S>)
        ensures
            first_column(block@) == self@.bottom,
    {
        &self.bottom
    }

    /// Writes the excitation `x` for the node `n`, in place of what was
    /// written for it before. Ground has no row, so nothing is written for it.
    pub fn add_rhs_group1(&mut self, n: usize, x: S)
        ensures
            final(self)@ == old(self)@.add_rhs_group1(n as nat, x),
    {
        if n != 0 {
            self.top.insert_unbounded(n - 1, 0, x);
            proof {
                assert(final(self)@.top =~= old(self)@.top.insert(n - 1, x));
            }
        }
    }

    /// Writes the excitation `x` for the current `e`, in place of what was
    /// written for it before.
    pub fn add_rhs_group2(&mut self, e: usize, x: S)
        requires
            e < usize::MAX,
        ensures
            final(self)@ == old(self)@.add_rhs_group2(e as nat, x),
    {
        self.bottom.insert_unbounded(e, 0, x);
        proof {
            assert(final(self)@.bottom =~= old(self)@.bottom.insert(e as int, x));
        }
    }

    /// The vector of a system with the given numbers of nodes and currents.
    ///
    /// It has one value for each node and, after them, one for each current:
    /// what was written for the row, and zero where nothing was.
    pub fn get_vector(self, num_voltage_nodes: usize, num_current_edges: usize) -> (v: Vec<S>)
        requires
            num_voltage_nodes + num_current_edges <= usize::MAX,
        ensures
            v@ == self@.vector(num_voltage_nodes as nat, num_current_edges as nat),
    {
        let total: usize = num_voltage_nodes + num_current_edges;
        let mut out: Vec<S> = Vec::new();
        let mut i: usize = 0;
        while i < total
            invariant
                i <= total,
                out@.len() == i,
                forall|k: int| 0 <= k < i ==> out@[k] == S::spec_zero(),
            decreases total - i,
        {
            out.push(S::zero());
            i += 1;
        }
        scatter(&mut out, &self.top, 0, num_voltage_nodes);
        scatter(&mut out, &self.bottom, num_voltage_nodes, num_current_edges);
        proof {
            assert(out@ =~= self@.vector(num_voltage_nodes as nat, num_current_edges as nat));
        }
        out
    }
}

} // verus!
