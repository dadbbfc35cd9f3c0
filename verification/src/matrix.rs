//! The coefficient matrix of the system, kept as four growing blocks.

use crate::component::StampError;
use crate::scalar::Scalar;
use crate::sparse::{
    cell_value, cells_within, concat_horizontal, concat_vertical, positions_within, shift_cells,
    SparseMat,
};
use vstd::prelude::*;

verus! {

/// The cells of a block after `x` was added to the cell at (`row`, `col`).
pub open spec fn accumulate<S: Scalar>(cells: Map<(int, int), S>, row: int, col: int, x: S) -> Map<
    (int, int),
    S,
> {
    cells.insert((row, col), cell_value(cells, row, col).spec_plus(x))
}

/// The larger of two numbers.
pub open spec fn larger(a: nat, b: nat) -> nat {
    if a >= b {
        a
    } else {
        b
    }
}

/// Adds `val` to the cell at (`row`, `col`) of `mat`, which grows to hold it.
pub fn plus_equals<S: Scalar>(mat: &mut SparseMat<S>, row: usize, col: usize, val: S)
    requires
        row < usize::MAX,
        col < usize::MAX,
    ensures
        final(mat)@ == accumulate(old(mat)@, row as int, col as int, val),
        final(mat).spec_num_rows() == larger(old(mat).spec_num_rows(), row as nat + 1),
        final(mat).spec_num_cols() == larger(old(mat).spec_num_cols(), col as nat + 1),
{
    let old_val = mat.get_unbounded(row, col);
    mat.insert_unbounded(row, col, old_val.plus(&val));
}

/// What a coefficient matrix under construction holds.
pub struct MatrixModel<S> {
    /// The largest node index stamped so far.
    pub num_voltage_nodes: nat,
    /// One more than the largest current index stamped so far.
    pub num_current_edges: nat,
    /// Node rows, node columns.
    pub top_left: Map<(int, int), S>,
    /// Node rows, current columns.
    pub top_right: Map<(int, int), S>,
    /// Current rows, node columns.
    pub bottom_left: Map<(int, int), S>,
    /// Current rows, current columns.
    pub bottom_right: Map<(int, int), S>,
}

impl<S: Scalar> MatrixModel<S> {
    /// The model of a matrix without nodes, currents or cells.
    pub open spec fn empty() -> Self {
        MatrixModel {
            num_voltage_nodes: 0,
            num_current_edges: 0,
            top_left: Map::empty(),
            top_right: Map::empty(),
            bottom_left: Map::empty(),
            bottom_right: Map::empty(),
        }
    }

    /// The model with the node `n` counted in.
    pub open spec fn with_node(self, n: nat) -> Self {
        MatrixModel { num_voltage_nodes: larger(self.num_voltage_nodes, n), ..self }
    }

    /// The model with the current index `e` counted in.
    pub open spec fn with_edge(self, e: nat) -> Self {
        MatrixModel { num_current_edges: larger(self.num_current_edges, e + 1), ..self }
    }

    /// The model with `x` added to the cell of node `n` and current `e` in the
    /// top right block, unless the node is ground.
    pub open spec fn add_top_right(self, n: nat, e: nat, x: S) -> Self {
        if n == 0 {
            self
        } else {
            MatrixModel { top_right: accumulate(self.top_right, n - 1, e as int, x), ..self }
        }
    }

    /// The model with `x` added to the cell of current `e` and node `n` in the
    /// bottom left block, unless the node is ground.
    pub open spec fn add_bottom_left(self, e: nat, n: nat, x: S) -> Self {
        if n == 0 {
            self
        } else {
            MatrixModel { bottom_left: accumulate(self.bottom_left, e as int, n - 1, x), ..self }
        }
    }

    /// The model with `y` added to the cell of the currents `e1` and `e2` in the
    /// bottom right block.
    pub open spec fn add_bottom_right(self, e1: nat, e2: nat, y: S) -> Self {
        MatrixModel { bottom_right: accumulate(self.bottom_right, e1 as int, e2 as int, y), ..self }
    }

    /// The model with `x` added to the cell of the nodes `n1` and `n2` in the
    /// top left block, unless one of them is ground.
    pub open spec fn add_top_left(self, n1: nat, n2: nat, x: S) -> Self {
        if n1 == 0 || n2 == 0 {
            self
        } else {
            MatrixModel { top_left: accumulate(self.top_left, n1 - 1, n2 - 1, x), ..self }
        }
    }

    /// The model after a symmetric stamp between the two nodes `n1` and `n2`:
    /// `x1` on the diagonal of each node that is not ground, and `x2` on the
    /// two cells that couple them, if neither is ground.
    pub open spec fn add_symmetric_group1(self, n1: nat, n2: nat, x1: S, x2: S) -> Self {
        self.with_node(n1).with_node(n2).add_top_left(n1, n1, x1).add_top_left(n2, n2, x1)
            .add_top_left(n1, n2, x2).add_top_left(n2, n1, x2)
    }

    /// The model after a stamp that couples the current `e` with the nodes
    /// `n1` and `n2` in both directions: `y` on the diagonal of the current,
    /// `x1` in the column and in the row of the current at `n1`, and `x2` at
    /// `n2`. Ground gets nothing.
    pub open spec fn add_symmetric_group2(
        self,
        n1: nat,
        n2: nat,
        e: nat,
        x1: S,
        x2: S,
        y: S,
    ) -> Self {
        self.with_node(n1).with_node(n2).with_edge(e).add_bottom_right(e, e, y).add_top_right(
            n1,
            e,
            x1,
        ).add_bottom_left(e, n1, x1).add_top_right(n2, e, x2).add_bottom_left(e, n2, x2)
    }

    /// The model after a stamp that writes the column of the current `e` only:
    /// `y` on the diagonal of the current, `x1` at the row of `n1` and `x2` at
    /// the row of `n2`. Ground gets nothing.
    pub open spec fn add_unsymmetric_right_group2(
        self,
        n1: nat,
        n2: nat,
        e: nat,
        x1: S,
        x2: S,
        y: S,
    ) -> Self {
        self.with_node(n1).with_node(n2).with_edge(e).add_bottom_right(e, e, y).add_top_right(
            n1,
            e,
            x1,
        ).add_top_right(n2, e, x2)
    }

    /// The model after a stamp that writes the row of the current `e` only:
    /// `y` on the diagonal of the current, `x1` at the column of `n1` and `x2`
    /// at the column of `n2`. Ground gets nothing.
    pub open spec fn add_unsymmetric_bottom_group2(
        self,
        n1: nat,
        n2: nat,
        e: nat,
        x1: S,
        x2: S,
        y: S,
    ) -> Self {
        self.with_node(n1).with_node(n2).with_edge(e).add_bottom_right(e, e, y).add_bottom_left(
            e,
            n1,
            x1,
        ).add_bottom_left(e, n2, x2)
    }

    /// The model after `y` was added to the cell that couples the current `e1`
    /// with the current `e2`.
    pub open spec fn add_group2_value(self, e1: nat, e2: nat, y: S) -> Self {
        self.with_edge(e1).with_edge(e2).add_bottom_right(e1, e2, y)
    }

    /// Every stored cell lies inside its block, as the two counts bound it.
    pub open spec fn within_counts(self) -> bool {
        let n = self.num_voltage_nodes as int;
        let m = self.num_current_edges as int;
        &&& cells_within(self.top_left, n, n)
        &&& cells_within(self.top_right, n, m)
        &&& cells_within(self.bottom_left, m, n)
        &&& cells_within(self.bottom_right, m, m)
    }

    /// The cells of the whole matrix: the node rows above the current rows, the
    /// node columns left of the current columns.
    pub open spec fn assembled(self) -> Map<(int, int), S> {
        let n = self.num_voltage_nodes as int;
        let top = self.top_left.union_prefer_right(shift_cells(self.top_right, 0, n));
        let bottom = self.bottom_left.union_prefer_right(shift_cells(self.bottom_right, 0, n));
        top.union_prefer_right(shift_cells(bottom, n, 0))
    }
}

/// The coefficient matrix of the system while it is being built.
///
/// The matrix is kept as four blocks. The node rows and columns come first and
/// the current rows and columns after them, but how many nodes there are is
/// known only when the last element has been stamped: so each block grows on
/// its own, and [`MnaMatrix::get_matrix`] puts them together.
pub struct MnaMatrix<S> {
    num_voltage_nodes: usize,
    num_current_edges: usize,
    top_left: SparseMat<S>,
    top_right: SparseMat<S>,
    bottom_left: SparseMat<S>,
    bottom_right: SparseMat<S>,
}

impl<S> View for MnaMatrix<S> {
    type V = MatrixModel<S>;

    closed spec fn view(&self) -> MatrixModel<S> {
        MatrixModel {
            num_voltage_nodes: self.num_voltage_nodes as nat,
            num_current_edges: self.num_current_edges as nat,
            top_left: self.top_left@,
            top_right: self.top_right@,
            bottom_left: self.bottom_left@,
            bottom_right: self.bottom_right@,
        }
    }
}

impl<S> MnaMatrix<S> {
    /// No block is larger than the two counts allow.
    #[verifier::type_invariant]
    pub closed spec fn well_formed(self) -> bool {
        &&& self.top_left.well_formed()
        &&& self.top_right.well_formed()
        &&& self.bottom_left.well_formed()
        &&& self.bottom_right.well_formed()
        &&& self.top_left.spec_num_rows() <= self.num_voltage_nodes
        &&& self.top_left.spec_num_cols() <= self.num_voltage_nodes
        &&& self.top_right.spec_num_rows() <= self.num_voltage_nodes
        &&& self.top_right.spec_num_cols() <= self.num_current_edges
        &&& self.bottom_left.spec_num_rows() <= self.num_current_edges
        &&& self.bottom_left.spec_num_cols() <= self.num_voltage_nodes
        &&& self.bottom_right.spec_num_rows() <= self.num_current_edges
        &&& self.bottom_right.spec_num_cols() <= self.num_current_edges
    }
}

impl<S: Scalar> MnaMatrix<S> {
    /// In a well-formed matrix every stored cell lies inside its block, as
    /// the two counts bound it.
    pub proof fn lemma_within_counts(self)
        requires
            self.well_formed(),
        ensures
            self@.within_counts(),
    {
        self.top_left.lemma_within();
        self.top_right.lemma_within();
        self.bottom_left.lemma_within();
        self.bottom_right.lemma_within();
    }
}

impl<S: Scalar> MnaMatrix<S> {
    /// A matrix without nodes, currents or cells.
    pub fn new() -> (m: Self)
        ensures
            m@ == MatrixModel::<S>::empty(),
    {
        let top_left = SparseMat::empty();
        let top_right = SparseMat::empty();
        let bottom_left = SparseMat::empty();
        let bottom_right = SparseMat::empty();
        proof {
            use_type_invariant(&top_left);
            use_type_invariant(&top_right);
            use_type_invariant(&bottom_left);
            use_type_invariant(&bottom_right);
        }
        MnaMatrix {
            num_voltage_nodes: 0,
            num_current_edges: 0,
            top_left,
            top_right,
            bottom_left,
            bottom_right,
        }
    }

    /// The number of node rows: the largest node index stamped so far.
    pub fn num_voltage_nodes(&self) -> (n: usize)
        ensures
            n == self@.num_voltage_nodes,
    {
        self.num_voltage_nodes
    }

    /// The number of current rows: one more than the largest current index
    /// stamped so far.
    pub fn num_current_edges(&self) -> (n: usize)
        ensures
            n == self@.num_current_edges,
    {
        self.num_current_edges
    }

    /// The block of the node rows and node columns, as it stands.
    pub fn top_left(&self) -> (block: &SparseMat<S>)
        ensures
            block@ == self@.top_left,
    {
        &self.top_left
    }

    /// The block of the node rows and current columns, as it stands.
    pub fn top_right(&self) -> (block: &SparseMat<S>)
        ensures
            block@ == self@.top_right,
    {
        &self.top_right
    }

    /// The block of the current rows and node columns, as it stands.
    pub fn bottom_left(&self) -> (block: &SparseMat<S>)
        ensures
            block@ == self@.bottom_left,
    {
        &self.bottom_left
    }

    /// The block of the current rows and current columns, as it stands.
    pub fn bottom_right(&self) -> (block: &SparseMat<S>)
        ensures
            block@ == self@.bottom_right,
    {
        &self.bottom_right
    }

    /// Counts the node `n` in.
    fn update_num_voltage_nodes(&mut self, n: usize)
        ensures
            final(self)@ == old(self)@.with_node(n as nat),
    {
        proof {
            use_type_invariant(&*self);
        }
        if self.num_voltage_nodes < n {
            self.num_voltage_nodes = n;
        }
    }

    /// Counts the current index `e` in.
    fn update_num_current_edges(&mut self, e: usize)
        requires
            e < usize::MAX,
        ensures
            final(self)@ == old(self)@.with_edge(e as nat),
    {
        proof {
            use_type_invariant(&*self);
        }
        if self.num_current_edges < e + 1 {
            self.num_current_edges = e + 1;
        }
    }

    /// Adds `x` to the top left cell of the nodes `n1` and `n2`, unless one of
    /// them is ground.
    fn plus_top_left(&mut self, n1: usize, n2: usize, x: S)
        requires
            n1 <= old(self)@.num_voltage_nodes,
            n2 <= old(self)@.num_voltage_nodes,
        ensures
            final(self)@ == old(self)@.add_top_left(n1 as nat, n2 as nat, x),
    {
        proof {
            use_type_invariant(&*self);
        }
        if n1 != 0 && n2 != 0 {
            let mut block = SparseMat::empty();
            proof {
                use_type_invariant(&block);
            }
            std::mem::swap(&mut block, &mut self.top_left);
            plus_equals(&mut block, n1 - 1, n2 - 1, x);
            proof {
                use_type_invariant(&block);
            }
            self.top_left = block;
        }
    }

    /// Adds `x` to the top right cell of the node `n` and the current `e`,
    /// unless the node is ground.
    fn plus_top_right(&mut self, n: usize, e: usize, x: S)
        requires
            n <= old(self)@.num_voltage_nodes,
            e < old(self)@.num_current_edges,
        ensures
            final(self)@ == old(self)@.add_top_right(n as nat, e as nat, x),
    {
        proof {
            use_type_invariant(&*self);
        }
        if n != 0 {
            let mut block = SparseMat::empty();
            proof {
                use_type_invariant(&block);
            }
            std::mem::swap(&mut block, &mut self.top_right);
            plus_equals(&mut block, n - 1, e, x);
            proof {
                use_type_invariant(&block);
            }
            self.top_right = block;
        }
    }

    /// Adds `x` to the bottom left cell of the current `e` and the node `n`,
    /// unless the node is ground.
    fn plus_bottom_left(&mut self, e: usize, n: usize, x: S)
        requires
            n <= old(self)@.num_voltage_nodes,
            e < old(self)@.num_current_edges,
        ensures
            final(self)@ == old(self)@.add_bottom_left(e as nat, n as nat, x),
    {
        proof {
            use_type_invariant(&*self);
        }
        if n != 0 {
            let mut block = SparseMat::empty();
            proof {
                use_type_invariant(&block);
            }
            std::mem::swap(&mut block, &mut self.bottom_left);
            plus_equals(&mut block, e, n - 1, x);
            proof {
                use_type_invariant(&block);
            }
            self.bottom_left = block;
        }
    }

    /// Adds `y` to the bottom right cell of the currents `e1` and `e2`.
    fn plus_bottom_right(&mut self, e1: usize, e2: usize, y: S)
        requires
            e1 < old(self)@.num_current_edges,
            e2 < old(self)@.num_current_edges,
        ensures
            final(self)@ == old(self)@.add_bottom_right(e1 as nat, e2 as nat, y),
    {
        proof {
            use_type_invariant(&*self);
        }
        let mut block = SparseMat::empty();
        proof {
            use_type_invariant(&block);
        }
        std::mem::swap(&mut block, &mut self.bottom_right);
        plus_equals(&mut block, e1, e2, y);
        proof {
            use_type_invariant(&block);
        }
        self.bottom_right = block;
    }

    /// Stamps a symmetric block between the nodes `n1` and `n2` into the node
    /// rows and columns.
    ///
    /// `x1` is added to the diagonal cell of each of the two nodes and `x2` to
    /// the two cells that couple them. A cell whose row or column would belong
    /// to ground is not written. The two nodes must differ: where they do not,
    /// nothing is stamped.
    pub fn add_symmetric_group1(&mut self, n1: usize, n2: usize, x1: S, x2: S) -> (r: Result<
        (),
        StampError,
    >)
        ensures
            n1 == n2 ==> r == Err::<(), StampError>(StampError::InvalidTopology),
            n1 == n2 ==> final(self)@ == old(self)@,
            n1 != n2 ==> r == Ok::<(), StampError>(()),
            n1 != n2 ==> final(self)@ == old(self)@.add_symmetric_group1(
                n1 as nat,
                n2 as nat,
                x1,
                x2,
            ),
    {
        if n1 == n2 {
            return Err(StampError::InvalidTopology);
        }
        self.update_num_voltage_nodes(n1);
        self.update_num_voltage_nodes(n2);
        self.plus_top_left(n1, n1, x1);
        self.plus_top_left(n2, n2, x1);
        self.plus_top_left(n1, n2, x2);
        self.plus_top_left(n2, n1, x2);
        Ok(())
    }

    /// Stamps the coupling of the current `e` with the nodes `n1` and `n2`, in
    /// its column and in its row alike.
    ///
    /// `y` is added to the diagonal cell of the current, `x1` to the cell of
    /// `n1` in the column of the current and to the cell of `n1` in its row,
    /// and `x2` to the two cells of `n2`. Ground has no cell. The two nodes
    /// must differ: where they do not, nothing is stamped.
    pub fn add_symmetric_group2(
        &mut self,
        n1: usize,
        n2: usize,
        e: usize,
        x1: S,
        x2: S,
        y: S,
    ) -> (r: Result<(), StampError>)
        requires
            e < usize::MAX,
        ensures
            n1 == n2 ==> r == Err::<(), StampError>(StampError::InvalidTopology),
            n1 == n2 ==> final(self)@ == old(self)@,
            n1 != n2 ==> r == Ok::<(), StampError>(()),
            n1 != n2 ==> final(self)@ == old(self)@.add_symmetric_group2(
                n1 as nat,
                n2 as nat,
                e as nat,
                x1,
                x2,
                y,
            ),
    {
        if n1 == n2 {
            return Err(StampError::InvalidTopology);
        }
        self.update_num_voltage_nodes(n1);
        self.update_num_voltage_nodes(n2);
        self.update_num_current_edges(e);
        self.plus_bottom_right(e, e, y);
        self.plus_top_right(n1, e, x1);
        self.plus_bottom_left(e, n1, x1);
        self.plus_top_right(n2, e, x2);
        self.plus_bottom_left(e, n2, x2);
        Ok(())
    }

    /// Stamps the coupling of the current `e` with the nodes `n1` and `n2` in
    /// the column of the current only.
    ///
    /// `y` is added to the diagonal cell of the current, `x1` to the cell of
    /// `n1` in the column of the current and `x2` to that of `n2`. Ground has
    /// no cell. The two nodes must differ: where they do not, nothing is
    /// stamped.
    pub fn add_unsymmetric_right_group2(
        &mut self,
        n1: usize,
        n2: usize,
        e: usize,
        x1: S,
        x2: S,
        y: S,
    ) -> (r: Result<(), StampError>)
        requires
            e < usize::MAX,
        ensures
            n1 == n2 ==> r == Err::<(), StampError>(StampError::InvalidTopology),
            n1 == n2 ==> final(self)@ == old(self)@,
            n1 != n2 ==> r == Ok::<(), StampError>(()),
            n1 != n2 ==> final(self)@ == old(self)@.add_unsymmetric_right_group2(
                n1 as nat,
                n2 as nat,
                e as nat,
                x1,
                x2,
                y,
            ),
    {
        if n1 == n2 {
            return Err(StampError::InvalidTopology);
        }
        self.update_num_voltage_nodes(n1);
        self.update_num_voltage_nodes(n2);
        self.update_num_current_edges(e);
        self.plus_bottom_right(e, e, y);
        self.plus_top_right(n1, e, x1);
        self.plus_top_right(n2, e, x2);
        Ok(())
    }

    /// Stamps the coupling of the current `e` with the nodes `n1` and `n2` in
    /// the row of the current only.
    ///
    /// `y` is added to the diagonal cell of the current, `x1` to the cell of
    /// `n1` in the row of the current and `x2` to that of `n2`. Ground has no
    /// cell. The two nodes must differ: where they do not, nothing is stamped.
    pub fn add_unsymmetric_bottom_group2(
        &mut self,
        n1: usize,
        n2: usize,
        e: usize,
        x1: S,
        x2: S,
        y: S,
    ) -> (r: Result<(), StampError>)
        requires
            e < usize::MAX,
        ensures
            n1 == n2 ==> r == Err::<(), StampError>(StampError::InvalidTopology),
            n1 == n2 ==> final(self)@ == old(self)@,
            n1 != n2 ==> r == Ok::<(), StampError>(()),
            n1 != n2 ==> final(self)@ == old(self)@.add_unsymmetric_bottom_group2(
                n1 as nat,
                n2 as nat,
                e as nat,
                x1,
                x2,
                y,
            ),
    {
        if n1 == n2 {
            return Err(StampError::InvalidTopology);
        }
        self.update_num_voltage_nodes(n1);
        self.update_num_voltage_nodes(n2);
        self.update_num_current_edges(e);
        self.plus_bottom_right(e, e, y);
        self.plus_bottom_left(e, n1, x1);
        self.plus_bottom_left(e, n2, x2);
        Ok(())
    }

    /// Adds `y` to the cell that couples the current `e1` with the current
    /// `e2`.
    pub fn add_group2_value(&mut self, e1: usize, e2: usize, y: S)
        requires
            e1 < usize::MAX,
            e2 < usize::MAX,
        ensures
            final(self)@ == old(self)@.add_group2_value(e1 as nat, e2 as nat, y),
    {
        self.update_num_current_edges(e1);
        self.update_num_current_edges(e2);
        self.plus_bottom_right(e1, e2, y);
    }

    /// Puts the four blocks together into the matrix of the whole system.
    ///
    /// The result is square, with one row and one column for each node and,
    /// after them, one for each current.
    pub fn get_matrix(self) -> (m: SparseMat<S>)
        requires
            self@.num_voltage_nodes + self@.num_current_edges <= usize::MAX,
        ensures
            m.spec_num_rows() == self@.num_voltage_nodes + self@.num_current_edges,
            m.spec_num_cols() == self@.num_voltage_nodes + self@.num_current_edges,
            m@ == self@.assembled(),
    {
        proof {
            use_type_invariant(&self);
        }
        let nodes: usize = self.num_voltage_nodes;
        let edges: usize = self.num_current_edges;
        let mut top_left = self.top_left;
        let mut top_right = self.top_right;
        let mut bottom_left = self.bottom_left;
        let mut bottom_right = self.bottom_right;
        proof {
            use_type_invariant(&top_left);
            use_type_invariant(&top_right);
            use_type_invariant(&bottom_left);
            use_type_invariant(&bottom_right);
            top_left.lemma_within();
            top_right.lemma_within();
            bottom_left.lemma_within();
            bottom_right.lemma_within();
            let n = nodes as int;
            let m = edges as int;
            assert(top_left@.restrict(positions_within(n, n)) =~= top_left@);
            assert(top_right@.restrict(positions_within(n, m)) =~= top_right@);
            assert(bottom_left@.restrict(positions_within(m, n)) =~= bottom_left@);
            assert(bottom_right@.restrict(positions_within(m, m)) =~= bottom_right@);
        }
        top_left.resize(nodes, nodes);
        bottom_right.resize(edges, edges);
        top_right.resize(nodes, edges);
        bottom_left.resize(edges, nodes);
        let top = concat_horizontal(top_left, &top_right);
        let bottom = concat_horizontal(bottom_left, &bottom_right);
        concat_vertical(top, &bottom)
    }
}

} // verus!
