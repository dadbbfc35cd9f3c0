//! A growable sparse matrix, and the concatenation of two of them.

use crate::scalar::Scalar;
use vstd::prelude::*;

verus! {

/// One stored cell of a sparse matrix.
#[derive(Debug, PartialEq)]
pub struct Entry<S> {
    pub row: usize,
    pub col: usize,
    pub value: S,
}

impl<S: Copy> Clone for Entry<S> {
    fn clone(&self) -> (e: Self)
        ensures
            e == *self,
    {
        *self
    }
}

impl<S: Copy> Copy for Entry<S> {

}

impl<S> Entry<S> {
    /// The position of the cell.
    pub open spec fn key(self) -> (int, int) {
        (self.row as int, self.col as int)
    }
}

/// The cells that a list of entries describes. Where two entries name the
/// same position, the later one counts.
pub open spec fn cells_of<S>(entries: Seq<Entry<S>>) -> Map<(int, int), S>
    decreases entries.len(),
{
    if entries.len() == 0 {
        Map::empty()
    } else {
        cells_of(entries.drop_last()).insert(entries.last().key(), entries.last().value)
    }
}

/// No two entries of the list name the same position.
pub open spec fn distinct_keys<S>(entries: Seq<Entry<S>>) -> bool {
    forall|i: int, j: int|
        0 <= i < j < entries.len() ==> (#[trigger] entries[i]).key() != (
        #[trigger] entries[j]).key()
}

/// The value of a cell: what is stored there, and zero where nothing is.
pub open spec fn cell_value<S: Scalar>(cells: Map<(int, int), S>, row: int, col: int) -> S {
    if cells.contains_key((row, col)) {
        cells[(row, col)]
    } else {
        S::spec_zero()
    }
}

/// The cells of a matrix moved down by `dr` rows and right by `dc` columns.
pub open spec fn shift_cells<S>(cells: Map<(int, int), S>, dr: int, dc: int) -> Map<(int, int), S> {
    Map::new(
        |k: (int, int)| cells.contains_key((k.0 - dr, k.1 - dc)),
        |k: (int, int)| cells[(k.0 - dr, k.1 - dc)],
    )
}

/// Every cell lies in the first `rows` rows and the first `cols` columns.
pub open spec fn cells_within<S>(cells: Map<(int, int), S>, rows: int, cols: int) -> bool {
    forall|k: (int, int)| #[trigger] cells.contains_key(k) ==> 0 <= k.0 < rows && 0 <= k.1 < cols
}

/// The positions of the first `rows` rows and the first `cols` columns.
pub open spec fn positions_within(rows: int, cols: int) -> Set<(int, int)> {
    Set::new(|k: (int, int)| 0 <= k.0 < rows && 0 <= k.1 < cols)
}

/// A position that no entry of the list names is no cell of it.
pub proof fn lemma_cells_of_absent<S>(entries: Seq<Entry<S>>, k: (int, int))
    requires
        forall|i: int| 0 <= i < entries.len() ==> (#[trigger] entries[i]).key() != k,
    ensures
        !cells_of(entries).contains_key(k),
    decreases entries.len(),
{
    if entries.len() > 0 {
        lemma_cells_of_absent(entries.drop_last(), k);
    }
}

/// Every cell was named by some entry of the list.
pub proof fn lemma_cells_of_witness<S>(entries: Seq<Entry<S>>, k: (int, int)) -> (i: int)
    requires
        cells_of(entries).contains_key(k),
    ensures
        0 <= i < entries.len(),
        entries[i].key() == k,
    decreases entries.len(),
{
    if entries.last().key() == k {
        entries.len() - 1
    } else {
        lemma_cells_of_witness(entries.drop_last(), k)
    }
}

/// In a list without repeated positions every entry is a cell, with its own
/// value.
pub proof fn lemma_cells_of_entry<S>(entries: Seq<Entry<S>>, i: int)
    requires
        distinct_keys(entries),
        0 <= i < entries.len(),
    ensures
        cells_of(entries).contains_key(entries[i].key()),
        cells_of(entries)[entries[i].key()] == entries[i].value,
    decreases entries.len(),
{
    if i < entries.len() - 1 {
        let front = entries.drop_last();
        assert(front[i] == entries[i]);
        assert(distinct_keys(front)) by {
            assert forall|a: int, b: int| 0 <= a < b < front.len() implies (
            #[trigger] front[a]).key() != (#[trigger] front[b]).key() by {
                assert(front[a] == entries[a]);
                assert(front[b] == entries[b]);
            }
        }
        lemma_cells_of_entry(front, i);
    }
}

/// Replacing the value of one entry replaces the value of its cell, in a list
/// without repeated positions.
pub proof fn lemma_cells_of_update<S>(entries: Seq<Entry<S>>, i: int, e: Entry<S>)
    requires
        distinct_keys(entries),
        0 <= i < entries.len(),
        e.key() == entries[i].key(),
    ensures
        cells_of(entries.update(i, e)) == cells_of(entries).insert(e.key(), e.value),
        distinct_keys(entries.update(i, e)),
    decreases entries.len(),
{
    let after = entries.update(i, e);
    assert(distinct_keys(after)) by {
        assert forall|a: int, b: int| 0 <= a < b < after.len() implies (
        #[trigger] after[a]).key() != (#[trigger] after[b]).key() by {
            assert(after[a].key() == entries[a].key());
            assert(after[b].key() == entries[b].key());
        }
    }
    let front = entries.drop_last();
    if i == entries.len() - 1 {
        assert(after.drop_last() == front);
        assert(cells_of(after) == cells_of(entries).insert(e.key(), e.value));
    } else {
        assert(front[i] == entries[i]);
        assert(distinct_keys(front)) by {
            assert forall|a: int, b: int| 0 <= a < b < front.len() implies (
            #[trigger] front[a]).key() != (#[trigger] front[b]).key() by {
                assert(front[a] == entries[a]);
                assert(front[b] == entries[b]);
            }
        }
        lemma_cells_of_update(front, i, e);
        assert(after.drop_last() == front.update(i, e));
        assert(after.last() == entries.last());
        assert(entries.last().key() != e.key());
        assert(cells_of(after) == cells_of(entries).insert(e.key(), e.value));
    }
}

/// A growable sparse matrix.
///
/// The matrix has a number of rows and of columns, and stores a value for some
/// of its positions. Its view is the map from the stored positions to their
/// values; every other cell reads as zero.
pub struct SparseMat<S> {
    num_rows: usize,
    num_cols: usize,
    entries: Vec<Entry<S>>,
}

impl<S> View for SparseMat<S> {
    type V = Map<(int, int), S>;

    closed spec fn view(&self) -> Map<(int, int), S> {
        cells_of(self.entries@)
    }
}

impl<S> SparseMat<S> {
    /// No position is stored twice, and every stored position lies inside the
    /// matrix.
    #[verifier::type_invariant]
    pub closed spec fn well_formed(self) -> bool {
        &&& distinct_keys(self.entries@)
        &&& forall|i: int|
            0 <= i < self.entries@.len() ==> (#[trigger] self.entries@[i]).row < self.num_rows
                && self.entries@[i].col < self.num_cols
    }

    /// The number of rows.
    pub closed spec fn spec_num_rows(self) -> nat {
        self.num_rows as nat
    }

    /// The number of columns.
    pub closed spec fn spec_num_cols(self) -> nat {
        self.num_cols as nat
    }

    /// The stored entries, in the order in which the matrix lists them.
    pub closed spec fn spec_entries(self) -> Seq<Entry<S>> {
        self.entries@
    }

    /// The stored cells of a well-formed matrix lie inside it.
    pub proof fn lemma_within(self)
        requires
            self.well_formed(),
        ensures
            cells_within(self@, self.spec_num_rows() as int, self.spec_num_cols() as int),
    {
        assert forall|k: (int, int)| #[trigger] self@.contains_key(k) implies 0 <= k.0
            < self.spec_num_rows() && 0 <= k.1 < self.spec_num_cols() by {
            let i = lemma_cells_of_witness(self.entries@, k);
            assert(self.entries@[i].row < self.num_rows);
        }
    }

    /// A matrix with no rows, no columns and no stored cell.
    pub fn empty() -> (m: Self)
        ensures
            m@ == Map::<(int, int), S>::empty(),
            m.spec_num_rows() == 0,
            m.spec_num_cols() == 0,
    {
        SparseMat { num_rows: 0, num_cols: 0, entries: Vec::new() }
    }

    /// The number of rows.
    pub fn num_rows(&self) -> (r: usize)
        ensures
            r == self.spec_num_rows(),
    {
        self.num_rows
    }

    /// The number of columns.
    pub fn num_cols(&self) -> (r: usize)
        ensures
            r == self.spec_num_cols(),
    {
        self.num_cols
    }

    /// The index of the entry stored for a position, if there is one.
    fn find(&self, row: usize, col: usize) -> (r: Option<usize>)
        ensures
            match r {
                Some(i) => i < self.entries@.len() && self.entries@[i as int].key() == (
                    row as int,
                    col as int,
                ),
                None => !self@.contains_key((row as int, col as int)),
            },
    {
        let mut i: usize = 0;
        while i < self.entries.len()
            invariant
                i <= self.entries@.len(),
                forall|j: int|
                    0 <= j < i ==> (#[trigger] self.entries@[j]).key() != (row as int, col as int),
            decreases self.entries@.len() - i,
        {
            if self.entries[i].row == row && self.entries[i].col == col {
                return Some(i);
            }
            i += 1;
        }
        proof {
            lemma_cells_of_absent(self.entries@, (row as int, col as int));
        }
        None
    }

    /// The stored entries: each stored position once, with its value, all of
    /// them inside the matrix. The order is that of [`SparseMat::spec_entries`]:
    /// it says nothing about the positions, but it is the same at every call
    /// on the same matrix.
    pub fn non_zero_vals(&self) -> (r: &Vec<Entry<S>>)
        ensures
            r@ == self.spec_entries(),
            cells_of(r@) == self@,
            distinct_keys(r@),
            forall|i: int|
                0 <= i < r@.len() ==> (#[trigger] r@[i]).row < self.spec_num_rows() && r@[i].col
                    < self.spec_num_cols(),
    {
        proof {
            use_type_invariant(self);
        }
        &self.entries
    }

    /// Stores `value` at a position, in place of what was stored there, and
    /// grows the matrix so that it holds the position.
    pub fn insert_unbounded(&mut self, row: usize, col: usize, value: S)
        requires
            row < usize::MAX,
            col < usize::MAX,
        ensures
            final(self)@ == old(self)@.insert((row as int, col as int), value),
            final(self).spec_num_rows() == if old(self).spec_num_rows() > row {
                old(self).spec_num_rows()
            } else {
                row as nat + 1
            },
            final(self).spec_num_cols() == if old(self).spec_num_cols() > col {
                old(self).spec_num_cols()
            } else {
                col as nat + 1
            },
    {
        proof {
            use_type_invariant(&*self);
        }
        let found = self.find(row, col);
        if self.num_rows <= row {
            self.num_rows = row + 1;
        }
        if self.num_cols <= col {
            self.num_cols = col + 1;
        }
        let mut entries: Vec<Entry<S>> = Vec::new();
        std::mem::swap(&mut entries, &mut self.entries);
        let entry = Entry { row, col, value };
        match found {
            Some(i) => {
                proof {
                    lemma_cells_of_update(entries@, i as int, entry);
                }
                entries.set(i, entry);
            },
            None => {
                proof {
                    assert(entries@.push(entry).drop_last() == entries@);
                    assert forall|j: int| 0 <= j < entries@.len() implies (
                    #[trigger] entries@[j]).key() != entry.key() by {
                        lemma_cells_of_entry(entries@, j);
                    }
                }
                entries.push(entry);
            },
        }
        self.entries = entries;
    }
}

impl<S: Copy> SparseMat<S> {
    /// Sets the size of the matrix. The cells that lie inside the new size
    /// stay as they are; those that would lie outside it are dropped.
    pub fn resize(&mut self, num_rows: usize, num_cols: usize)
        ensures
            final(self)@ == old(self)@.restrict(positions_within(num_rows as int, num_cols as int)),
            final(self).spec_num_rows() == num_rows,
            final(self).spec_num_cols() == num_cols,
    {
        proof {
            use_type_invariant(&*self);
        }
        let ghost inside = positions_within(num_rows as int, num_cols as int);
        let ghost all = self.entries@;
        let mut kept: Vec<Entry<S>> = Vec::new();
        let mut i: usize = 0;
        while i < self.entries.len()
            invariant
                i <= all.len(),
                all == self.entries@,
                distinct_keys(all),
                distinct_keys(kept@),
                inside == positions_within(num_rows as int, num_cols as int),
                forall|j: int|
                    0 <= j < kept@.len() ==> {
                        let k = (#[trigger] kept@[j]).key();
                        &&& inside.contains(k)
                        &&& cells_of(all.take(i as int)).contains_key(k)
                        &&& cells_of(all).contains_key(k)
                        &&& cells_of(all)[k] == kept@[j].value
                    },
                forall|m: int|
                    0 <= m < i && inside.contains((#[trigger] all[m]).key()) ==> cells_of(
                        kept@,
                    ).contains_key(all[m].key()),
            decreases all.len() - i,
        {
            let e = &self.entries[i];
            proof {
                assert(all.take(i + 1).drop_last() == all.take(i as int));
                assert(all.take(i + 1).last() == all[i as int]);
                lemma_cells_of_entry(all, i as int);
            }
            if e.row < num_rows && e.col < num_cols {
                let entry = Entry { row: e.row, col: e.col, value: e.value };
                proof {
                    let seen = all.take(i as int);
                    assert forall|j: int| 0 <= j < i implies (#[trigger] seen[j]).key()
                        != entry.key() by {
                        assert(seen[j] == all[j]);
                    }
                    lemma_cells_of_absent(seen, entry.key());
                    assert(kept@.push(entry).drop_last() == kept@);
                }
                kept.push(entry);
            }
            i += 1;
        }
        proof {
            assert(all.take(all.len() as int) == all);
            let before = cells_of(all).restrict(inside);
            let after = cells_of(kept@);
            assert forall|k: (int, int)| #[trigger]
                after.contains_key(k) implies before.contains_key(k) && before[k] == after[k] by {
                let j = lemma_cells_of_witness(kept@, k);
                lemma_cells_of_entry(kept@, j);
            }
            assert forall|k: (int, int)| #[trigger]
                before.contains_key(k) implies after.contains_key(k) by {
                let m = lemma_cells_of_witness(all, k);
                assert(inside.contains(all[m].key()));
            }
            assert(after.dom() =~= before.dom());
            assert(cells_of(kept@) =~= before);
        }
        *self = SparseMat { num_rows, num_cols, entries: kept };
    }
}

impl<S: Scalar> SparseMat<S> {
    /// The value of a cell: what is stored there, and zero where nothing is,
    /// inside the matrix or outside it.
    pub fn get_unbounded(&self, row: usize, col: usize) -> (r: S)
        ensures
            r == cell_value(self@, row as int, col as int),
    {
        proof {
            use_type_invariant(self);
        }
        match self.find(row, col) {
            Some(i) => {
                proof {
                    lemma_cells_of_entry(self.entries@, i as int);
                }
                self.entries[i].value
            },
            None => S::zero(),
        }
    }
}

/// Appends to `base` the entries of `other`, each moved down by `dr` rows and
/// right by `dc` columns, and gives the result the stated size.
fn append_shifted<S: Copy>(
    base: SparseMat<S>,
    other: &SparseMat<S>,
    dr: usize,
    dc: usize,
    num_rows: usize,
    num_cols: usize,
) -> (m: SparseMat<S>)
    requires
        dr >= base.spec_num_rows() || dc >= base.spec_num_cols(),
        base.spec_num_rows() <= num_rows,
        base.spec_num_cols() <= num_cols,
        dr + other.spec_num_rows() <= num_rows,
        dc + other.spec_num_cols() <= num_cols,
    ensures
        m@ == base@.union_prefer_right(shift_cells(other@, dr as int, dc as int)),
        m.spec_num_rows() == num_rows,
        m.spec_num_cols() == num_cols,
{
    proof {
        use_type_invariant(&base);
        use_type_invariant(other);
    }
    let ghost base_entries = base.entries@;
    let ghost added = other.entries@;
    let mut entries = base.entries;
    let n: usize = other.entries.len();
    let mut i: usize = 0;
    assert(added.take(0) =~= Seq::<Entry<S>>::empty());
    assert(cells_of(base_entries) =~= cells_of(base_entries).union_prefer_right(
        shift_cells(cells_of(added.take(0)), dr as int, dc as int),
    ));
    while i < n
        invariant
            i <= n,
            n == added.len(),
            added == other.entries@,
            entries@.len() == base_entries.len() + i,
            forall|j: int| 0 <= j < base_entries.len() ==> entries@[j] == base_entries[j],
            forall|j: int|
                0 <= j < i ==> (#[trigger] entries@[base_entries.len() + j]).key() == (
                    dr + added[j].row,
                    dc + added[j].col,
                ),
            forall|j: int| 0 <= j < added.len() ==> dr + (#[trigger] added[j]).row < num_rows,
            forall|j: int| 0 <= j < added.len() ==> dc + (#[trigger] added[j]).col < num_cols,
            cells_of(entries@) == cells_of(base_entries).union_prefer_right(
                shift_cells(cells_of(added.take(i as int)), dr as int, dc as int),
            ),
        decreases n - i,
    {
        let e = &other.entries[i];
        let shifted = Entry { row: dr + e.row, col: dc + e.col, value: e.value };
        proof {
            assert(entries@.push(shifted).drop_last() == entries@);
            assert(added.take(i + 1).drop_last() == added.take(i as int));
            assert(added.take(i + 1).last() == added[i as int]);
            assert(cells_of(entries@.push(shifted)) =~= cells_of(base_entries).union_prefer_right(
                shift_cells(cells_of(added.take(i + 1)), dr as int, dc as int),
            ));
        }
        entries.push(shifted);
        i += 1;
    }
    proof {
        assert(added.take(n as int) == added);
        assert forall|a: int, b: int| 0 <= a < b < entries@.len() implies (
        #[trigger] entries@[a]).key() != (#[trigger] entries@[b]).key() by {
            let k = base_entries.len() as int;
            if b < k {
                assert(base_entries[a].key() != base_entries[b].key());
            } else if a < k {
                assert(entries@[b] == entries@[k + (b - k)]);
                assert(base_entries[a].row < base.num_rows);
            } else {
                assert(entries@[a] == entries@[k + (a - k)]);
                assert(entries@[b] == entries@[k + (b - k)]);
                assert(added[a - k].key() != added[b - k].key());
            }
        }
        assert forall|a: int| 0 <= a < entries@.len() implies (
        #[trigger] entries@[a]).row < num_rows && entries@[a].col < num_cols by {
            let k = base_entries.len() as int;
            if a < k {
                assert(base_entries[a].row < base.num_rows);
            } else {
                assert(entries@[a] == entries@[k + (a - k)]);
                assert(dr + added[a - k].row < num_rows);
            }
        }
    }
    SparseMat { num_rows, num_cols, entries }
}

/// The matrix that holds `left` and, to the right of it, `right`.
///
/// It has as many rows as the one of the two that has more. The columns of
/// `right` come after all the columns of `left`.
pub fn concat_horizontal<S: Copy>(left: SparseMat<S>, right: &SparseMat<S>) -> (m: SparseMat<S>)
    requires
        left.spec_num_cols() + right.spec_num_cols() <= usize::MAX,
    ensures
        m.spec_num_rows() == if left.spec_num_rows() >= right.spec_num_rows() {
            left.spec_num_rows()
        } else {
            right.spec_num_rows()
        },
        m.spec_num_cols() == left.spec_num_cols() + right.spec_num_cols(),
        m@ == left@.union_prefer_right(shift_cells(right@, 0, left.spec_num_cols() as int)),
{
    let num_rows: usize = if left.num_rows >= right.num_rows {
        left.num_rows
    } else {
        right.num_rows
    };
    let left_cols: usize = left.num_cols;
    let num_cols: usize = left_cols + right.num_cols;
    append_shifted(left, right, 0, left_cols, num_rows, num_cols)
}

/// The matrix that holds `top` and, below it, `bottom`.
///
/// It has as many columns as the one of the two that has more. The rows of
/// `bottom` come after all the rows of `top`.
pub fn concat_vertical<S: Copy>(top: SparseMat<S>, bottom: &SparseMat<S>) -> (m: SparseMat<S>)
    requires
        top.spec_num_rows() + bottom.spec_num_rows() <= usize::MAX,
    ensures
        m.spec_num_rows() == top.spec_num_rows() + bottom.spec_num_rows(),
        m.spec_num_cols() == if top.spec_num_cols() >= bottom.spec_num_cols() {
            top.spec_num_cols()
        } else {
            bottom.spec_num_cols()
        },
        m@ == top@.union_prefer_right(shift_cells(bottom@, top.spec_num_rows() as int, 0)),
{
    let top_rows: usize = top.num_rows;
    let num_rows: usize = top_rows + bottom.num_rows;
    let num_cols: usize = if top.num_cols >= bottom.num_cols {
        top.num_cols
    } else {
        bottom.num_cols
    };
    append_shifted(top, bottom, top_rows, 0, num_rows, num_cols)
}

} // verus!
