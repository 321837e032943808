//! The block matrix of modified nodal analysis.
//!
//! ```text
//! | A1 Y11 A1^T   A2  |   | v |   | -A1 s1 |
//! |   -A2^T      Z22  | . | j | = |   s2   |
//! ```
//!
//! Node indices are netlist indices, with ground at 0. Node `n > 0` owns
//! row and column `n - 1` of the top blocks; ground owns none, so a stamp
//! never writes anything for it. Branch `e` owns row and column `e` of the
//! bottom blocks.

use vstd::prelude::*;

use crate::coefficient::Coefficient;
use crate::sparse::{concat_horizontal, concat_vertical, plus_equals, SparseMat};

verus! {

/// The terms that a group 1 stamp on nodes `n1`, `n2` writes at `(i, j)` of
/// the top-left block: `x1` on the two diagonal entries and `x2` on the two
/// mirrored off-diagonal entries, leaving out every entry of ground.
pub open spec fn group1_stamp<T>(
    n1: nat,
    n2: nat,
    x1: Coefficient<T>,
    x2: Coefficient<T>,
    i: int,
    j: int,
) -> Seq<Coefficient<T>> {
    if n1 != 0 && i == n1 - 1 && j == n1 - 1 {
        seq![x1]
    } else if n2 != 0 && i == n2 - 1 && j == n2 - 1 {
        seq![x1]
    } else if n1 != 0 && n2 != 0 && ((i == n1 - 1 && j == n2 - 1) || (i == n2 - 1 && j == n1
        - 1)) {
        seq![x2]
    } else {
        Seq::empty()
    }
}

/// The terms that a group 2 stamp on nodes `n1`, `n2` and branch `e` writes
/// at `(i, j)` of the top-right block: `x1` at `(n1 - 1, e)` and `x2` at
/// `(n2 - 1, e)`, leaving out ground.
pub open spec fn group2_column_stamp<T>(
    n1: nat,
    n2: nat,
    e: nat,
    x1: Coefficient<T>,
    x2: Coefficient<T>,
    i: int,
    j: int,
) -> Seq<Coefficient<T>> {
    if j == e && n1 != 0 && i == n1 - 1 {
        seq![x1]
    } else if j == e && n2 != 0 && i == n2 - 1 {
        seq![x2]
    } else {
        Seq::empty()
    }
}

/// The terms that a group 2 stamp writes at `(i, j)` of the bottom-left
/// block: the mirror image of [`group2_column_stamp`].
pub open spec fn group2_row_stamp<T>(
    n1: nat,
    n2: nat,
    e: nat,
    x1: Coefficient<T>,
    x2: Coefficient<T>,
    i: int,
    j: int,
) -> Seq<Coefficient<T>> {
    group2_column_stamp(n1, n2, e, x1, x2, j, i)
}

/// The terms that a group 2 stamp writes at `(i, j)` of the bottom-right
/// block: `y` at `(e, e)`.
pub open spec fn group2_self_stamp<T>(e: nat, y: Coefficient<T>, i: int, j: int) -> Seq<
    Coefficient<T>,
> {
    if i == e && j == e {
        seq![y]
    } else {
        Seq::empty()
    }
}

proof fn lemma_seq_add_one<A>(s: Seq<A>, x: A)
    ensures
        s.push(x) == s + seq![x],
{
    assert(s.push(x) =~= s + seq![x]);
}

proof fn lemma_seq_add_none<A>(s: Seq<A>)
    ensures
        s == s + Seq::<A>::empty(),
{
    assert(s =~= s + Seq::<A>::empty());
}

pub open spec fn max_nat(a: nat, b: nat) -> nat {
    if a >= b {
        a
    } else {
        b
    }
}

/// `after` is `before` with a group 1 stamp on nodes `n1`, `n2`: the node
/// count grows to the larger node, the top-left block gains exactly
/// [`group1_stamp`], and the other blocks are untouched.
pub open spec fn group1_stamped<T: Copy>(
    before: MnaMatrix<T>,
    after: MnaMatrix<T>,
    n1: nat,
    n2: nat,
    x1: Coefficient<T>,
    x2: Coefficient<T>,
) -> bool {
    &&& after.wf()
    &&& after.nv() == max_nat(before.nv(), max_nat(n1, n2))
    &&& after.ne() == before.ne()
    &&& forall|i: int, j: int|
        #[trigger] after.top_left_terms(i, j) == before.top_left_terms(i, j) + group1_stamp(
            n1,
            n2,
            x1,
            x2,
            i,
            j,
        )
    &&& forall|i: int, j: int| #[trigger]
        after.top_right_terms(i, j) == before.top_right_terms(i, j)
    &&& forall|i: int, j: int| #[trigger]
        after.bottom_left_terms(i, j) == before.bottom_left_terms(i, j)
    &&& forall|i: int, j: int| #[trigger]
        after.bottom_right_terms(i, j) == before.bottom_right_terms(i, j)
}

/// `after` is `before` with a group 2 stamp on nodes `n1`, `n2` and branch
/// `e`: the node count grows to the larger node and the branch count to
/// `e + 1`; the off-diagonal blocks gain the mirrored entries and the
/// bottom-right block gains `y` at `(e, e)`; the top-left block is untouched.
pub open spec fn group2_stamped<T: Copy>(
    before: MnaMatrix<T>,
    after: MnaMatrix<T>,
    n1: nat,
    n2: nat,
    e: nat,
    x1: Coefficient<T>,
    x2: Coefficient<T>,
    y: Coefficient<T>,
) -> bool {
    &&& after.wf()
    &&& after.nv() == max_nat(before.nv(), max_nat(n1, n2))
    &&& after.ne() == max_nat(before.ne(), e + 1)
    &&& forall|i: int, j: int| #[trigger]
        after.top_left_terms(i, j) == before.top_left_terms(i, j)
    &&& forall|i: int, j: int|
        #[trigger] after.top_right_terms(i, j) == before.top_right_terms(i, j)
            + group2_column_stamp(n1, n2, e, x1, x2, i, j)
    &&& forall|i: int, j: int|
        #[trigger] after.bottom_left_terms(i, j) == before.bottom_left_terms(i, j)
            + group2_row_stamp(n1, n2, e, x1, x2, i, j)
    &&& forall|i: int, j: int|
        #[trigger] after.bottom_right_terms(i, j) == before.bottom_right_terms(i, j)
            + group2_self_stamp(e, y, i, j)
}

/// A group 1 stamp leaves the top-left block symmetric: where the two
/// mirrored entries of nodes `n1`, `n2` held nothing before, they hold the
/// same terms after.
pub proof fn lemma_group1_symmetric<T: Copy>(
    before: MnaMatrix<T>,
    after: MnaMatrix<T>,
    n1: nat,
    n2: nat,
    x1: Coefficient<T>,
    x2: Coefficient<T>,
)
    requires
        group1_stamped(before, after, n1, n2, x1, x2),
        n1 != n2,
        n1 >= 1,
        n2 >= 1,
        before.top_left_terms(n1 - 1, n2 - 1) == Seq::<Coefficient<T>>::empty(),
        before.top_left_terms(n2 - 1, n1 - 1) == Seq::<Coefficient<T>>::empty(),
    ensures
        after.top_left_terms(n1 - 1, n2 - 1) == after.top_left_terms(n2 - 1, n1 - 1),
        after.top_left_terms(n1 - 1, n2 - 1) == seq![x2],
{
    assert(after.top_left_terms(n1 - 1, n2 - 1) =~= seq![x2]);
    assert(after.top_left_terms(n2 - 1, n1 - 1) =~= seq![x2]);
}

/// A group 1 stamp writes only entries whose row and column belong to its
/// non-ground nodes: an entry `(i, j)` that changes has `i + 1` and `j + 1`
/// among `n1`, `n2`, so neither is ground.
pub proof fn lemma_group1_skips_ground<T: Copy>(
    before: MnaMatrix<T>,
    after: MnaMatrix<T>,
    n1: nat,
    n2: nat,
    x1: Coefficient<T>,
    x2: Coefficient<T>,
)
    requires
        group1_stamped(before, after, n1, n2, x1, x2),
    ensures
        forall|i: int, j: int|
            #[trigger] after.top_left_terms(i, j) != before.top_left_terms(i, j) ==> i >= 0 && j
                >= 0 && (i + 1 == n1 || i + 1 == n2) && (j + 1 == n1 || j + 1 == n2),
        forall|i: int, j: int| #[trigger]
            after.top_right_terms(i, j) == before.top_right_terms(i, j),
        forall|i: int, j: int| #[trigger]
            after.bottom_left_terms(i, j) == before.bottom_left_terms(i, j),
{
    assert forall|i: int, j: int|
        #[trigger] after.top_left_terms(i, j) != before.top_left_terms(i, j) implies i >= 0 && j
            >= 0 && (i + 1 == n1 || i + 1 == n2) && (j + 1 == n1 || j + 1 == n2) by {
        lemma_seq_add_none(before.top_left_terms(i, j));
    }
}

/// A group 2 stamp writes node rows and columns only for its non-ground
/// nodes: a changed entry of the top-right block has row `i` with `i + 1`
/// among `n1`, `n2`, and a changed entry of the bottom-left block has such
/// a column; the top-left block is untouched.
pub proof fn lemma_group2_skips_ground<T: Copy>(
    before: MnaMatrix<T>,
    after: MnaMatrix<T>,
    n1: nat,
    n2: nat,
    e: nat,
    x1: Coefficient<T>,
    x2: Coefficient<T>,
    y: Coefficient<T>,
)
    requires
        group2_stamped(before, after, n1, n2, e, x1, x2, y),
    ensures
        forall|i: int, j: int|
            #[trigger] after.top_right_terms(i, j) != before.top_right_terms(i, j) ==> i >= 0 && (
            i + 1 == n1 || i + 1 == n2) && j == e,
        forall|i: int, j: int|
            #[trigger] after.bottom_left_terms(i, j) != before.bottom_left_terms(i, j) ==> j >= 0 && (
            j + 1 == n1 || j + 1 == n2) && i == e,
        forall|i: int, j: int| #[trigger]
            after.top_left_terms(i, j) == before.top_left_terms(i, j),
{
    assert forall|i: int, j: int|
        #[trigger] after.top_right_terms(i, j) != before.top_right_terms(i, j) implies i >= 0 && (i
            + 1 == n1 || i + 1 == n2) && j == e by {
        lemma_seq_add_none(before.top_right_terms(i, j));
    }
    assert forall|i: int, j: int|
        #[trigger] after.bottom_left_terms(i, j) != before.bottom_left_terms(i, j) implies j >= 0 && (j
            + 1 == n1 || j + 1 == n2) && i == e by {
        lemma_seq_add_none(before.bottom_left_terms(i, j));
    }
}

/// A group 2 stamp writes mirrored pairs: what it adds at `(i, j)` of the
/// top-right block it adds at `(j, i)` of the bottom-left block.
pub proof fn lemma_group2_mirrored<T: Copy>(
    before: MnaMatrix<T>,
    after: MnaMatrix<T>,
    n1: nat,
    n2: nat,
    e: nat,
    x1: Coefficient<T>,
    x2: Coefficient<T>,
    y: Coefficient<T>,
    i: int,
    j: int,
)
    requires
        group2_stamped(before, after, n1, n2, e, x1, x2, y),
    ensures
        after.top_right_terms(i, j) == before.top_right_terms(i, j) + group2_column_stamp(
            n1,
            n2,
            e,
            x1,
            x2,
            i,
            j,
        ),
        after.bottom_left_terms(j, i) == before.bottom_left_terms(j, i) + group2_column_stamp(
            n1,
            n2,
            e,
            x1,
            x2,
            i,
            j,
        ),
{
}

/// The block matrix of modified nodal analysis, under construction.
pub struct MnaMatrix<T> {
    /// The number of rows in the top blocks
    num_voltage_nodes: usize,
    /// The number of rows in the bottom blocks
    num_current_edges: usize,
    top_left: SparseMat<Coefficient<T>>,
    top_right: SparseMat<Coefficient<T>>,
    bottom_left: SparseMat<Coefficient<T>>,
    bottom_right: SparseMat<Coefficient<T>>,
}

impl<T: Copy> MnaMatrix<T> {
    pub closed spec fn nv(&self) -> nat {
        self.num_voltage_nodes as nat
    }

    pub closed spec fn ne(&self) -> nat {
        self.num_current_edges as nat
    }

    /// Terms of the node-to-node block.
    pub closed spec fn top_left_terms(&self, i: int, j: int) -> Seq<Coefficient<T>> {
        self.top_left.terms(i, j)
    }

    /// Terms of the node-to-branch block.
    pub closed spec fn top_right_terms(&self, i: int, j: int) -> Seq<Coefficient<T>> {
        self.top_right.terms(i, j)
    }

    /// Terms of the branch-to-node block.
    pub closed spec fn bottom_left_terms(&self, i: int, j: int) -> Seq<Coefficient<T>> {
        self.bottom_left.terms(i, j)
    }

    /// Terms of the branch-to-branch block.
    pub closed spec fn bottom_right_terms(&self, i: int, j: int) -> Seq<Coefficient<T>> {
        self.bottom_right.terms(i, j)
    }

    /// Every block is well formed and fits inside the tracked dimensions.
    pub closed spec fn wf(&self) -> bool {
        &&& self.top_left.wf()
        &&& self.top_right.wf()
        &&& self.bottom_left.wf()
        &&& self.bottom_right.wf()
        &&& self.top_left.rows() <= self.nv() && self.top_left.cols() <= self.nv()
        &&& self.top_right.rows() <= self.nv() && self.top_right.cols() <= self.ne()
        &&& self.bottom_left.rows() <= self.ne() && self.bottom_left.cols() <= self.nv()
        &&& self.bottom_right.rows() <= self.ne() && self.bottom_right.cols() <= self.ne()
    }

    /// The terms at `(i, j)` of the assembled square matrix of order
    /// `nv + ne`.
    pub open spec fn system_terms(&self, i: int, j: int) -> Seq<Coefficient<T>> {
        if i < self.nv() {
            if j < self.nv() {
                self.top_left_terms(i, j)
            } else {
                self.top_right_terms(i, j - self.nv())
            }
        } else {
            if j < self.nv() {
                self.bottom_left_terms(i - self.nv(), j)
            } else {
                self.bottom_right_terms(i - self.nv(), j - self.nv())
            }
        }
    }

    /// An empty system with no nodes and no branches.
    pub fn new() -> (r: Self)
        ensures
            r.wf(),
            r.nv() == 0,
            r.ne() == 0,
            forall|i: int, j: int| #[trigger] r.top_left_terms(i, j) == Seq::<Coefficient<T>>::empty(),
            forall|i: int, j: int| #[trigger] r.top_right_terms(i, j) == Seq::<Coefficient<T>>::empty(),
            forall|i: int, j: int| #[trigger] r.bottom_left_terms(i, j) == Seq::<Coefficient<T>>::empty(),
            forall|i: int, j: int| #[trigger] r.bottom_right_terms(i, j) == Seq::<Coefficient<T>>::empty(),
    {
        MnaMatrix {
            num_voltage_nodes: 0,
            num_current_edges: 0,
            top_left: SparseMat::new(0, 0),
            top_right: SparseMat::new(0, 0),
            bottom_left: SparseMat::new(0, 0),
            bottom_right: SparseMat::new(0, 0),
        }
    }

    /// Grow the node count to include netlist node `n`; row `n - 1` is the
    /// last row of the top blocks.
    fn update_num_voltage_nodes(&mut self, n: usize)
        requires
            old(self).wf(),
        ensures
            final(self).wf(),
            final(self).nv() == max_nat(old(self).nv(), n as nat),
            final(self).ne() == old(self).ne(),
            final(self).top_left == old(self).top_left,
            final(self).top_right == old(self).top_right,
            final(self).bottom_left == old(self).bottom_left,
            final(self).bottom_right == old(self).bottom_right,
    {
        if n > self.num_voltage_nodes {
            self.num_voltage_nodes = n;
        }
    }

    /// Grow the branch count to include branch `e`, whose row is `e`.
    fn update_num_current_edges(&mut self, e: usize)
        requires
            old(self).wf(),
            e < usize::MAX,
        ensures
            final(self).wf(),
            final(self).ne() == max_nat(old(self).ne(), (e + 1) as nat),
            final(self).nv() == old(self).nv(),
            final(self).top_left == old(self).top_left,
            final(self).top_right == old(self).top_right,
            final(self).bottom_left == old(self).bottom_left,
            final(self).bottom_right == old(self).bottom_right,
    {
        if e + 1 > self.num_current_edges {
            self.num_current_edges = e + 1;
        }
    }

    /// Add a symmetric block to the top-left matrix: `x1` at
    /// `(n1 - 1, n1 - 1)` and `(n2 - 1, n2 - 1)`, `x2` at `(n1 - 1, n2 - 1)`
    /// and `(n2 - 1, n1 - 1)`. Entries that would belong to ground (node 0)
    /// are not written.
    pub fn add_symmetric_group1(
        &mut self,
        n1: usize,
        n2: usize,
        x1: Coefficient<T>,
        x2: Coefficient<T>,
    )
        requires
            old(self).wf(),
            n1 != n2,
        ensures
            group1_stamped(*old(self), *final(self), n1 as nat, n2 as nat, x1, x2),
    {
        let ghost before = *self;
        self.update_num_voltage_nodes(n1);
        self.update_num_voltage_nodes(n2);
        let ghost t0 = self.top_left;
        if n1 == 0 {
            plus_equals(&mut self.top_left, n2 - 1, n2 - 1, x1);
            assert forall|i: int, j: int| #[trigger] self.top_left.terms(i, j) == t0.terms(i, j)
                + group1_stamp(n1 as nat, n2 as nat, x1, x2, i, j) by {
                lemma_seq_add_one(t0.terms(i, j), x1);
                lemma_seq_add_none(t0.terms(i, j));
            }
        } else if n2 == 0 {
            plus_equals(&mut self.top_left, n1 - 1, n1 - 1, x1);
            assert forall|i: int, j: int| #[trigger] self.top_left.terms(i, j) == t0.terms(i, j)
                + group1_stamp(n1 as nat, n2 as nat, x1, x2, i, j) by {
                lemma_seq_add_one(t0.terms(i, j), x1);
                lemma_seq_add_none(t0.terms(i, j));
            }
        } else {
            plus_equals(&mut self.top_left, n1 - 1, n1 - 1, x1);
            plus_equals(&mut self.top_left, n2 - 1, n2 - 1, x1);
            plus_equals(&mut self.top_left, n1 - 1, n2 - 1, x2);
            plus_equals(&mut self.top_left, n2 - 1, n1 - 1, x2);
            assert forall|i: int, j: int| #[trigger] self.top_left.terms(i, j) == t0.terms(i, j)
                + group1_stamp(n1 as nat, n2 as nat, x1, x2, i, j) by {
                lemma_seq_add_one(t0.terms(i, j), x1);
                lemma_seq_add_one(t0.terms(i, j), x2);
                lemma_seq_add_none(t0.terms(i, j));
            }
        }
    }

    /// Add a symmetric component to the off-diagonal blocks and the
    /// bottom-right block: `x1` at `(n1 - 1, e)` of the top-right block and
    /// `(e, n1 - 1)` of the bottom-left block, `x2` likewise for `n2`, and
    /// `y` at `(e, e)` of the bottom-right block. Entries that would belong
    /// to ground (node 0) are not written.
    pub fn add_symmetric_group2(
        &mut self,
        n1: usize,
        n2: usize,
        e: usize,
        x1: Coefficient<T>,
        x2: Coefficient<T>,
        y: Coefficient<T>,
    )
        requires
            old(self).wf(),
            n1 != n2,
            e < usize::MAX,
        ensures
            group2_stamped(*old(self), *final(self), n1 as nat, n2 as nat, e as nat, x1, x2, y),
    {
        self.update_num_voltage_nodes(n1);
        self.update_num_voltage_nodes(n2);
        self.update_num_current_edges(e);
        let ghost tr0 = self.top_right;
        let ghost bl0 = self.bottom_left;
        let ghost br0 = self.bottom_right;
        plus_equals(&mut self.bottom_right, e, e, y);
        if n1 != 0 {
            plus_equals(&mut self.top_right, n1 - 1, e, x1);
            plus_equals(&mut self.bottom_left, e, n1 - 1, x1);
        }
        if n2 != 0 {
            plus_equals(&mut self.top_right, n2 - 1, e, x2);
            plus_equals(&mut self.bottom_left, e, n2 - 1, x2);
        }
        assert forall|i: int, j: int| #[trigger] self.bottom_right.terms(i, j) == br0.terms(i, j)
            + group2_self_stamp(e as nat, y, i, j) by {
            lemma_seq_add_one(br0.terms(i, j), y);
            lemma_seq_add_none(br0.terms(i, j));
        }
        assert forall|i: int, j: int| #[trigger] self.top_right.terms(i, j) == tr0.terms(i, j)
            + group2_column_stamp(n1 as nat, n2 as nat, e as nat, x1, x2, i, j) by {
            lemma_seq_add_one(tr0.terms(i, j), x1);
            lemma_seq_add_one(tr0.terms(i, j), x2);
            lemma_seq_add_none(tr0.terms(i, j));
        }
        assert forall|i: int, j: int| #[trigger] self.bottom_left.terms(i, j) == bl0.terms(i, j)
            + group2_row_stamp(n1 as nat, n2 as nat, e as nat, x1, x2, i, j) by {
            lemma_seq_add_one(bl0.terms(i, j), x1);
            lemma_seq_add_one(bl0.terms(i, j), x2);
            lemma_seq_add_none(bl0.terms(i, j));
        }
    }

    /// Resize every block to the tracked dimensions and join them into one
    /// square matrix of order `nv + ne`.
    pub fn get_matrix(self) -> (r: SparseMat<Coefficient<T>>)
        requires
            self.wf(),
            self.nv() + self.ne() <= usize::MAX,
        ensures
            r.wf(),
            r.rows() == self.nv() + self.ne(),
            r.cols() == self.nv() + self.ne(),
            forall|i: int, j: int|
                0 <= i < r.rows() && 0 <= j < r.cols() ==> #[trigger] r.terms(i, j)
                    == self.system_terms(i, j),
    {
        let nv = self.num_voltage_nodes;
        let ne = self.num_current_edges;
        let mut top_left = self.top_left;
        let mut top_right = self.top_right;
        let mut bottom_left = self.bottom_left;
        let mut bottom_right = self.bottom_right;
        top_left.resize(nv, nv);
        bottom_right.resize(ne, ne);
        top_right.resize(nv, ne);
        bottom_left.resize(ne, nv);
        let top = concat_horizontal(top_left, &top_right);
        let bottom = concat_horizontal(bottom_left, &bottom_right);
        let r = concat_vertical(top, &bottom);
        assert forall|i: int, j: int|
            0 <= i < r.rows() && 0 <= j < r.cols() implies #[trigger] r.terms(i, j)
                == self.system_terms(i, j) by {
            if i < nv {
                if j < nv {
                    assert(top.terms(i, j) == top_left.terms(i, j));
                } else {
                    assert(top.terms(i, (j - nv) + nv) == top_right.terms(i, j - nv));
                }
            } else {
                assert(r.terms((i - nv) + nv, j) == bottom.terms(i - nv, j));
                if j < nv {
                    assert(bottom.terms(i - nv, j) == bottom_left.terms(i - nv, j));
                } else {
                    assert(bottom.terms(i - nv, (j - nv) + nv) == bottom_right.terms(i - nv, j - nv));
                }
            }
        }
        r
    }

    pub fn num_voltage_nodes(&self) -> (r: usize)
        ensures
            r == self.nv(),
    {
        self.num_voltage_nodes
    }

    pub fn num_current_edges(&self) -> (r: usize)
        ensures
            r == self.ne(),
    {
        self.num_current_edges
    }
}

} // verus!
