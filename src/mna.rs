//! Modified nodal analysis: element stamps over the block matrix and the
//! right-hand side, assembly into one linear system, and the split of its
//! solution into node voltages and branch currents.

use vstd::prelude::*;

use crate::coefficient::Coefficient;
use crate::matrix::{group1_stamped, group2_stamped, MnaMatrix};
use crate::mna_rhs::MnaRhs;
use crate::sparse::SparseMat;

verus! {

/// `after` is `before` with impedance `z` stamped between `term_1` and
/// `term_2`, as [`Mna::add_impedance`] does.
pub open spec fn impedance_stamped<T: Copy>(
    before: Mna<T>,
    after: Mna<T>,
    term_1: nat,
    term_2: nat,
    current_edge: Option<usize>,
    z: T,
) -> bool {
    &&& after.wf()
    &&& after.rhs() == before.rhs()
    &&& match current_edge {
        Some(e) => group2_stamped(
            before.matrix(),
            after.matrix(),
            term_1,
            term_2,
            e as nat,
            Coefficient::One,
            Coefficient::MinusOne,
            Coefficient::Negated(z),
        ),
        None => group1_stamped(
            before.matrix(),
            after.matrix(),
            term_1,
            term_2,
            Coefficient::Reciprocal(z),
            Coefficient::NegatedReciprocal(z),
        ),
    }
}

/// `after` is `before` with an independent voltage source `v` stamped from
/// `term_pos` to `term_neg` on branch `e`, as
/// [`Mna::add_independent_voltage_source`] does.
pub open spec fn voltage_source_stamped<T: Copy>(
    before: Mna<T>,
    after: Mna<T>,
    term_pos: nat,
    term_neg: nat,
    e: nat,
    v: T,
) -> bool {
    &&& after.wf()
    &&& group2_stamped(
        before.matrix(),
        after.matrix(),
        term_pos,
        term_neg,
        e,
        Coefficient::One,
        Coefficient::MinusOne,
        Coefficient::Zero,
    )
    &&& after.rhs().bottom_terms(e as int) == before.rhs().bottom_terms(e as int).push(
        Coefficient::Value(v),
    )
    &&& forall|i: int|
        i != e ==> #[trigger] after.rhs().bottom_terms(i) == before.rhs().bottom_terms(i)
    &&& forall|i: int| #[trigger] after.rhs().top_terms(i) == before.rhs().top_terms(i)
}

/// `sys` is the square system of order `nv + ne` built from `mna`: its
/// matrix holds [`MnaMatrix::system_terms`], its right-hand side the top
/// segment then the bottom one.
pub open spec fn assembled_from<T: Copy>(sys: MnaSystem<T>, mna: Mna<T>) -> bool {
    let n = sys.num_voltage_nodes + sys.num_current_edges;
    &&& sys.num_voltage_nodes == mna.matrix().nv()
    &&& sys.num_current_edges == mna.matrix().ne()
    &&& sys.matrix.wf()
    &&& sys.rhs.wf()
    &&& sys.matrix.rows() == n
    &&& sys.matrix.cols() == n
    &&& sys.rhs.rows() == n
    &&& sys.rhs.cols() == 1
    &&& forall|i: int, j: int|
        0 <= i < n && 0 <= j < n ==> #[trigger] sys.matrix.terms(i, j) == mna.matrix().system_terms(
            i,
            j,
        )
    &&& forall|i: int|
        0 <= i < sys.num_voltage_nodes ==> #[trigger] sys.rhs.terms(i, 0) == mna.rhs().top_terms(i)
    &&& forall|i: int|
        sys.num_voltage_nodes <= i < n ==> #[trigger] sys.rhs.terms(i, 0) == mna.rhs().bottom_terms(
            i - sys.num_voltage_nodes,
        )
}

/// An MNA system under construction. Elements are stamped as they are
/// added; [`Mna::assemble`] consumes it.
pub struct Mna<T> {
    matrix: MnaMatrix<T>,
    rhs: MnaRhs<T>,
}

/// An assembled linear system `matrix * x = rhs`, of order
/// `num_voltage_nodes + num_current_edges`. The unknowns are the voltages of
/// nodes `1..=num_voltage_nodes`, then the currents of the branches.
pub struct MnaSystem<T> {
    pub matrix: SparseMat<Coefficient<T>>,
    pub rhs: SparseMat<Coefficient<T>>,
    pub num_voltage_nodes: usize,
    pub num_current_edges: usize,
}

/// Why a linear solve failed.
#[derive(Clone, Copy, Debug, PartialEq, Eq)]
pub enum SolveError {
    /// The matrix has `rows` rows but the right-hand side `len` entries.
    DimensionMismatch { rows: usize, len: usize },
    /// Factorization found the matrix singular, at this column where the
    /// solver reports it.
    Singular { column: Option<usize> },
}

impl<T: Copy> Mna<T> {
    pub closed spec fn matrix(&self) -> MnaMatrix<T> {
        self.matrix
    }

    pub closed spec fn rhs(&self) -> MnaRhs<T> {
        self.rhs
    }

    pub closed spec fn wf(&self) -> bool {
        &&& self.matrix.wf()
        &&& self.rhs.wf()
        &&& self.rhs.top_len() <= self.matrix.nv()
        &&& self.rhs.bottom_len() <= self.matrix.ne()
    }

    /// No node, no branch, and no term anywhere.
    pub open spec fn is_empty(&self) -> bool {
        &&& self.wf()
        &&& self.matrix().nv() == 0
        &&& self.matrix().ne() == 0
        &&& forall|i: int, j: int| #[trigger] self.matrix().top_left_terms(i, j) == Seq::<Coefficient<T>>::empty()
        &&& forall|i: int, j: int| #[trigger] self.matrix().top_right_terms(i, j) == Seq::<Coefficient<T>>::empty()
        &&& forall|i: int, j: int| #[trigger] self.matrix().bottom_left_terms(i, j) == Seq::<Coefficient<T>>::empty()
        &&& forall|i: int, j: int| #[trigger] self.matrix().bottom_right_terms(i, j) == Seq::<Coefficient<T>>::empty()
        &&& forall|i: int| #[trigger] self.rhs().top_terms(i) == Seq::<Coefficient<T>>::empty()
        &&& forall|i: int| #[trigger] self.rhs().bottom_terms(i) == Seq::<Coefficient<T>>::empty()
    }

    pub fn new() -> (r: Self)
        ensures
            r.is_empty(),
    {
        let matrix = MnaMatrix::new();
        let rhs = MnaRhs::new();
        Mna { matrix, rhs }
    }

    /// Stamp an impedance `z` between two nodes. Without a branch it is a
    /// group 1 admittance: `1/z` on the diagonal, `-1/z` off it. With branch
    /// `e` its current stays explicit: `+1`/`-1` couple the nodes to the
    /// branch and `-z` sits at `(e, e)`.
    pub fn add_impedance(
        &mut self,
        term_1: usize,
        term_2: usize,
        current_edge: Option<usize>,
        impedance: T,
    )
        requires
            old(self).wf(),
            term_1 != term_2,
            current_edge matches Some(e) ==> e < usize::MAX,
        ensures
            impedance_stamped(
                *old(self),
                *final(self),
                term_1 as nat,
                term_2 as nat,
                current_edge,
                impedance,
            ),
    {
        let z = impedance;
        match current_edge {
            Some(e) => self.matrix.add_symmetric_group2(
                term_1,
                term_2,
                e,
                Coefficient::One,
                Coefficient::MinusOne,
                Coefficient::Negated(z),
            ),
            None => self.matrix.add_symmetric_group1(
                term_1,
                term_2,
                Coefficient::Reciprocal(z),
                Coefficient::NegatedReciprocal(z),
            ),
        }
    }

    /// Stamp an independent voltage source from `term_pos` to `term_neg`
    /// whose current is branch `current_edge`: `+1`/`-1` couple the nodes to
    /// the branch, `0` sits at `(e, e)`, and the voltage is added to the
    /// branch's right-hand side.
    pub fn add_independent_voltage_source(
        &mut self,
        term_pos: usize,
        term_neg: usize,
        current_edge: usize,
        voltage: T,
    )
        requires
            old(self).wf(),
            term_pos != term_neg,
            current_edge < usize::MAX,
        ensures
            voltage_source_stamped(
                *old(self),
                *final(self),
                term_pos as nat,
                term_neg as nat,
                current_edge as nat,
                voltage,
            ),
    {
        self.matrix.add_symmetric_group2(
            term_pos,
            term_neg,
            current_edge,
            Coefficient::One,
            Coefficient::MinusOne,
            Coefficient::Zero,
        );
        self.rhs.add_rhs_group2(current_edge, Coefficient::Value(voltage));
    }

    pub fn num_voltage_nodes(&self) -> (r: usize)
        ensures
            r == self.matrix().nv(),
    {
        self.matrix.num_voltage_nodes()
    }

    pub fn num_current_edges(&self) -> (r: usize)
        ensures
            r == self.matrix().ne(),
    {
        self.matrix.num_current_edges()
    }

    /// Consume the builder and produce the square system of order
    /// `nv + ne` with its right-hand side of the same length.
    pub fn assemble(self) -> (r: MnaSystem<T>)
        requires
            self.wf(),
            self.matrix().nv() + self.matrix().ne() <= usize::MAX,
        ensures
            assembled_from(r, self),
    {
        let num_voltage_nodes = self.matrix.num_voltage_nodes();
        let num_current_edges = self.matrix.num_current_edges();
        let matrix = self.matrix.get_matrix();
        let rhs = self.rhs.get_vector(num_voltage_nodes, num_current_edges);
        MnaSystem { matrix, rhs, num_voltage_nodes, num_current_edges }
    }
}

/// The dimension check that precedes a linear solve: the matrix must have
/// as many rows as the right-hand side has entries.
pub fn check_dimensions<T: Copy>(matrix: &SparseMat<T>, rhs_len: usize) -> (r: Result<(), SolveError>)
    ensures
        r is Ok <==> matrix.rows() == rhs_len,
        r matches Err(e) ==> e == (SolveError::DimensionMismatch {
            rows: matrix.rows() as usize,
            len: rhs_len,
        }),
{
    let rows = matrix.num_rows();
    if rows != rhs_len {
        Err(SolveError::DimensionMismatch { rows, len: rhs_len })
    } else {
        Ok(())
    }
}

/// Split a solution of an assembled system into node voltages (the first
/// `num_voltage_nodes` unknowns) and branch currents (the rest).
pub fn split_solution<T: Copy>(solution: Vec<T>, num_voltage_nodes: usize) -> (r: (Vec<T>, Vec<T>))
    requires
        num_voltage_nodes <= solution@.len(),
    ensures
        r.0@ == solution@.take(num_voltage_nodes as int),
        r.1@ == solution@.skip(num_voltage_nodes as int),
{
    let mut voltages: Vec<T> = Vec::new();
    let mut currents: Vec<T> = Vec::new();
    let mut i: usize = 0;
    while i < solution.len()
        invariant
            num_voltage_nodes <= solution@.len(),
            i <= solution@.len(),
            i <= num_voltage_nodes ==> voltages@ == solution@.take(i as int) && currents@.len() == 0,
            i > num_voltage_nodes ==> voltages@ == solution@.take(num_voltage_nodes as int)
                && currents@ == solution@.subrange(num_voltage_nodes as int, i as int),
        decreases solution@.len() - i,
    {
        if i < num_voltage_nodes {
            voltages.push(solution[i]);
            assert(solution@.take(i + 1) =~= solution@.take(i as int).push(solution@[i as int]));
        } else {
            currents.push(solution[i]);
            assert(solution@.subrange(num_voltage_nodes as int, i + 1) =~= solution@.subrange(
                num_voltage_nodes as int,
                i as int,
            ).push(solution@[i as int]));
        }
        i = i + 1;
    }
    assert(solution@.subrange(num_voltage_nodes as int, i as int) =~= solution@.skip(
        num_voltage_nodes as int,
    ));
    (voltages, currents)
}

} // verus!
