//! The right-hand side of modified nodal analysis.
//!
//! ```text
//! | -A1 s1 |
//! |   s2   |
//! ```
//!
//! Both segments are single-column sparse matrices; a write accumulates.

use vstd::prelude::*;

use crate::coefficient::Coefficient;
use crate::sparse::{concat_vertical, plus_equals, SparseMat};

verus! {

/// The two segments of the right-hand side, under construction.
pub struct MnaRhs<T> {
    top: SparseMat<Coefficient<T>>,
    bottom: SparseMat<Coefficient<T>>,
}

impl<T: Copy> MnaRhs<T> {
    /// Terms of node-current injection at row `i`.
    pub closed spec fn top_terms(&self, i: int) -> Seq<Coefficient<T>> {
        self.top.terms(i, 0)
    }

    /// Terms of branch constraint `i`.
    pub closed spec fn bottom_terms(&self, i: int) -> Seq<Coefficient<T>> {
        self.bottom.terms(i, 0)
    }

    /// The number of rows written so far in the top segment.
    pub closed spec fn top_len(&self) -> nat {
        self.top.rows()
    }

    /// The number of rows written so far in the bottom segment.
    pub closed spec fn bottom_len(&self) -> nat {
        self.bottom.rows()
    }

    pub closed spec fn wf(&self) -> bool {
        &&& self.top.wf()
        &&& self.bottom.wf()
        &&& self.top.cols() <= 1
        &&& self.bottom.cols() <= 1
    }

    pub fn new() -> (r: Self)
        ensures
            r.wf(),
            r.top_len() == 0,
            r.bottom_len() == 0,
            forall|i: int| #[trigger] r.top_terms(i) == Seq::<Coefficient<T>>::empty(),
            forall|i: int| #[trigger] r.bottom_terms(i) == Seq::<Coefficient<T>>::empty(),
    {
        MnaRhs { top: SparseMat::new(0, 0), bottom: SparseMat::new(0, 0) }
    }

    /// Join the two segments into one column of length
    /// `num_voltage_nodes + num_current_edges`.
    pub fn get_vector(self, num_voltage_nodes: usize, num_current_edges: usize) -> (r: SparseMat<
        Coefficient<T>,
    >)
        requires
            self.wf(),
            self.top_len() <= num_voltage_nodes,
            self.bottom_len() <= num_current_edges,
            num_voltage_nodes + num_current_edges <= usize::MAX,
        ensures
            r.wf(),
            r.rows() == num_voltage_nodes + num_current_edges,
            r.cols() == 1,
            forall|i: int|
                0 <= i < num_voltage_nodes ==> #[trigger] r.terms(i, 0) == self.top_terms(i),
            forall|i: int|
                num_voltage_nodes <= i < r.rows() ==> #[trigger] r.terms(i, 0)
                    == self.bottom_terms(i - num_voltage_nodes),
            forall|i: int, j: int| j != 0 ==> #[trigger] r.terms(i, j) == Seq::<Coefficient<T>>::empty(),
    {
        let mut top = self.top;
        let mut bottom = self.bottom;
        top.resize(num_voltage_nodes, 1);
        bottom.resize(num_current_edges, 1);
        let r = concat_vertical(top, &bottom);
        assert forall|i: int|
            num_voltage_nodes <= i < r.rows() implies #[trigger] r.terms(i, 0)
                == bottom.terms(i - num_voltage_nodes, 0) by {
            assert(r.terms((i - num_voltage_nodes) + num_voltage_nodes, 0) == bottom.terms(
                i - num_voltage_nodes,
                0,
            ));
        }
        assert forall|i: int, j: int| j != 0 implies #[trigger] r.terms(i, j) == Seq::<
            Coefficient<T>,
        >::empty() by {
            r.lemma_terms_in_bounds(i, j);
        }
        r
    }

    /// Add `x` to branch constraint `e`.
    pub fn add_rhs_group2(&mut self, e: usize, x: Coefficient<T>)
        requires
            old(self).wf(),
            e < usize::MAX,
        ensures
            final(self).wf(),
            final(self).top_len() == old(self).top_len(),
            final(self).bottom_len() == if e + 1 > old(self).bottom_len() {
                (e + 1) as nat
            } else {
                old(self).bottom_len()
            },
            final(self).bottom_terms(e as int) == old(self).bottom_terms(e as int).push(x),
            forall|i: int| i != e ==> #[trigger] final(self).bottom_terms(i) == old(self).bottom_terms(i),
            forall|i: int| #[trigger] final(self).top_terms(i) == old(self).top_terms(i),
    {
        plus_equals(&mut self.bottom, e, 0, x);
    }
}

} // verus!
