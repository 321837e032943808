//! Frequency-domain analysis support: circuits kept as element lists so
//! that one fresh system can be stamped per frequency sample, and the
//! reshaping of per-sample solutions into per-signal series.

use vstd::prelude::*;

use crate::dc::AnalysisError;
use crate::mna::{impedance_stamped, voltage_source_stamped, Mna};

verus! {

/// An element whose parameter has been evaluated at one frequency.
#[derive(Clone, Copy, Debug, PartialEq, Eq)]
pub enum Element<T> {
    /// An impedance between two nodes, with its current explicit where a
    /// branch is given.
    Impedance { term_1: usize, term_2: usize, current_edge: Option<usize>, impedance: T },
    /// An independent voltage source; its current is always explicit.
    VoltageSource { term_pos: usize, term_neg: usize, current_edge: usize, voltage: T },
}

impl<T> Element<T> {
    /// Both terminals are the same node.
    pub open spec fn shorted(&self) -> bool {
        match self {
            Element::Impedance { term_1, term_2, .. } => term_1 == term_2,
            Element::VoltageSource { term_pos, term_neg, .. } => term_pos == term_neg,
        }
    }

    /// Its branch index, if any, leaves room for the branch count.
    pub open spec fn edge_fits(&self) -> bool {
        match self {
            Element::Impedance { current_edge, .. } => current_edge matches Some(e) ==> e
                < usize::MAX,
            Element::VoltageSource { current_edge, .. } => current_edge < usize::MAX,
        }
    }
}

/// `after` is `before` with `el` stamped.
pub open spec fn element_stamped<T: Copy>(before: Mna<T>, after: Mna<T>, el: Element<T>) -> bool {
    match el {
        Element::Impedance { term_1, term_2, current_edge, impedance } => impedance_stamped(
            before,
            after,
            term_1 as nat,
            term_2 as nat,
            current_edge,
            impedance,
        ),
        Element::VoltageSource { term_pos, term_neg, current_edge, voltage } => voltage_source_stamped(
            before,
            after,
            term_pos as nat,
            term_neg as nat,
            current_edge as nat,
            voltage,
        ),
    }
}

/// `end` is `start` with `elements` stamped one after another, in order.
pub open spec fn stamped_in_order<T: Copy>(start: Mna<T>, end: Mna<T>, elements: Seq<Element<T>>) -> bool
    decreases elements.len(),
{
    if elements.len() == 0 {
        end == start
    } else {
        exists|mid: Mna<T>|
            #[trigger] element_stamped(mid, end, elements.last()) && stamped_in_order(
                start,
                mid,
                elements.drop_last(),
            )
    }
}

/// Stamp every element, in order, into a fresh system. Fails where an
/// element's two terminals are the same node.
pub fn stamp_elements<T: Copy>(elements: &Vec<Element<T>>) -> (r: Result<Mna<T>, AnalysisError>)
    requires
        forall|k: int| 0 <= k < elements@.len() ==> (#[trigger] elements@[k]).edge_fits(),
    ensures
        r is Err <==> exists|k: int| 0 <= k < elements@.len() && (#[trigger] elements@[k]).shorted(),
        r matches Err(e) ==> e == AnalysisError::SameTerminals,
        r matches Ok(m) ==> m.wf() && exists|start: Mna<T>|
            start.is_empty() && #[trigger] stamped_in_order(start, m, elements@),
{
    let mut mna: Mna<T> = Mna::new();
    let ghost start = mna;
    let mut i: usize = 0;
    while i < elements.len()
        invariant
            forall|k: int| 0 <= k < elements@.len() ==> (#[trigger] elements@[k]).edge_fits(),
            i <= elements@.len(),
            start.is_empty(),
            mna.wf(),
            forall|k: int| 0 <= k < i ==> !(#[trigger] elements@[k]).shorted(),
            stamped_in_order(start, mna, elements@.take(i as int)),
        decreases elements@.len() - i,
    {
        let el = elements[i];
        assert(elements@[i as int] == el);
        let ghost before = mna;
        match el {
            Element::Impedance { term_1, term_2, current_edge, impedance } => {
                if term_1 == term_2 {
                    return Err(AnalysisError::SameTerminals);
                }
                mna.add_impedance(term_1, term_2, current_edge, impedance);
            },
            Element::VoltageSource { term_pos, term_neg, current_edge, voltage } => {
                if term_pos == term_neg {
                    return Err(AnalysisError::SameTerminals);
                }
                mna.add_independent_voltage_source(term_pos, term_neg, current_edge, voltage);
            },
        }
        proof {
            let s = elements@.take(i + 1);
            assert(s.drop_last() =~= elements@.take(i as int));
            assert(s.last() == el);
            assert(element_stamped(before, mna, s.last()));
        }
        i = i + 1;
    }
    assert(elements@.take(i as int) =~= elements@);
    Ok(mna)
}

/// Reshape solutions given one per sample (each of `num_signals` values)
/// into one series per signal, indexed by sample.
pub fn by_signal<T: Copy>(per_sample: &Vec<Vec<T>>, num_signals: usize) -> (r: Vec<Vec<T>>)
    requires
        forall|m: int| 0 <= m < per_sample@.len() ==> (#[trigger] per_sample@[m])@.len() == num_signals,
    ensures
        r@.len() == num_signals,
        forall|n: int| 0 <= n < num_signals ==> (#[trigger] r@[n])@.len() == per_sample@.len(),
        forall|n: int, m: int|
            0 <= n < num_signals && 0 <= m < per_sample@.len() ==> #[trigger] r@[n]@[m]
                == per_sample@[m]@[n],
{
    let mut r: Vec<Vec<T>> = Vec::new();
    let mut n: usize = 0;
    while n < num_signals
        invariant
            forall|m: int| 0 <= m < per_sample@.len() ==> (#[trigger] per_sample@[m])@.len() == num_signals,
            n <= num_signals,
            r@.len() == n,
            forall|k: int| 0 <= k < n ==> (#[trigger] r@[k])@.len() == per_sample@.len(),
            forall|k: int, m: int|
                0 <= k < n && 0 <= m < per_sample@.len() ==> #[trigger] r@[k]@[m]
                    == per_sample@[m]@[k],
        decreases num_signals - n,
    {
        let mut series: Vec<T> = Vec::new();
        let mut m: usize = 0;
        while m < per_sample.len()
            invariant
                forall|mm: int| 0 <= mm < per_sample@.len() ==> (#[trigger] per_sample@[mm])@.len() == num_signals,
                n < num_signals,
                m <= per_sample@.len(),
                series@.len() == m,
                forall|mm: int| 0 <= mm < m ==> #[trigger] series@[mm] == per_sample@[mm]@[n as int],
            decreases per_sample@.len() - m,
        {
            series.push(per_sample[m][n]);
            m = m + 1;
        }
        r.push(series);
        n = n + 1;
    }
    r
}

} // verus!
