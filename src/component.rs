//! Netlist components: the element vocabulary with terminal indices, an
//! optional or mandatory branch index, and a parameter value.
//!
//! Components are either in group 1 (their currents are eliminated) or in
//! group 2 (their currents stay explicit). Voltage sources, independent or
//! controlled, are always in group 2; resistors and independent current
//! sources are in group 2 only where a branch index is given.

use vstd::prelude::*;

verus! {

/// A netlist component whose parameter has type `T`.
#[derive(Clone, Copy, Debug, PartialEq, Eq)]
pub enum Component<T> {
    /// Fixed resistor (group 1 or group 2)
    Resistor { term_1: usize, term_2: usize, current_index: Option<usize>, resistance: T },
    /// Independent voltage source (group 2)
    IndependentVoltageSource { term_pos: usize, term_neg: usize, current_index: usize, voltage: T },
    /// Voltage-controlled voltage source (group 2)
    VoltageControlledVoltageSource {
        term_pos: usize,
        term_neg: usize,
        ctrl_pos: usize,
        ctrl_neg: usize,
        current_index: usize,
        voltage_scale: T,
    },
    /// Current-controlled voltage source (group 2)
    CurrentControlledVoltageSource {
        term_pos: usize,
        term_neg: usize,
        ctrl_edge: usize,
        current_index: usize,
        voltage_scale: T,
    },
    /// Independent current source (group 1 or group 2)
    IndependentCurrentSource {
        term_pos: usize,
        term_neg: usize,
        current_index: Option<usize>,
        current: T,
    },
}

impl<T: Copy> Component<T> {
    /// The branch index of this component's current, where it is explicit.
    pub open spec fn spec_current_index(&self) -> Option<usize> {
        match self {
            Component::Resistor { current_index, .. } => *current_index,
            Component::IndependentVoltageSource { current_index, .. } => Some(*current_index),
            Component::VoltageControlledVoltageSource { current_index, .. } => Some(
                *current_index,
            ),
            Component::CurrentControlledVoltageSource { current_index, .. } => Some(
                *current_index,
            ),
            Component::IndependentCurrentSource { current_index, .. } => *current_index,
        }
    }

    /// Return the current index, if this element has a current
    pub fn current_index(&self) -> (r: Option<usize>)
        ensures
            r == self.spec_current_index(),
    {
        match self {
            Component::IndependentVoltageSource { current_index, .. } => Some(*current_index),
            Component::VoltageControlledVoltageSource { current_index, .. } => Some(
                *current_index,
            ),
            Component::CurrentControlledVoltageSource { current_index, .. } => Some(
                *current_index,
            ),
            Component::Resistor { current_index, .. } => *current_index,
            Component::IndependentCurrentSource { current_index, .. } => *current_index,
        }
    }
}

} // verus!
