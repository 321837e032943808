//! Modified nodal analysis of linear circuits.
//!
//! The library allocates node and branch indices, stamps circuit elements
//! into the four blocks of the MNA system, and assembles the block matrix and
//! right-hand side as sparse coordinate terms ready for a direct solver.

pub mod ac;
pub mod coefficient;
pub mod component;
pub mod dc;
pub mod matrix;
pub mod mna;
pub mod mna_rhs;
pub mod netlist;
pub mod node_map;
pub mod sparse;
