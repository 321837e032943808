//! DC analysis: terminals named by netlist strings, elements stamped as
//! they are added, and one assembled real-valued system.

use vstd::prelude::*;

use crate::mna::{assembled_from, impedance_stamped, voltage_source_stamped, Mna, MnaSystem};
use crate::node_map::{
    edge_lookup, node_lookup, regex_is_match, NodeMap, NodeMapError, GROUND_NAME_PATTERN,
};

verus! {

/// Why an element could not be added.
#[derive(Clone, Copy, Debug, PartialEq, Eq)]
pub enum AnalysisError {
    /// Ground was spelled two ways in one circuit.
    GroundNameMismatch,
    /// Both terminals of an element resolve to the same node.
    SameTerminals,
}

/// A name may be taken as ground only where it matches the ground pattern.
pub open spec fn ground_claim(name: Seq<char>, is_ground: bool) -> bool {
    is_ground ==> regex_is_match(GROUND_NAME_PATTERN@, name)
}

/// The outcome of adding a two-terminal element once its terminal names
/// have been looked up with the given ground decisions: the node map after
/// the lookups, the result, and whether the system was left alone (`true`)
/// or must hold the stamp on the two indices (`false`, with the indices).
pub open spec fn two_terminal_outcome(
    nodes: Seq<Seq<char>>,
    name_1: Seq<char>,
    is_ground_1: bool,
    name_2: Seq<char>,
    is_ground_2: bool,
) -> (Seq<Seq<char>>, Result<(usize, usize), AnalysisError>) {
    let (nodes_1, r1) = node_lookup(nodes, name_1, is_ground_1);
    match r1 {
        Err(_) => (nodes_1, Err(AnalysisError::GroundNameMismatch)),
        Ok(t1) => {
            let (nodes_2, r2) = node_lookup(nodes_1, name_2, is_ground_2);
            match r2 {
                Err(_) => (nodes_2, Err(AnalysisError::GroundNameMismatch)),
                Ok(t2) => if t1 == t2 {
                    (nodes_2, Err(AnalysisError::SameTerminals))
                } else {
                    (nodes_2, Ok((t1, t2)))
                },
            }
        },
    }
}

/// The outcome of adding a resistor of value `z`, given the ground
/// decisions `g1`, `g2` on its terminal names.
pub open spec fn resistor_added<T: Copy>(
    before: LinearDcAnalysis<T>,
    after: LinearDcAnalysis<T>,
    r: Result<(), AnalysisError>,
    name_1: Seq<char>,
    g1: bool,
    name_2: Seq<char>,
    g2: bool,
    current_edge: Option<usize>,
    z: T,
) -> bool {
    let (nodes, t) = two_terminal_outcome(before.nodes(), name_1, g1, name_2, g2);
    &&& after.wf()
    &&& after.nodes() == nodes
    &&& after.edges() == before.edges()
    &&& match t {
        Ok((t1, t2)) => r == Ok::<(), AnalysisError>(()) && impedance_stamped(
            before.mna(),
            after.mna(),
            t1 as nat,
            t2 as nat,
            current_edge,
            z,
        ),
        Err(e) => r == Err::<(), AnalysisError>(e) && after.mna() == before.mna(),
    }
}

/// The outcome of adding an independent voltage source of value `v`, given
/// the ground decisions `g1`, `g2` on its terminal names.
pub open spec fn voltage_source_added<T: Copy>(
    before: LinearDcAnalysis<T>,
    after: LinearDcAnalysis<T>,
    r: Result<(), AnalysisError>,
    name_pos: Seq<char>,
    g1: bool,
    name_neg: Seq<char>,
    g2: bool,
    edge_name: Seq<char>,
    v: T,
) -> bool {
    let (nodes, t) = two_terminal_outcome(before.nodes(), name_pos, g1, name_neg, g2);
    let (edges, e) = edge_lookup(before.edges(), edge_name);
    &&& after.wf()
    &&& after.nodes() == nodes
    &&& match t {
        Ok((t1, t2)) => r == Ok::<(), AnalysisError>(()) && after.edges() == edges
            && voltage_source_stamped(before.mna(), after.mna(), t1 as nat, t2 as nat, e as nat, v),
        Err(err) => r == Err::<(), AnalysisError>(err) && after.mna() == before.mna()
            && after.edges() == before.edges(),
    }
}

/// A linear DC analysis under construction.
pub struct LinearDcAnalysis<T> {
    node_map: NodeMap,
    mna: Mna<T>,
}

impl<T: Copy> LinearDcAnalysis<T> {
    pub closed spec fn nodes(&self) -> Seq<Seq<char>> {
        self.node_map.nodes()
    }

    pub closed spec fn edges(&self) -> Seq<Seq<char>> {
        self.node_map.edges()
    }

    pub closed spec fn mna(&self) -> Mna<T> {
        self.mna
    }

    pub closed spec fn wf(&self) -> bool {
        &&& self.node_map.wf()
        &&& self.mna.wf()
    }

    pub fn new() -> (r: Self)
        ensures
            r.wf(),
            r.nodes() == seq![Seq::<char>::empty()],
            r.edges() == Seq::<Seq<char>>::empty(),
            r.mna().is_empty(),
    {
        LinearDcAnalysis { node_map: NodeMap::new(), mna: Mna::new() }
    }

    /// Add a resistor between two named terminals. Without a branch index it
    /// is stamped as a conductance; with one, its current stays explicit.
    pub fn add_resistor(
        &mut self,
        term_1: &str,
        term_2: &str,
        current_edge: Option<usize>,
        resistor: T,
    ) -> (r: Result<(), AnalysisError>)
        requires
            old(self).wf(),
            current_edge matches Some(e) ==> e < usize::MAX,
        ensures
            exists|g1: bool, g2: bool|
                #![trigger two_terminal_outcome(old(self).nodes(), term_1@, g1, term_2@, g2)]
                ground_claim(term_1@, g1) && ground_claim(term_2@, g2) && resistor_added(
                    *old(self),
                    *final(self),
                    r,
                    term_1@,
                    g1,
                    term_2@,
                    g2,
                    current_edge,
                    resistor,
                ),
    {
        let t = self.two_terminals(term_1, term_2);
        match t {
            Ok((t1, t2)) => {
                self.mna.add_impedance(t1, t2, current_edge, resistor);
                Ok(())
            },
            Err(e) => Err(e),
        }
    }

    /// Add an independent voltage source from `term_pos` to `term_neg`
    /// whose current is the branch labelled `current_edge`.
    pub fn add_independent_voltage_source(
        &mut self,
        term_pos: &str,
        term_neg: &str,
        current_edge: &str,
        voltage: T,
    ) -> (r: Result<(), AnalysisError>)
        requires
            old(self).wf(),
        ensures
            exists|g1: bool, g2: bool|
                #![trigger two_terminal_outcome(old(self).nodes(), term_pos@, g1, term_neg@, g2)]
                ground_claim(term_pos@, g1) && ground_claim(term_neg@, g2) && voltage_source_added(
                    *old(self),
                    *final(self),
                    r,
                    term_pos@,
                    g1,
                    term_neg@,
                    g2,
                    current_edge@,
                    voltage,
                ),
    {
        let t = self.two_terminals(term_pos, term_neg);
        match t {
            Ok((t1, t2)) => {
                let e = self.node_map.edge_index(current_edge);
                assert(e < self.edges().len());
                self.mna.add_independent_voltage_source(t1, t2, e, voltage);
                Ok(())
            },
            Err(err) => Err(err),
        }
    }

    /// The allocator that resolved the terminal names, for reporting.
    pub fn node_map(&self) -> (r: &NodeMap)
        ensures
            r.nodes() == self.nodes(),
            r.edges() == self.edges(),
    {
        &self.node_map
    }

    /// Consume the analysis and assemble its linear system. Returns `None`
    /// only where the order of the system would not fit in `usize`.
    pub fn assemble(self) -> (r: Option<MnaSystem<T>>)
        requires
            self.wf(),
        ensures
            match r {
                Some(sys) => assembled_from(sys, self.mna()),
                None => self.mna().matrix().nv() + self.mna().matrix().ne() > usize::MAX,
            },
    {
        let nv = self.mna.num_voltage_nodes();
        let ne = self.mna.num_current_edges();
        if nv > usize::MAX - ne {
            None
        } else {
            Some(self.mna.assemble())
        }
    }

    /// Look up both terminal names, then reject equal indices.
    fn two_terminals(&mut self, name_1: &str, name_2: &str) -> (r: Result<(usize, usize), AnalysisError>)
        requires
            old(self).wf(),
        ensures
            final(self).wf(),
            final(self).mna() == old(self).mna(),
            final(self).edges() == old(self).edges(),
            exists|g1: bool, g2: bool|
                #![trigger two_terminal_outcome(old(self).nodes(), name_1@, g1, name_2@, g2)]
                ground_claim(name_1@, g1) && ground_claim(name_2@, g2) && (final(self).nodes(), r)
                    == two_terminal_outcome(old(self).nodes(), name_1@, g1, name_2@, g2),
    {
        let ghost nodes0 = self.node_map.nodes();
        let r1 = self.node_map.node_index(name_1);
        let ghost nodes1 = self.node_map.nodes();
        let ghost h1: bool = (nodes1, r1) == node_lookup(nodes0, name_1@, true)
            && regex_is_match(GROUND_NAME_PATTERN@, name_1@);
        assert((nodes1, r1) == node_lookup(nodes0, name_1@, h1));
        let ghost h2: bool = false;
        let r = match r1 {
            Err(_) => Err(AnalysisError::GroundNameMismatch),
            Ok(t1) => {
                let r2 = self.node_map.node_index(name_2);
                proof {
                    h2 = (self.node_map.nodes(), r2) == node_lookup(nodes1, name_2@, true)
                        && regex_is_match(GROUND_NAME_PATTERN@, name_2@);
                    assert((self.node_map.nodes(), r2) == node_lookup(nodes1, name_2@, h2));
                }
                match r2 {
                    Err(_) => Err(AnalysisError::GroundNameMismatch),
                    Ok(t2) => if t1 == t2 {
                        Err(AnalysisError::SameTerminals)
                    } else {
                        Ok((t1, t2))
                    },
                }
            },
        };
        assert(nodes0 == old(self).nodes());
        assert(ground_claim(name_1@, h1) && ground_claim(name_2@, h2) && (self.nodes(), r)
            == two_terminal_outcome(old(self).nodes(), name_1@, h1, name_2@, h2));
        r
    }
}

} // verus!
