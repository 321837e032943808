//! The index allocator: netlist terminal names to node indices, and branch
//! labels to branch indices.
//!
//! Ground is node 0 under any of its aliases, and a circuit may spell it in
//! only one way. Other names get indices 1, 2, ... in the order first seen.
//! Branch labels get indices 0, 1, ... in their own namespace. No index is
//! ever reused.

use vstd::prelude::*;

verus! {

/// The names that denote ground: `0`, or `gnd` in any letter case.
pub const GROUND_NAME_PATTERN: &'static str = "^(?:0|(?i:gnd))$";

/// Whether `text` has a match of the regular expression `pattern`.
pub uninterp spec fn regex_is_match(pattern: Seq<char>, text: Seq<char>) -> bool;

/// Relies on `regex::Regex::new`, which compiles `pattern` or fails, and
/// `regex::Regex::is_match`, which reports whether the compiled expression
/// matches anywhere in `text`. Returns `None` where compilation fails.
#[verifier::external_body]
fn regex_match(pattern: &str, text: &str) -> (r: Option<bool>)
    ensures
        r matches Some(b) ==> b == regex_is_match(pattern@, text@),
{
    match regex::Regex::new(pattern) {
        Ok(re) => Some(re.is_match(text)),
        Err(_) => None,
    }
}

/// A ground name that disagrees with the one the circuit already uses.
#[derive(Clone, Copy, Debug, PartialEq, Eq)]
pub enum NodeMapError {
    GroundNameMismatch,
}

/// The state after looking up `name` among `nodes` (ground's name at 0,
/// empty while no ground was seen), and the result: `is_ground` says
/// whether `name` denotes ground.
pub open spec fn node_lookup(nodes: Seq<Seq<char>>, name: Seq<char>, is_ground: bool) -> (
    Seq<Seq<char>>,
    Result<usize, NodeMapError>,
) {
    if is_ground {
        if nodes[0] == Seq::<char>::empty() {
            (nodes.update(0, name), Ok(0))
        } else if nodes[0] == name {
            (nodes, Ok(0))
        } else {
            (nodes, Err(NodeMapError::GroundNameMismatch))
        }
    } else if exists|k: int| 1 <= k < nodes.len() && nodes[k] == name {
        let k = choose|k: int| 1 <= k < nodes.len() && nodes[k] == name;
        (nodes, Ok(k as usize))
    } else {
        (nodes.push(name), Ok(nodes.len() as usize))
    }
}

/// The labels after looking up `name` among `edges`, and its index.
pub open spec fn edge_lookup(edges: Seq<Seq<char>>, name: Seq<char>) -> (Seq<Seq<char>>, usize) {
    if edges.contains(name) {
        (edges, edges.index_of(name) as usize)
    } else {
        (edges.push(name), edges.len() as usize)
    }
}

/// Map from node indices to netlist node names, and from branch indices to
/// branch labels.
#[derive(Debug)]
pub struct NodeMap {
    /// Voltage nodes (including ground at position 0)
    index_to_name: Vec<String>,
    /// Current edge labels
    edge_to_name: Vec<String>,
}

impl NodeMap {
    /// Node names by index; index 0 holds ground's name, or is empty.
    pub closed spec fn nodes(&self) -> Seq<Seq<char>> {
        self.index_to_name@.map_values(|s: String| s@)
    }

    /// Branch labels by index.
    pub closed spec fn edges(&self) -> Seq<Seq<char>> {
        self.edge_to_name@.map_values(|s: String| s@)
    }

    /// Ground has a slot, and no name or label has two indices.
    pub open spec fn wf(&self) -> bool {
        &&& self.nodes().len() >= 1
        &&& forall|i: int, j: int|
            1 <= i < j < self.nodes().len() ==> self.nodes()[i] != self.nodes()[j]
        &&& self.edges().no_duplicates()
    }

    /// An empty node map.
    pub fn new() -> (r: Self)
        ensures
            r.wf(),
            r.nodes() == seq![Seq::<char>::empty()],
            r.edges() == Seq::<Seq<char>>::empty(),
    {
        let r = NodeMap { index_to_name: vec![String::new()], edge_to_name: vec![] };
        assert(r.nodes() =~= seq![Seq::<char>::empty()]);
        assert(r.edges() =~= Seq::<Seq<char>>::empty());
        r
    }

    /// Record `ground_name` as the circuit's name for ground, or check that
    /// it is the name already recorded.
    fn add_ground_node(&mut self, ground_name: &str) -> (r: Result<(), NodeMapError>)
        requires
            old(self).wf(),
        ensures
            final(self).wf(),
            final(self).edges() == old(self).edges(),
            (final(self).nodes(), r matches Ok(_)) == (
                node_lookup(old(self).nodes(), ground_name@, true).0,
                node_lookup(old(self).nodes(), ground_name@, true).1 matches Ok(_),
            ),
    {
        let name = ground_name.to_owned();
        assert(self.nodes()[0] == self.index_to_name@[0]@);
        if self.index_to_name[0].as_str().is_empty() {
            // If no ground node has been encountered yet,
            // store it here
            assert(old(self).nodes()[0] =~= Seq::<char>::empty());
            self.index_to_name[0] = name;
            assert(self.nodes() =~= old(self).nodes().update(0, ground_name@));
            Ok(())
        } else if self.index_to_name[0] == name {
            Ok(())
        } else {
            // The ground name disagrees with the one used before
            Err(NodeMapError::GroundNameMismatch)
        }
    }

    /// Look up a node name whose ground status is given: ground names return
    /// 0 (checking that ground is spelled one way only); other names return
    /// their index, allocating the next one on first sight.
    pub fn node_index_with(&mut self, node_name: &str, is_ground: bool) -> (r: Result<
        usize,
        NodeMapError,
    >)
        requires
            old(self).wf(),
        ensures
            final(self).wf(),
            final(self).edges() == old(self).edges(),
            (final(self).nodes(), r) == node_lookup(old(self).nodes(), node_name@, is_ground),
    {
        if is_ground {
            match self.add_ground_node(node_name) {
                Ok(()) => Ok(0),
                Err(e) => Err(e),
            }
        } else {
            let name = node_name.to_owned();
            let ghost nodes = old(self).nodes();
            let mut i: usize = 1;
            let mut found = false;
            while i < self.index_to_name.len() && !found
                invariant
                    self.wf(),
                    self.nodes() == nodes,
                    self.edges() == old(self).edges(),
                    name@ == node_name@,
                    1 <= i <= nodes.len(),
                    found ==> i < nodes.len() && nodes[i as int] == name@,
                    !found ==> forall|k: int| 1 <= k < i ==> nodes[k] != name@,
                decreases nodes.len() - i + if found { 0int } else { 1int },
            {
                assert(nodes[i as int] == self.index_to_name@[i as int]@);
                if self.index_to_name[i] == name {
                    found = true;
                } else {
                    i = i + 1;
                }
            }
            if found {
                assert(exists|k: int| 1 <= k < nodes.len() && nodes[k] == node_name@);
                let ghost k = choose|k: int| 1 <= k < nodes.len() && nodes[k] == node_name@;
                assert(k == i);
                Ok(i)
            } else {
                self.index_to_name.push(name);
                assert(self.nodes() =~= nodes.push(node_name@));
                Ok(self.index_to_name.len() - 1)
            }
        }
    }

    /// Return the index of a node name: 0 for a name that denotes ground
    /// (see [`GROUND_NAME_PATTERN`]), else the index assigned on first
    /// sight. Fails where ground is spelled two ways in one circuit. Where
    /// the pattern cannot be compiled no name is treated as ground.
    pub fn node_index(&mut self, node_name: &str) -> (r: Result<usize, NodeMapError>)
        requires
            old(self).wf(),
        ensures
            final(self).wf(),
            final(self).edges() == old(self).edges(),
            (final(self).nodes(), r) == node_lookup(old(self).nodes(), node_name@, true)
                && regex_is_match(GROUND_NAME_PATTERN@, node_name@) || (final(self).nodes(), r)
                == node_lookup(old(self).nodes(), node_name@, false),
    {
        let is_ground = match regex_match(GROUND_NAME_PATTERN, node_name) {
            Some(b) => b,
            None => false,
        };
        self.node_index_with(node_name, is_ground)
    }

    /// Return the index of a branch label, allocating the next one on first
    /// sight.
    pub fn edge_index(&mut self, edge_name: &str) -> (r: usize)
        requires
            old(self).wf(),
        ensures
            final(self).wf(),
            final(self).nodes() == old(self).nodes(),
            (final(self).edges(), r) == edge_lookup(old(self).edges(), edge_name@),
            r < usize::MAX,
    {
        let name = edge_name.to_owned();
        let mut i: usize = 0;
        while i < self.edge_to_name.len()
            invariant
                self.wf(),
                self.nodes() == old(self).nodes(),
                self.edges() == old(self).edges(),
                name@ == edge_name@,
                0 <= i <= self.edges().len(),
                forall|k: int| 0 <= k < i ==> self.edges()[k] != name@,
            decreases self.edges().len() - i,
        {
            if self.edge_to_name[i] == name {
                assert(self.edges()[i as int] == self.edge_to_name@[i as int]@);
                proof {
                    self.edges().index_of_first_ensures(name@);
                    assert(self.edges().contains(name@));
                }
                return i;
            }
            i = i + 1;
        }
        assert(!self.edges().contains(name@));
        self.edge_to_name.push(name);
        assert(self.edges() =~= old(self).edges().push(edge_name@));
        self.edge_to_name.len() - 1
    }

    /// The name of node `index` (empty for ground while it has no name).
    pub fn node_name(&self, index: usize) -> (r: &String)
        requires
            index < self.nodes().len(),
        ensures
            r@ == self.nodes()[index as int],
    {
        &self.index_to_name[index]
    }

    /// The label of branch `index`.
    pub fn edge_name(&self, index: usize) -> (r: &String)
        requires
            index < self.edges().len(),
        ensures
            r@ == self.edges()[index as int],
    {
        &self.edge_to_name[index]
    }

    /// The number of node indices allocated, ground included.
    pub fn num_nodes(&self) -> (r: usize)
        ensures
            r == self.nodes().len(),
    {
        self.index_to_name.len()
    }

    /// The number of branch indices allocated.
    pub fn num_edges(&self) -> (r: usize)
        ensures
            r == self.edges().len(),
    {
        self.edge_to_name.len()
    }
}

} // verus!
