use libesim::netlist::in_group2;
use libesim::node_map::{NodeMap, NodeMapError};

#[test]
fn ground_aliases_resolve_to_zero() {
    let mut a = NodeMap::new();
    assert_eq!(a.node_index("0"), Ok(0));
    let mut b = NodeMap::new();
    assert_eq!(b.node_index("gnd"), Ok(0));
    assert_eq!(b.node_index("gnd"), Ok(0));
    let mut c = NodeMap::new();
    assert_eq!(c.node_index("GND"), Ok(0));
    let mut d = NodeMap::new();
    assert_eq!(d.node_index("Gnd"), Ok(0));
    assert_eq!(d.node_name(0), "Gnd");
}

#[test]
fn second_ground_spelling_is_rejected() {
    let mut m = NodeMap::new();
    assert_eq!(m.node_index("gnd"), Ok(0));
    assert_eq!(m.node_index("0"), Err(NodeMapError::GroundNameMismatch));
    assert_eq!(m.node_index("gnd"), Ok(0));
}

#[test]
fn nodes_are_numbered_in_first_seen_order() {
    let mut m = NodeMap::new();
    assert_eq!(m.node_index("vcc"), Ok(1));
    assert_eq!(m.node_index("v_out"), Ok(2));
    assert_eq!(m.node_index("vcc"), Ok(1));
    assert_eq!(m.node_index("gnd"), Ok(0));
    assert_eq!(m.node_index("n10"), Ok(3));
    assert_eq!(m.num_nodes(), 4);
    assert_eq!(m.node_name(2), "v_out");
    assert_eq!(m.node_name(3), "n10");
}

#[test]
fn ground_flag_is_taken_as_given() {
    let mut m = NodeMap::new();
    assert_eq!(m.node_index_with("ref", true), Ok(0));
    assert_eq!(m.node_index_with("ref", true), Ok(0));
    assert_eq!(m.node_index_with("a", true), Err(NodeMapError::GroundNameMismatch));
    assert_eq!(m.node_index_with("a", false), Ok(1));
    assert_eq!(m.node_index_with("a", false), Ok(1));
    assert_eq!(m.node_name(0), "ref");
}

#[test]
fn edges_have_their_own_namespace() {
    let mut m = NodeMap::new();
    assert_eq!(m.node_index("a"), Ok(1));
    assert_eq!(m.edge_index("v1"), 0);
    assert_eq!(m.edge_index("r2"), 1);
    assert_eq!(m.edge_index("v1"), 0);
    assert_eq!(m.edge_index("a"), 2);
    assert_eq!(m.num_edges(), 3);
    assert_eq!(m.edge_name(1), "r2");
}

#[test]
fn group2_marker_is_removed() {
    let mut tokens = vec!["1", "2", "50", "G2"];
    assert!(in_group2(&mut tokens));
    assert_eq!(tokens, vec!["1", "2", "50"]);
    assert!(!in_group2(&mut tokens));
    assert_eq!(tokens, vec!["1", "2", "50"]);
}
