use cxx2flow::error::Error;
use cxx2flow::graph::{EdgeType, Graph, GraphNodeType};
use cxx2flow::simplify::{
    find_candidate, remove_single_node, remove_zero_in_degree_nodes, simplify, Scaffold,
};

fn node(text: &str) -> GraphNodeType {
    GraphNodeType::Node(text.to_string())
}

#[test]
fn new_graph_is_empty() {
    let graph = Graph::new();
    assert!(graph.node_indices().is_empty());
    assert!(graph.node_references().is_empty());
    assert!(graph.edge_references().is_empty());
}

#[test]
fn added_nodes_get_fresh_indices_and_keep_their_kinds() {
    let mut graph = Graph::new();
    let a = graph.add_node(GraphNodeType::Begin);
    let b = graph.add_node(node("x"));
    let c = graph.add_node(GraphNodeType::Choice("c".to_string()));
    assert_eq!((a, b, c), (0, 1, 2));
    assert_eq!(graph.node_indices(), vec![0, 1, 2]);
    assert_eq!(graph.node_weight(b), Some(&node("x")));
    assert_eq!(graph.node_weight(c), Some(&GraphNodeType::Choice("c".to_string())));
    assert_eq!(graph.node_weight(7), None);
    assert_eq!(
        graph.node_references(),
        vec![(0, GraphNodeType::Begin), (1, node("x")), (2, GraphNodeType::Choice("c".to_string()))]
    );
}

#[test]
fn parallel_edges_are_kept_apart() {
    let mut graph = Graph::new();
    let a = graph.add_node(node("a"));
    let b = graph.add_node(node("b"));
    graph.add_edge(a, b, EdgeType::Normal);
    graph.add_edge(a, b, EdgeType::Normal);
    graph.add_edge(a, b, EdgeType::Branch(true));
    assert_eq!(
        graph.edge_references(),
        vec![(a, b, EdgeType::Normal), (a, b, EdgeType::Normal), (a, b, EdgeType::Branch(true))]
    );
    assert_eq!(graph.successors(a), vec![b, b, b]);
    assert_eq!(graph.incoming(b).len(), 3);
    assert!(graph.incoming(a).is_empty());
    assert!(graph.successors(b).is_empty());
}

#[test]
fn incoming_and_successors_tell_directions_apart() {
    let mut graph = Graph::new();
    let a = graph.add_node(node("a"));
    let b = graph.add_node(node("b"));
    let c = graph.add_node(node("c"));
    graph.add_edge(a, b, EdgeType::Branch(false));
    graph.add_edge(b, c, EdgeType::Normal);
    graph.add_edge(c, c, EdgeType::Normal);
    assert_eq!(graph.incoming(b), vec![(a, EdgeType::Branch(false))]);
    assert_eq!(graph.successors(b), vec![c]);
    let mut into_c = graph.incoming(c);
    into_c.sort_by_key(|e| e.0);
    assert_eq!(into_c, vec![(b, EdgeType::Normal), (c, EdgeType::Normal)]);
    assert_eq!(graph.successors(c), vec![c]);
}

#[test]
fn removing_a_node_removes_its_edges_and_nothing_else() {
    let mut graph = Graph::new();
    let a = graph.add_node(node("a"));
    let b = graph.add_node(node("b"));
    let c = graph.add_node(node("c"));
    graph.add_edge(a, b, EdgeType::Normal);
    graph.add_edge(b, c, EdgeType::Normal);
    graph.add_edge(a, c, EdgeType::Branch(true));
    assert!(graph.remove_node(b));
    assert!(!graph.remove_node(b));
    assert_eq!(graph.node_indices(), vec![a, c]);
    assert_eq!(graph.edge_references(), vec![(a, c, EdgeType::Branch(true))]);
    assert_eq!(graph.node_weight(b), None);
}

#[test]
fn an_index_that_was_given_up_can_be_given_again() {
    let mut graph = Graph::new();
    let a = graph.add_node(node("a"));
    let b = graph.add_node(node("b"));
    assert!(graph.remove_node(a));
    let c = graph.add_node(node("c"));
    assert_ne!(c, b);
    assert_eq!(graph.node_weight(c), Some(&node("c")));
    assert_eq!(graph.node_indices().len(), 2);
}

#[test]
fn duplicate_keeps_kind_and_text() {
    assert_eq!(GraphNodeType::Dummy.duplicate(), GraphNodeType::Dummy);
    assert_eq!(GraphNodeType::Begin.duplicate(), GraphNodeType::Begin);
    assert_eq!(GraphNodeType::End.duplicate(), GraphNodeType::End);
    assert_eq!(node("x = 1;").duplicate(), node("x = 1;"));
    assert_eq!(
        GraphNodeType::Choice("a < b".to_string()).duplicate(),
        GraphNodeType::Choice("a < b".to_string())
    );
}

#[test]
fn the_first_candidate_has_the_smallest_index() {
    let mut graph = Graph::new();
    graph.add_node(GraphNodeType::Begin);
    graph.add_node(node(""));
    graph.add_node(GraphNodeType::Dummy);
    graph.add_node(node("x"));
    graph.add_node(GraphNodeType::Dummy);
    graph.add_node(node(""));
    assert_eq!(find_candidate(&graph, Scaffold::Placeholder), Some(2));
    assert_eq!(find_candidate(&graph, Scaffold::EmptyInstruction), Some(1));
    let plain = Graph::new();
    assert_eq!(find_candidate(&plain, Scaffold::Placeholder), None);
    assert_eq!(find_candidate(&plain, Scaffold::EmptyInstruction), None);
}

#[test]
fn dead_placeholders_are_removed_one_at_a_time() {
    let mut graph = Graph::new();
    let begin = graph.add_node(GraphNodeType::Begin);
    let live = graph.add_node(GraphNodeType::Dummy);
    let dead = graph.add_node(GraphNodeType::Dummy);
    let behind = graph.add_node(GraphNodeType::Dummy);
    let end = graph.add_node(GraphNodeType::End);
    graph.add_edge(begin, live, EdgeType::Normal);
    graph.add_edge(live, end, EdgeType::Normal);
    graph.add_edge(dead, behind, EdgeType::Normal);
    graph.add_edge(behind, end, EdgeType::Normal);
    assert!(remove_zero_in_degree_nodes(&mut graph));
    assert_eq!(graph.node_indices(), vec![begin, live, behind, end]);
    assert!(remove_zero_in_degree_nodes(&mut graph));
    assert_eq!(graph.node_indices(), vec![begin, live, end]);
    assert!(!remove_zero_in_degree_nodes(&mut graph));
    assert_eq!(graph.node_indices(), vec![begin, live, end]);
    assert_eq!(
        graph.edge_references(),
        vec![(begin, live, EdgeType::Normal), (live, end, EdgeType::Normal)]
    );
}

#[test]
fn an_instruction_that_nothing_leads_to_is_not_dead() {
    let mut graph = Graph::new();
    let a = graph.add_node(node("a"));
    let end = graph.add_node(GraphNodeType::End);
    graph.add_edge(a, end, EdgeType::Normal);
    assert!(!remove_zero_in_degree_nodes(&mut graph));
    assert_eq!(graph.node_indices(), vec![a, end]);
}

#[test]
fn splicing_keeps_sources_and_kinds_of_edges() {
    let mut graph = Graph::new();
    let test = graph.add_node(GraphNodeType::Choice("c".to_string()));
    let other = graph.add_node(node("x"));
    let join = graph.add_node(GraphNodeType::Dummy);
    let end = graph.add_node(GraphNodeType::End);
    graph.add_edge(test, other, EdgeType::Branch(true));
    graph.add_edge(test, join, EdgeType::Branch(false));
    graph.add_edge(other, join, EdgeType::Normal);
    graph.add_edge(join, end, EdgeType::Normal);
    assert!(matches!(remove_single_node(&mut graph, Scaffold::Placeholder), Ok(true)));
    assert_eq!(graph.node_indices(), vec![test, other, end]);
    let mut edges = graph.edge_references();
    edges.sort_by_key(|e| (e.0, e.1));
    assert_eq!(
        edges,
        vec![
            (test, other, EdgeType::Branch(true)),
            (test, end, EdgeType::Branch(false)),
            (other, end, EdgeType::Normal),
        ]
    );
    assert!(matches!(remove_single_node(&mut graph, Scaffold::Placeholder), Ok(false)));
    assert_eq!(graph.node_indices(), vec![test, other, end]);
}

#[test]
fn a_placeholder_without_an_outgoing_edge_cannot_be_spliced() {
    let mut graph = Graph::new();
    let begin = graph.add_node(GraphNodeType::Begin);
    let stuck = graph.add_node(GraphNodeType::Dummy);
    graph.add_edge(begin, stuck, EdgeType::Normal);
    match remove_single_node(&mut graph, Scaffold::Placeholder) {
        Err(Error::UnexpectedOutgoingEdges { node_index, neighbors }) => {
            assert_eq!(node_index, stuck);
            assert!(neighbors.is_empty());
        }
        other => panic!("unexpected result: {:?}", other),
    }
    assert_eq!(graph.node_indices(), vec![begin, stuck]);
    assert_eq!(graph.edge_references(), vec![(begin, stuck, EdgeType::Normal)]);
}

#[test]
fn a_placeholder_with_two_outgoing_edges_cannot_be_spliced() {
    let mut graph = Graph::new();
    let begin = graph.add_node(GraphNodeType::Begin);
    let fork = graph.add_node(GraphNodeType::Dummy);
    let a = graph.add_node(node("a"));
    let b = graph.add_node(node("b"));
    graph.add_edge(begin, fork, EdgeType::Normal);
    graph.add_edge(fork, a, EdgeType::Normal);
    graph.add_edge(fork, b, EdgeType::Normal);
    match simplify(&mut graph) {
        Err(Error::UnexpectedOutgoingEdges { node_index, neighbors }) => {
            assert_eq!(node_index, fork);
            let mut neighbors = neighbors;
            neighbors.sort();
            assert_eq!(neighbors, vec![a, b]);
        }
        other => panic!("unexpected result: {:?}", other),
    }
}

#[test]
fn two_parallel_edges_out_of_a_placeholder_are_two_edges() {
    let mut graph = Graph::new();
    let fork = graph.add_node(GraphNodeType::Dummy);
    let a = graph.add_node(node("a"));
    graph.add_edge(a, fork, EdgeType::Normal);
    graph.add_edge(fork, a, EdgeType::Normal);
    graph.add_edge(fork, a, EdgeType::Branch(true));
    match remove_single_node(&mut graph, Scaffold::Placeholder) {
        Err(Error::UnexpectedOutgoingEdges { node_index, neighbors }) => {
            assert_eq!(node_index, fork);
            assert_eq!(neighbors, vec![a, a]);
        }
        other => panic!("unexpected result: {:?}", other),
    }
}

#[test]
fn empty_instructions_are_spliced_out_last() {
    let mut graph = Graph::new();
    let begin = graph.add_node(GraphNodeType::Begin);
    let empty = graph.add_node(node(""));
    let hold = graph.add_node(GraphNodeType::Dummy);
    let full = graph.add_node(node("x"));
    let end = graph.add_node(GraphNodeType::End);
    graph.add_edge(begin, empty, EdgeType::Normal);
    graph.add_edge(empty, hold, EdgeType::Normal);
    graph.add_edge(hold, full, EdgeType::Normal);
    graph.add_edge(full, end, EdgeType::Normal);
    assert!(simplify(&mut graph).is_ok());
    assert_eq!(
        graph.node_references(),
        vec![(begin, GraphNodeType::Begin), (full, node("x")), (end, GraphNodeType::End)]
    );
    let mut edges = graph.edge_references();
    edges.sort_by_key(|e| e.0);
    assert_eq!(edges, vec![(begin, full, EdgeType::Normal), (full, end, EdgeType::Normal)]);
}

#[test]
fn a_graph_without_scaffolding_is_left_alone() {
    let mut graph = Graph::new();
    let begin = graph.add_node(GraphNodeType::Begin);
    let test = graph.add_node(GraphNodeType::Choice("c".to_string()));
    let end = graph.add_node(GraphNodeType::End);
    graph.add_edge(begin, test, EdgeType::Normal);
    graph.add_edge(test, test, EdgeType::Branch(true));
    graph.add_edge(test, end, EdgeType::Branch(false));
    let nodes = graph.node_references();
    let edges = graph.edge_references();
    assert!(simplify(&mut graph).is_ok());
    assert_eq!(graph.node_references(), nodes);
    assert_eq!(graph.edge_references(), edges);
}
