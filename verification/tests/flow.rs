use cxx2flow::ast::{Ast, AstNode, Expr};
use cxx2flow::builder::{build_graph, from_ast, GraphContext};
use cxx2flow::error::Error;
use cxx2flow::graph::{EdgeType, Graph, GraphNodeType};
use cxx2flow::simplify::simplify;
use std::collections::HashSet;

fn expr(text: &str) -> Expr {
    Expr { string: text.to_string(), func_call: HashSet::new() }
}

fn at(node: AstNode, start: usize, end: usize) -> Ast {
    Ast::new(node, start..end, None)
}

fn stat(text: &str) -> Ast {
    at(AstNode::Stat(expr(text)), 0, 0)
}

fn block(children: Vec<Ast>) -> Ast {
    at(AstNode::Compound(children), 0, 0)
}

fn sorted(graph: &Graph) -> Vec<(usize, usize, EdgeType)> {
    let mut edges = graph.edge_references();
    edges.sort_by_key(|e| {
        (
            e.0,
            e.1,
            match e.2 {
                EdgeType::Normal => 0,
                EdgeType::Branch(false) => 1,
                EdgeType::Branch(true) => 2,
            },
        )
    });
    edges
}

fn raw(ast: &Ast) -> Graph {
    let mut graph = Graph::new();
    let context = GraphContext::new(&mut graph);
    assert!(build_graph(ast, &mut graph, context).is_ok());
    graph
}

fn node(text: &str) -> GraphNodeType {
    GraphNodeType::Node(text.to_string())
}

fn choice(text: &str) -> GraphNodeType {
    GraphNodeType::Choice(text.to_string())
}

#[test]
fn empty_body_is_begin_to_end() {
    let graph = from_ast(&block(vec![])).unwrap();
    assert_eq!(graph.node_references(), vec![(0, GraphNodeType::Begin), (1, GraphNodeType::End)]);
    assert_eq!(sorted(&graph), vec![(0, 1, EdgeType::Normal)]);
}

#[test]
fn empty_body_before_simplification() {
    let graph = raw(&block(vec![]));
    assert_eq!(
        graph.node_references(),
        vec![
            (0, GraphNodeType::Begin),
            (1, GraphNodeType::End),
            (2, GraphNodeType::Dummy),
            (3, GraphNodeType::Dummy),
        ]
    );
    assert_eq!(
        graph.edge_references(),
        vec![(0, 2, EdgeType::Normal), (2, 3, EdgeType::Normal), (3, 1, EdgeType::Normal)]
    );
}

#[test]
fn simple_statement_sits_between_source_and_sink() {
    let graph = from_ast(&block(vec![stat("x = 1;")])).unwrap();
    assert_eq!(
        graph.node_references(),
        vec![(0, GraphNodeType::Begin), (1, GraphNodeType::End), (4, node("x = 1;"))]
    );
    assert_eq!(sorted(&graph), vec![(0, 4, EdgeType::Normal), (4, 1, EdgeType::Normal)]);
}

#[test]
fn statements_of_a_block_follow_each_other() {
    let graph = from_ast(&block(vec![stat("a;"), stat("b;"), stat("c;")])).unwrap();
    assert_eq!(
        graph.node_references(),
        vec![
            (0, GraphNodeType::Begin),
            (1, GraphNodeType::End),
            (4, node("a;")),
            (6, node("b;")),
            (8, node("c;")),
        ]
    );
    assert_eq!(
        sorted(&graph),
        vec![
            (0, 4, EdgeType::Normal),
            (4, 6, EdgeType::Normal),
            (6, 8, EdgeType::Normal),
            (8, 1, EdgeType::Normal),
        ]
    );
}

#[test]
fn if_without_else_joins_before_the_end() {
    let ast = block(vec![at(
        AstNode::If { cond: expr("c"), body: Box::new(block(vec![stat("x;")])), otherwise: None },
        0,
        0,
    )]);
    let built = raw(&ast);
    // The true branch runs 4 -> 5 -> 7 -> 9 -> 8 -> 6 -> 3, the false branch 4 -> 3.
    assert_eq!(built.node_weight(4), Some(&choice("c")));
    assert_eq!(built.node_weight(9), Some(&node("x;")));
    assert_eq!(built.successors(6), vec![3]);
    let mut into_join = built.incoming(3);
    into_join.sort_by_key(|e| e.0);
    assert_eq!(into_join, vec![(4, EdgeType::Branch(false)), (6, EdgeType::Normal)]);
    assert_eq!(built.successors(3), vec![1]);

    let graph = from_ast(&ast).unwrap();
    assert_eq!(
        graph.node_references(),
        vec![(0, GraphNodeType::Begin), (1, GraphNodeType::End), (4, choice("c")), (9, node("x;"))]
    );
    assert_eq!(
        sorted(&graph),
        vec![
            (0, 4, EdgeType::Normal),
            (4, 1, EdgeType::Branch(false)),
            (4, 9, EdgeType::Branch(true)),
            (9, 1, EdgeType::Normal),
        ]
    );
}

#[test]
fn if_with_else_joins_both_branches() {
    let ast = block(vec![
        at(
            AstNode::If {
                cond: expr("c"),
                body: Box::new(stat("x;")),
                otherwise: Some(Box::new(stat("y;"))),
            },
            0,
            0,
        ),
        stat("z;"),
    ]);
    let graph = from_ast(&ast).unwrap();
    assert_eq!(
        graph.node_references(),
        vec![
            (0, GraphNodeType::Begin),
            (1, GraphNodeType::End),
            (4, choice("c")),
            (7, node("x;")),
            (9, node("y;")),
            (11, node("z;")),
        ]
    );
    assert_eq!(
        sorted(&graph),
        vec![
            (0, 4, EdgeType::Normal),
            (4, 7, EdgeType::Branch(true)),
            (4, 9, EdgeType::Branch(false)),
            (7, 11, EdgeType::Normal),
            (9, 11, EdgeType::Normal),
            (11, 1, EdgeType::Normal),
        ]
    );
}

#[test]
fn while_reenters_the_decision() {
    let ast = block(vec![at(
        AstNode::While { cond: expr("c"), body: Box::new(block(vec![stat("x;")])) },
        0,
        0,
    )]);
    let graph = from_ast(&ast).unwrap();
    assert_eq!(
        graph.node_references(),
        vec![(0, GraphNodeType::Begin), (1, GraphNodeType::End), (4, choice("c")), (9, node("x;"))]
    );
    assert_eq!(
        sorted(&graph),
        vec![
            (0, 4, EdgeType::Normal),
            (4, 1, EdgeType::Branch(false)),
            (4, 9, EdgeType::Branch(true)),
            (9, 4, EdgeType::Normal),
        ]
    );
}

#[test]
fn do_while_runs_the_body_first() {
    let ast = block(vec![at(
        AstNode::DoWhile { cond: expr("c"), body: Box::new(stat("x;")) },
        0,
        0,
    )]);
    let graph = from_ast(&ast).unwrap();
    assert_eq!(
        graph.node_references(),
        vec![(0, GraphNodeType::Begin), (1, GraphNodeType::End), (6, choice("c")), (7, node("x;"))]
    );
    assert_eq!(
        sorted(&graph),
        vec![
            (0, 7, EdgeType::Normal),
            (6, 1, EdgeType::Branch(false)),
            (6, 7, EdgeType::Branch(true)),
            (7, 6, EdgeType::Normal),
        ]
    );
}

#[test]
fn for_runs_init_test_body_update() {
    let ast = block(vec![at(
        AstNode::For {
            init: expr("i = 0"),
            cond: expr("i < n"),
            upd: expr("i++"),
            body: Box::new(stat("x;")),
        },
        0,
        0,
    )]);
    let graph = from_ast(&ast).unwrap();
    assert_eq!(
        graph.node_references(),
        vec![
            (0, GraphNodeType::Begin),
            (1, GraphNodeType::End),
            (6, choice("i < n")),
            (7, node("i = 0")),
            (8, node("i++")),
            (9, node("x;")),
        ]
    );
    assert_eq!(
        sorted(&graph),
        vec![
            (0, 7, EdgeType::Normal),
            (6, 1, EdgeType::Branch(false)),
            (6, 9, EdgeType::Branch(true)),
            (7, 6, EdgeType::Normal),
            (8, 6, EdgeType::Normal),
            (9, 8, EdgeType::Normal),
        ]
    );
}

#[test]
fn continue_in_for_still_runs_the_update() {
    let ast = block(vec![at(
        AstNode::For {
            init: expr("i = 0"),
            cond: expr("i < n"),
            upd: expr("i++"),
            body: Box::new(block(vec![at(AstNode::Continue("continue".to_string()), 0, 0)])),
        },
        0,
        0,
    )]);
    let graph = from_ast(&ast).unwrap();
    assert_eq!(graph.node_weight(11), Some(&node("continue")));
    assert_eq!(graph.successors(11), vec![8]);
    assert_eq!(graph.node_weight(8), Some(&node("i++")));
}

#[test]
fn continue_in_while_goes_back_to_the_decision() {
    let ast = block(vec![at(
        AstNode::While {
            cond: expr("c"),
            body: Box::new(at(AstNode::Continue("continue".to_string()), 0, 0)),
        },
        0,
        0,
    )]);
    let graph = from_ast(&ast).unwrap();
    assert_eq!(graph.node_weight(7), Some(&node("continue")));
    assert_eq!(graph.successors(7), vec![4]);
    assert_eq!(graph.node_weight(4), Some(&choice("c")));
}

#[test]
fn bare_for_with_break_reaches_the_end() {
    let ast = block(vec![at(
        AstNode::For {
            init: expr(""),
            cond: expr("true"),
            upd: expr(""),
            body: Box::new(block(vec![at(AstNode::Break("break".to_string()), 0, 0)])),
        },
        0,
        0,
    )]);
    let graph = from_ast(&ast).unwrap();
    assert_eq!(
        graph.node_references(),
        vec![
            (0, GraphNodeType::Begin),
            (1, GraphNodeType::End),
            (6, choice("true")),
            (11, node("break")),
        ]
    );
    assert_eq!(
        sorted(&graph),
        vec![
            (0, 6, EdgeType::Normal),
            (6, 1, EdgeType::Branch(false)),
            (6, 11, EdgeType::Branch(true)),
            (11, 1, EdgeType::Normal),
        ]
    );
    assert_eq!(graph.successors(11), vec![1]);
}

#[test]
fn return_leaves_for_the_end_and_what_follows_stays_unreached() {
    let ast = block(vec![
        at(AstNode::Return(expr("return 1;")), 0, 0),
        stat("dead;"),
    ]);
    let graph = from_ast(&ast).unwrap();
    assert_eq!(
        graph.node_references(),
        vec![
            (0, GraphNodeType::Begin),
            (1, GraphNodeType::End),
            (4, node("return 1;")),
            (6, node("dead;")),
        ]
    );
    assert_eq!(
        sorted(&graph),
        vec![(0, 4, EdgeType::Normal), (4, 1, EdgeType::Normal), (6, 1, EdgeType::Normal)]
    );
    assert!(graph.incoming(6).is_empty());
}

#[test]
fn break_outside_a_loop_is_an_error() {
    let ast = block(vec![at(AstNode::Break("break".to_string()), 7, 13)]);
    match from_ast(&ast) {
        Err(Error::UnexpectedBreak { range }) => assert_eq!(range, 7..13),
        other => panic!("unexpected result: {:?}", other.map(|g| g.node_references())),
    }
}

#[test]
fn continue_outside_a_loop_is_an_error() {
    let ast = block(vec![at(AstNode::Continue("continue".to_string()), 3, 12)]);
    match from_ast(&ast) {
        Err(Error::UnexpectedContinue { range }) => assert_eq!(range, 3..12),
        other => panic!("unexpected result: {:?}", other.map(|g| g.node_references())),
    }
}

#[test]
fn break_in_an_if_outside_a_loop_is_an_error() {
    let ast = block(vec![at(
        AstNode::If {
            cond: expr("c"),
            body: Box::new(stat("x;")),
            otherwise: Some(Box::new(at(AstNode::Break("break".to_string()), 20, 26))),
        },
        0,
        30,
    )]);
    assert!(matches!(from_ast(&ast), Err(Error::UnexpectedBreak { range }) if range == (20..26)));
}

#[test]
fn the_first_error_in_source_order_wins() {
    let ast = block(vec![
        stat("a;"),
        at(AstNode::Continue("continue".to_string()), 5, 6),
        at(AstNode::Break("break".to_string()), 8, 9),
    ]);
    assert!(matches!(from_ast(&ast), Err(Error::UnexpectedContinue { range }) if range == (5..6)));
}

#[test]
fn placeholder_in_the_tree_is_an_error() {
    let ast = block(vec![stat("a;"), at(AstNode::Dummy, 4, 9)]);
    assert!(
        matches!(from_ast(&ast), Err(Error::UnexpectedDummyAstNode { range }) if range == (4..9))
    );
}

#[test]
fn switch_and_goto_are_unsupported() {
    let switch = block(vec![at(
        AstNode::Switch {
            cond: expr("x"),
            cases: vec!["1".to_string()],
            body: Box::new(block(vec![])),
        },
        2,
        40,
    )]);
    assert!(
        matches!(from_ast(&switch), Err(Error::UnsupportedConstruct { range }) if range == (2..40))
    );
    let goto = block(vec![at(AstNode::Goto("out".to_string()), 1, 10)]);
    assert!(
        matches!(from_ast(&goto), Err(Error::UnsupportedConstruct { range }) if range == (1..10))
    );
}

#[test]
fn every_decision_branches_both_ways() {
    let inner = at(
        AstNode::While {
            cond: expr("b"),
            body: Box::new(block(vec![
                at(
                    AstNode::If {
                        cond: expr("c"),
                        body: Box::new(at(AstNode::Break("break".to_string()), 0, 0)),
                        otherwise: Some(Box::new(at(AstNode::Continue("continue".to_string()), 0, 0))),
                    },
                    0,
                    0,
                ),
                stat("x;"),
            ])),
        },
        0,
        0,
    );
    let ast = block(vec![
        at(AstNode::DoWhile { cond: expr("a"), body: Box::new(block(vec![inner])) }, 0, 0),
        at(AstNode::Return(expr("return;")), 0, 0),
    ]);
    let graph = from_ast(&ast).unwrap();
    let mut begins = 0;
    let mut ends = 0;
    for (id, kind) in graph.node_references() {
        let out = graph.edge_references().into_iter().filter(|e| e.0 == id).collect::<Vec<_>>();
        match kind {
            GraphNodeType::Begin => {
                begins += 1;
                assert!(graph.incoming(id).is_empty());
                assert_eq!(out.len(), 1);
            }
            GraphNodeType::End => {
                ends += 1;
                assert!(out.is_empty());
            }
            GraphNodeType::Choice(_) => {
                assert_eq!(out.len(), 2);
                assert_eq!(out.iter().filter(|e| e.2 == EdgeType::Branch(true)).count(), 1);
                assert_eq!(out.iter().filter(|e| e.2 == EdgeType::Branch(false)).count(), 1);
            }
            GraphNodeType::Node(text) => {
                assert!(!text.is_empty());
                assert_eq!(out.len(), 1);
                assert_eq!(out[0].2, EdgeType::Normal);
            }
            GraphNodeType::Dummy => panic!("a placeholder is left"),
        }
    }
    assert_eq!(begins, 1);
    assert_eq!(ends, 1);
}

#[test]
fn simplifying_twice_changes_nothing() {
    let ast = block(vec![at(
        AstNode::For {
            init: expr(""),
            cond: expr("true"),
            upd: expr(""),
            body: Box::new(block(vec![stat("x;")])),
        },
        0,
        0,
    )]);
    let mut graph = from_ast(&ast).unwrap();
    let nodes = graph.node_references();
    let edges = graph.edge_references();
    assert!(simplify(&mut graph).is_ok());
    assert_eq!(graph.node_references(), nodes);
    assert_eq!(graph.edge_references(), edges);
}
