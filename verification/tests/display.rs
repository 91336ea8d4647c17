use cxx2flow::display::d2::D2;
use cxx2flow::display::dot::Dot;
use cxx2flow::display::tikz::Tikz;
use cxx2flow::display::{GraphDisplay, GraphDisplayBackend};
use cxx2flow::error::Error;
use cxx2flow::graph::{EdgeType, Graph, GraphNodeType};
use cxx2flow::text::to_decimal;

fn sample() -> Graph {
    let mut graph = Graph::new();
    let begin = graph.add_node(GraphNodeType::Begin);
    let end = graph.add_node(GraphNodeType::End);
    let test = graph.add_node(GraphNodeType::Choice("s == \"a\"".to_string()));
    let print = graph.add_node(GraphNodeType::Node("puts(\"50%\n\");".to_string()));
    graph.add_edge(begin, test, EdgeType::Normal);
    graph.add_edge(test, print, EdgeType::Branch(true));
    graph.add_edge(test, end, EdgeType::Branch(false));
    graph.add_edge(print, end, EdgeType::Normal);
    graph
}

fn with_placeholder() -> Graph {
    let mut graph = Graph::new();
    let begin = graph.add_node(GraphNodeType::Begin);
    let hold = graph.add_node(GraphNodeType::Dummy);
    graph.add_edge(begin, hold, EdgeType::Normal);
    graph
}

const TIKZ_HEAD: &str = "\n\\documentclass[tikz,border=10pt]{standalone}\n\\usepackage{ctex}\n\\usetikzlibrary{graphdrawing}\n\\usetikzlibrary{shapes}\n\\usepackage{spverbatim}\n\\usepackage{varwidth}\n\\usetikzlibrary{graphs}\n\\usegdlibrary{layered}\n\\usepackage[T1]{fontenc}% NOT OT1!\n\\usepackage{lmodern}% Latin Modern fonts,\n  % a modern variant of Computer Modern fonts\n\\let\\ttdefault\\rmdefault\n\\tikzstyle{block} = [%\n   draw,thick,fill=blue!0,\n   inner sep=0.3cm,\n   text centered, minimum height=1em,\n   execute at begin node={\\begin{varwidth}{8em}},\n   execute at end node={\\end{varwidth}}]\n\\begin{document}\n\\tikz [layered layout, sibling distance=3cm] {\n  ";

const TIKZ_TAIL: &str = "\n}\n\\end{document}\n  ";

#[test]
fn decimal_numbers() {
    assert_eq!(to_decimal(0), "0");
    assert_eq!(to_decimal(7), "7");
    assert_eq!(to_decimal(10), "10");
    assert_eq!(to_decimal(409), "409");
    assert_eq!(to_decimal(1234567890), "1234567890");
    assert_eq!(to_decimal(usize::MAX), usize::MAX.to_string());
}

#[test]
fn dot_with_straight_edges() {
    let text = Dot::new(false).generate_from_graph(&sample()).unwrap();
    assert_eq!(
        text,
        "digraph {\n\
         graph [splines=polyline];\n\
         D0 [shape=box, style=rounded, label=\"begin\"];\n\
         {rank = sink; D1 [shape=box, style=rounded, label=\"end\"];}\n\
         D2 [shape=diamond, label=\"s == \\\"a\\\"?\"];\n\
         D3 [shape=box, label=\"puts(\\\"50%\n\\\");\"];\n\
         D0 -> D2;\n\
         D2:s -> D3:n [xlabel=Y];\n\
         D2:e -> D1:n [xlabel=N];\n\
         D3 -> D1;\n\
         }\n"
    );
}

#[test]
fn dot_with_curved_edges_has_no_spline_line() {
    let mut graph = Graph::new();
    let begin = graph.add_node(GraphNodeType::Begin);
    let end = graph.add_node(GraphNodeType::End);
    graph.add_edge(begin, end, EdgeType::Normal);
    let text = Dot::new(true).generate_from_graph(&graph).unwrap();
    assert_eq!(
        text,
        "digraph {\n\
         D0 [shape=box, style=rounded, label=\"begin\"];\n\
         {rank = sink; D1 [shape=box, style=rounded, label=\"end\"];}\n\
         D0 -> D1;\n\
         }\n"
    );
}

#[test]
fn dot_of_render_takes_the_lists_as_they_come() {
    let nodes = vec![(12, GraphNodeType::End), (3, GraphNodeType::Begin)];
    let edges = vec![(3, 12, EdgeType::Branch(false))];
    let text = cxx2flow::display::dot::render(true, &nodes, &edges).unwrap();
    assert_eq!(
        text,
        "digraph {\n\
         {rank = sink; D12 [shape=box, style=rounded, label=\"end\"];}\n\
         D3 [shape=box, style=rounded, label=\"begin\"];\n\
         D3:e -> D12:n [xlabel=N];\n\
         }\n"
    );
}

#[test]
fn d2_notation() {
    let text = D2::new().generate_from_graph(&sample()).unwrap();
    assert_eq!(
        text,
        "D0: begin\n\
         D1: end\n\
         D2: \"s == \\\"a\\\"\"\n\
         D2.shape: diamond\n\
         D3: \"puts(\\\"50%\\n\\\");\"\n\
         D0 -> D2\n\
         D2 -> D3: Y\n\
         D2 -> D1: N\n\
         D3 -> D1\n"
    );
}

#[test]
fn d2_of_nothing_is_empty() {
    assert_eq!(D2::new().generate_from_graph(&Graph::new()).unwrap(), "");
}

#[test]
fn tikz_notation() {
    let text = Tikz::new().generate_from_graph(&sample()).unwrap();
    let body = "\\node[draw] (D0) [rounded rectangle, block] { Begin };\n\
                \\node[draw] (D1) [rounded rectangle, block] { End };\n\
                \\node[draw] (D2) [diamond, aspect=2, block] { \\spverb$s == \"a\"$ }; \
                \\node[draw] (D3) [rectangle, block] { \\spverb$puts(\"50\\% \");$ }; \
                \\draw (D0) edge[->] (D2);\n\
                \\draw (D2) edge[->, below] node { 3 } (DY);\n\
                \\draw (D2) edge[->, below] node { 1 } (DN);\n\
                \\draw (D3) edge[->] (D1);\n";
    assert_eq!(text, format!("{}{}{}", TIKZ_HEAD, body, TIKZ_TAIL));
}

#[test]
fn tikz_from_graph_ignores_the_curve_flag() {
    let graph = sample();
    assert_eq!(
        cxx2flow::tikz::from_graph(&graph, true).unwrap(),
        cxx2flow::tikz::from_graph(&graph, false).unwrap()
    );
    assert_eq!(
        cxx2flow::tikz::from_graph(&Graph::new(), false).unwrap(),
        format!("{}{}", TIKZ_HEAD, TIKZ_TAIL)
    );
}

#[test]
fn every_notation_refuses_a_placeholder() {
    let graph = with_placeholder();
    assert!(matches!(
        Dot::new(false).generate_from_graph(&graph),
        Err(Error::UnexpectedDummyGraphNode)
    ));
    assert!(matches!(D2::new().generate_from_graph(&graph), Err(Error::UnexpectedDummyGraphNode)));
    assert!(matches!(
        Tikz::new().generate_from_graph(&graph),
        Err(Error::UnexpectedDummyGraphNode)
    ));
    assert!(matches!(
        cxx2flow::tikz::from_graph(&graph, false),
        Err(Error::UnexpectedDummyGraphNode)
    ));
    assert!(matches!(
        cxx2flow::dot::from_graph(&graph, false),
        Err(Error::UnexpectedDummyGraphNode)
    ));
}

#[test]
fn the_backend_passes_the_graph_on_to_its_notation() {
    let graph = sample();
    assert_eq!(
        GraphDisplayBackend::Dot(Dot::new(true)).generate_from_graph(&graph).unwrap(),
        Dot::new(true).generate_from_graph(&graph).unwrap()
    );
    assert_eq!(
        GraphDisplayBackend::D2(D2::new()).generate_from_graph(&graph).unwrap(),
        D2::new().generate_from_graph(&graph).unwrap()
    );
    assert_eq!(
        GraphDisplayBackend::Tikz(Tikz::new()).generate_from_graph(&graph).unwrap(),
        Tikz::new().generate_from_graph(&graph).unwrap()
    );
    assert!(matches!(
        GraphDisplayBackend::D2(D2::new()).generate_from_graph(&with_placeholder()),
        Err(Error::UnexpectedDummyGraphNode)
    ));
}

#[test]
fn plain_dot_attaches_edges_to_ports() {
    let text = cxx2flow::dot::from_graph(&sample(), false).unwrap();
    assert_eq!(
        text,
        "digraph {\n\
         graph [splines=polyline];\n\
         D0 [shape=box, style=rounded, label=\"begin\"];\n\
         {rank = sink; D1 [shape=box, style=rounded, label=\"end\"];}\n\
         D2 [shape=diamond, label=\"s == \\\"a\\\"?\"];\n\
         D3 [shape=box, label=\"puts(\\\"50%\n\\\");\"];\n\
         D0:s -> D2:n;\n\
         D2:s -> D3:n [xlabel=Y];\n\
         D2:s -> D1:n [xlabel=N];\n\
         D3:s -> D1:n;\n\
         }"
    );
    let mut graph = Graph::new();
    let begin = graph.add_node(GraphNodeType::Begin);
    let end = graph.add_node(GraphNodeType::End);
    graph.add_edge(begin, end, EdgeType::Normal);
    let text = cxx2flow::dot::from_graph(&graph, true).unwrap();
    assert_eq!(
        text,
        "digraph {\n\
         D0 [shape=box, style=rounded, label=\"begin\"];\n\
         {rank = sink; D1 [shape=box, style=rounded, label=\"end\"];}\n\
         D0:s -> D1:n;\n\
         }"
    );
}
