use crate::display::answer;
use crate::display::any_placeholder;
use crate::display::append_answer;
use crate::display::append_name;
use crate::display::dot::append_node;
use crate::display::dot::node_line;
use crate::display::lists_edges;
use crate::display::lists_nodes;
use crate::display::name;
use crate::error::Error;
use crate::graph::Edge;
use crate::graph::EdgeType;
use crate::graph::Graph;
use crate::graph::GraphNodeType;
use vstd::prelude::*;
use vstd::string::StringExecFns;

verus! {

/// The statement that declares one edge, from the bottom of its source to the top of its
/// target.
pub open spec fn edge_line(e: Edge) -> Seq<char> {
    match e.2 {
        EdgeType::Normal => name(e.0) + ":s -> "@ + name(e.1) + ":n;\n"@,
        EdgeType::Branch(taken) => name(e.0) + ":s -> "@ + name(e.1) + ":n [xlabel="@ + answer(
            taken,
        ) + "];\n"@,
    }
}

/// The statements of the listed nodes, one after the other.
pub open spec fn node_lines(nodes: Seq<(usize, GraphNodeType)>) -> Seq<char>
    decreases nodes.len(),
{
    if nodes.len() == 0 {
        Seq::empty()
    } else {
        node_lines(nodes.drop_last()) + node_line(nodes.last().0, nodes.last().1)
    }
}

/// The statements of the listed edges, one after the other.
pub open spec fn edge_lines(edges: Seq<Edge>) -> Seq<char>
    decreases edges.len(),
{
    if edges.len() == 0 {
        Seq::empty()
    } else {
        edge_lines(edges.drop_last()) + edge_line(edges.last())
    }
}

/// A whole graph in Graphviz notation, every edge attached to the bottom of its source
/// and the top of its target.
pub open spec fn document(curved: bool, nodes: Seq<(usize, GraphNodeType)>, edges: Seq<Edge>) -> Seq<
    char,
> {
    "digraph {\n"@ + (if curved {
        Seq::empty()
    } else {
        "graph [splines=polyline];\n"@
    }) + node_lines(nodes) + edge_lines(edges) + "}"@
}

/// The statement of one edge, appended to `text`.
fn append_edge(text: &mut String, e: &Edge)
    ensures
        final(text)@ == old(text)@ + edge_line(*e),
{
    append_name(text, e.0);
    text.append(":s -> ");
    append_name(text, e.1);
    match e.2 {
        EdgeType::Normal => {
            text.append(":n;\n");
        },
        EdgeType::Branch(taken) => {
            text.append(":n [xlabel=");
            append_answer(text, taken);
            text.append("];\n");
        },
    }
    assert(text@ =~= old(text)@ + edge_line(*e));
}

/// The listed nodes and edges in Graphviz notation, or an error if a placeholder is
/// among the nodes.
pub fn render(curved: bool, nodes: &Vec<(usize, GraphNodeType)>, edges: &Vec<Edge>) -> (r: Result<
    String,
    Error,
>)
    ensures
        r is Err == any_placeholder(nodes@),
        r matches Ok(text) ==> text@ == document(curved, nodes@, edges@),
        r matches Err(e) ==> e is UnexpectedDummyGraphNode,
{
    let mut text = String::from_str("digraph {\n");
    if !curved {
        text.append("graph [splines=polyline];\n");
    }
    let ghost head = text@;
    let mut i: usize = 0;
    while i < nodes.len()
        invariant
            i <= nodes.len(),
            text@ == head + node_lines(nodes@.take(i as int)),
            forall|k: int| 0 <= k < i ==> !((#[trigger] nodes@[k]).1 is Dummy),
        decreases nodes.len() - i,
    {
        match &nodes[i].1 {
            GraphNodeType::Dummy => {
                return Err(Error::UnexpectedDummyGraphNode);
            },
            kind => {
                append_node(&mut text, nodes[i].0, kind);
            },
        }
        proof {
            assert(nodes@.take(i + 1).drop_last() =~= nodes@.take(i as int));
            assert(text@ =~= head + node_lines(nodes@.take(i + 1)));
        }
        i += 1;
    }
    let ghost body = text@;
    let mut j: usize = 0;
    while j < edges.len()
        invariant
            j <= edges.len(),
            text@ == body + edge_lines(edges@.take(j as int)),
        decreases edges.len() - j,
    {
        append_edge(&mut text, &edges[j]);
        proof {
            assert(edges@.take(j + 1).drop_last() =~= edges@.take(j as int));
            assert(text@ =~= body + edge_lines(edges@.take(j + 1)));
        }
        j += 1;
    }
    text.append("}");
    proof {
        assert(nodes@.take(nodes@.len() as int) =~= nodes@);
        assert(edges@.take(edges@.len() as int) =~= edges@);
        assert(text@ =~= document(curved, nodes@, edges@));
    }
    Ok(text)
}

/// The graph in Graphviz notation: its nodes in the order of their indices, then its
/// edges. A graph that still holds a placeholder has no notation.
pub fn from_graph(graph: &Graph, curved: bool) -> (r: Result<String, Error>)
    ensures
        match r {
            Ok(text) => exists|nodes: Seq<(usize, GraphNodeType)>, edges: Seq<Edge>|
                {
                    &&& lists_nodes(graph@, nodes)
                    &&& lists_edges(graph@, edges)
                    &&& !any_placeholder(nodes)
                    &&& #[trigger] document(curved, nodes, edges) == text@
                },
            Err(e) => e is UnexpectedDummyGraphNode && exists|n: usize|
                graph@.has(n) && #[trigger] graph@.nodes[n] is Dummy,
        },
{
    let nodes = graph.node_references();
    let edges = graph.edge_references();
    let r = render(curved, &nodes, &edges);
    proof {
        assert(lists_nodes(graph@, nodes@));
        assert(lists_edges(graph@, edges@));
        if r is Ok {
            assert(document(curved, nodes@, edges@) == r->Ok_0@);
        } else {
            let i = choose|i: int| 0 <= i < nodes@.len() && (#[trigger] nodes@[i]).1 is Dummy;
            assert(graph@.has(nodes@[i].0));
        }
    }
    r
}

} // verus!
