use super::answer;
use super::any_placeholder;
use super::append_answer;
use super::append_name;
use super::lists_edges;
use super::lists_nodes;
use super::name;
use super::GraphDisplay;
use crate::error::Error;
use crate::graph::Edge;
use crate::graph::EdgeType;
use crate::graph::Graph;
use crate::graph::GraphNodeType;
use crate::text::replace;
use crate::text::replaced;
use vstd::prelude::*;
use vstd::string::StringExecFns;

verus! {

/// The D2 notation.
#[derive(Debug, Default)]
pub struct D2 {}

/// The lines that declare one node: its label, and for a decision its shape. Quotes in
/// a label are escaped, and so are line breaks in the label of an instruction. A
/// placeholder has no lines.
pub open spec fn node_line(id: usize, kind: GraphNodeType) -> Seq<char> {
    match kind {
        GraphNodeType::Begin => name(id) + ": begin\n"@,
        GraphNodeType::End => name(id) + ": end\n"@,
        GraphNodeType::Node(text) => name(id) + ": \""@ + replaced(
            replaced(text@, '"', "\\\""@),
            '\n',
            "\\n"@,
        ) + "\"\n"@,
        GraphNodeType::Choice(text) => name(id) + ": \""@ + replaced(text@, '"', "\\\""@) + "\"\n"@
            + name(id) + ".shape: diamond\n"@,
        GraphNodeType::Dummy => Seq::empty(),
    }
}

/// The line that declares one edge, labelled with its answer if it is a branch.
pub open spec fn edge_line(e: Edge) -> Seq<char> {
    match e.2 {
        EdgeType::Normal => name(e.0) + " -> "@ + name(e.1) + "\n"@,
        EdgeType::Branch(taken) => name(e.0) + " -> "@ + name(e.1) + ": "@ + answer(taken) + "\n"@,
    }
}

/// The lines of the listed nodes, one after the other.
pub open spec fn node_lines(nodes: Seq<(usize, GraphNodeType)>) -> Seq<char>
    decreases nodes.len(),
{
    if nodes.len() == 0 {
        Seq::empty()
    } else {
        node_lines(nodes.drop_last()) + node_line(nodes.last().0, nodes.last().1)
    }
}

/// The lines of the listed edges, one after the other.
pub open spec fn edge_lines(edges: Seq<Edge>) -> Seq<char>
    decreases edges.len(),
{
    if edges.len() == 0 {
        Seq::empty()
    } else {
        edge_lines(edges.drop_last()) + edge_line(edges.last())
    }
}

/// A whole graph in D2 notation.
pub open spec fn document(nodes: Seq<(usize, GraphNodeType)>, edges: Seq<Edge>) -> Seq<char> {
    node_lines(nodes) + edge_lines(edges)
}

/// The lines of one node, appended to `text`.
fn append_node(text: &mut String, id: usize, kind: &GraphNodeType)
    ensures
        final(text)@ == old(text)@ + node_line(id, *kind),
{
    match kind {
        GraphNodeType::Begin => {
            append_name(text, id);
            text.append(": begin\n");
        },
        GraphNodeType::End => {
            append_name(text, id);
            text.append(": end\n");
        },
        GraphNodeType::Node(label) => {
            append_name(text, id);
            text.append(": \"");
            let quoted = replace(label.as_str(), '"', "\\\"");
            let escaped = replace(quoted.as_str(), '\n', "\\n");
            text.append(escaped.as_str());
            text.append("\"\n");
        },
        GraphNodeType::Choice(label) => {
            append_name(text, id);
            text.append(": \"");
            let escaped = replace(label.as_str(), '"', "\\\"");
            text.append(escaped.as_str());
            text.append("\"\n");
            append_name(text, id);
            text.append(".shape: diamond\n");
        },
        GraphNodeType::Dummy => {},
    }
    assert(text@ =~= old(text)@ + node_line(id, *kind));
}

/// The line of one edge, appended to `text`.
fn append_edge(text: &mut String, e: &Edge)
    ensures
        final(text)@ == old(text)@ + edge_line(*e),
{
    append_name(text, e.0);
    text.append(" -> ");
    append_name(text, e.1);
    match e.2 {
        EdgeType::Normal => {
            text.append("\n");
        },
        EdgeType::Branch(taken) => {
            text.append(": ");
            append_answer(text, taken);
            text.append("\n");
        },
    }
    assert(text@ =~= old(text)@ + edge_line(*e));
}

/// The listed nodes and edges in D2 notation, or an error if a placeholder is among
/// the nodes.
pub fn render(nodes: &Vec<(usize, GraphNodeType)>, edges: &Vec<Edge>) -> (r: Result<String, Error>)
    ensures
        r is Err == any_placeholder(nodes@),
        r matches Ok(text) ==> text@ == document(nodes@, edges@),
        r matches Err(e) ==> e is UnexpectedDummyGraphNode,
{
    let mut text = String::new();
    let mut i: usize = 0;
    while i < nodes.len()
        invariant
            i <= nodes.len(),
            text@ == node_lines(nodes@.take(i as int)),
            forall|k: int| 0 <= k < i ==> !((#[trigger] nodes@[k]).1 is Dummy),
        decreases nodes.len() - i,
    {
        match &nodes[i].1 {
            GraphNodeType::Dummy => {
                return Err(Error::UnexpectedDummyGraphNode);
            },
            kind => {
                append_node(&mut text, nodes[i].0, kind);
            },
        }
        proof {
            assert(nodes@.take(i + 1).drop_last() =~= nodes@.take(i as int));
        }
        i += 1;
    }
    let ghost body = text@;
    let mut j: usize = 0;
    while j < edges.len()
        invariant
            j <= edges.len(),
            text@ == body + edge_lines(edges@.take(j as int)),
        decreases edges.len() - j,
    {
        append_edge(&mut text, &edges[j]);
        proof {
            assert(edges@.take(j + 1).drop_last() =~= edges@.take(j as int));
            assert(text@ =~= body + edge_lines(edges@.take(j + 1)));
        }
        j += 1;
    }
    proof {
        assert(nodes@.take(nodes@.len() as int) =~= nodes@);
        assert(edges@.take(edges@.len() as int) =~= edges@);
    }
    Ok(text)
}

impl D2 {
    /// The D2 notation.
    pub fn new() -> D2 {
        D2 {  }
    }
}

impl GraphDisplay for D2 {
    open spec fn notation(&self, nodes: Seq<(usize, GraphNodeType)>, edges: Seq<Edge>) -> Seq<char> {
        document(nodes, edges)
    }

    fn generate_from_graph(&self, graph: &Graph) -> (r: Result<String, Error>) {
        let nodes = graph.node_references();
        let edges = graph.edge_references();
        let r = render(&nodes, &edges);
        proof {
            assert(lists_nodes(graph@, nodes@));
            assert(lists_edges(graph@, edges@));
            if r is Ok {
                assert(self.notation(nodes@, edges@) == r->Ok_0@);
            } else {
                let i = choose|i: int| 0 <= i < nodes@.len() && (#[trigger] nodes@[i]).1 is Dummy;
                assert(graph@.has(nodes@[i].0));
            }
        }
        r
    }
}

} // verus!
