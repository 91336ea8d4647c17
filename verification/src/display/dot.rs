use super::answer;
use super::any_placeholder;
use super::append_answer;
use super::append_name;
use super::lists_edges;
use super::lists_nodes;
use super::name;
use super::GraphDisplay;
use crate::error::Error;
use crate::graph::Edge;
use crate::graph::EdgeType;
use crate::graph::Graph;
use crate::graph::GraphNodeType;
use crate::text::replace;
use crate::text::replaced;
use vstd::prelude::*;
use vstd::string::StringExecFns;

verus! {

/// The Graphviz notation.
pub struct Dot {
    curly: bool,
}

/// The statement that declares one node. A placeholder has none.
pub open spec fn node_line(id: usize, kind: GraphNodeType) -> Seq<char> {
    match kind {
        GraphNodeType::Begin => name(id) + " [shape=box, style=rounded, label=\"begin\"];\n"@,
        GraphNodeType::End => "{rank = sink; "@ + name(id)
            + " [shape=box, style=rounded, label=\"end\"];}\n"@,
        GraphNodeType::Node(text) => name(id) + " [shape=box, label=\""@ + replaced(
            text@,
            '"',
            "\\\""@,
        ) + "\"];\n"@,
        GraphNodeType::Choice(text) => name(id) + " [shape=diamond, label=\""@ + replaced(
            text@,
            '"',
            "\\\""@,
        ) + "?\"];\n"@,
        GraphNodeType::Dummy => Seq::empty(),
    }
}

/// The statement that declares one edge. A branch leaves its decision at the bottom if
/// it is the true branch and at the side if it is the false one.
pub open spec fn edge_line(e: Edge) -> Seq<char> {
    match e.2 {
        EdgeType::Normal => name(e.0) + " -> "@ + name(e.1) + ";\n"@,
        EdgeType::Branch(taken) => name(e.0) + ":"@ + (if taken {
            "s"@
        } else {
            "e"@
        }) + " -> "@ + name(e.1) + ":n [xlabel="@ + answer(taken) + "];\n"@,
    }
}

/// The statements of the listed nodes, one after the other.
pub open spec fn node_lines(nodes: Seq<(usize, GraphNodeType)>) -> Seq<char>
    decreases nodes.len(),
{
    if nodes.len() == 0 {
        Seq::empty()
    } else {
        node_lines(nodes.drop_last()) + node_line(nodes.last().0, nodes.last().1)
    }
}

/// The statements of the listed edges, one after the other.
pub open spec fn edge_lines(edges: Seq<Edge>) -> Seq<char>
    decreases edges.len(),
{
    if edges.len() == 0 {
        Seq::empty()
    } else {
        edge_lines(edges.drop_last()) + edge_line(edges.last())
    }
}

/// A whole graph in Graphviz notation.
pub open spec fn document(curly: bool, nodes: Seq<(usize, GraphNodeType)>, edges: Seq<Edge>) -> Seq<
    char,
> {
    "digraph {\n"@ + (if curly {
        Seq::empty()
    } else {
        "graph [splines=polyline];\n"@
    }) + node_lines(nodes) + edge_lines(edges) + "}\n"@
}

/// The statement of one node, appended to `text`.
pub(crate) fn append_node(text: &mut String, id: usize, kind: &GraphNodeType)
    ensures
        final(text)@ == old(text)@ + node_line(id, *kind),
{
    match kind {
        GraphNodeType::Begin => {
            append_name(text, id);
            text.append(" [shape=box, style=rounded, label=\"begin\"];\n");
        },
        GraphNodeType::End => {
            text.append("{rank = sink; ");
            append_name(text, id);
            text.append(" [shape=box, style=rounded, label=\"end\"];}\n");
        },
        GraphNodeType::Node(label) => {
            append_name(text, id);
            text.append(" [shape=box, label=\"");
            let escaped = replace(label.as_str(), '"', "\\\"");
            text.append(escaped.as_str());
            text.append("\"];\n");
        },
        GraphNodeType::Choice(label) => {
            append_name(text, id);
            text.append(" [shape=diamond, label=\"");
            let escaped = replace(label.as_str(), '"', "\\\"");
            text.append(escaped.as_str());
            text.append("?\"];\n");
        },
        GraphNodeType::Dummy => {},
    }
    assert(text@ =~= old(text)@ + node_line(id, *kind));
}

/// The statement of one edge, appended to `text`.
fn append_edge(text: &mut String, e: &Edge)
    ensures
        final(text)@ == old(text)@ + edge_line(*e),
{
    match e.2 {
        EdgeType::Normal => {
            append_name(text, e.0);
            text.append(" -> ");
            append_name(text, e.1);
            text.append(";\n");
        },
        EdgeType::Branch(taken) => {
            append_name(text, e.0);
            text.append(":");
            text.append(
                if taken {
                    "s"
                } else {
                    "e"
                },
            );
            text.append(" -> ");
            append_name(text, e.1);
            text.append(":n [xlabel=");
            append_answer(text, taken);
            text.append("];\n");
        },
    }
    assert(text@ =~= old(text)@ + edge_line(*e));
}

/// The listed nodes and edges in Graphviz notation, or an error if a placeholder is
/// among the nodes.
pub fn render(curly: bool, nodes: &Vec<(usize, GraphNodeType)>, edges: &Vec<Edge>) -> (r: Result<
    String,
    Error,
>)
    ensures
        r is Err == any_placeholder(nodes@),
        r matches Ok(text) ==> text@ == document(curly, nodes@, edges@),
        r matches Err(e) ==> e is UnexpectedDummyGraphNode,
{
    let mut text = String::from_str("digraph {\n");
    if !curly {
        text.append("graph [splines=polyline];\n");
    }
    let ghost head = text@;
    let mut i: usize = 0;
    while i < nodes.len()
        invariant
            i <= nodes.len(),
            text@ == head + node_lines(nodes@.take(i as int)),
            forall|k: int| 0 <= k < i ==> !((#[trigger] nodes@[k]).1 is Dummy),
        decreases nodes.len() - i,
    {
        match &nodes[i].1 {
            GraphNodeType::Dummy => {
                return Err(Error::UnexpectedDummyGraphNode);
            },
            kind => {
                append_node(&mut text, nodes[i].0, kind);
            },
        }
        proof {
            assert(nodes@.take(i + 1).drop_last() =~= nodes@.take(i as int));
            assert(text@ =~= head + node_lines(nodes@.take(i + 1)));
        }
        i += 1;
    }
    let ghost body = text@;
    let mut j: usize = 0;
    while j < edges.len()
        invariant
            j <= edges.len(),
            text@ == body + edge_lines(edges@.take(j as int)),
        decreases edges.len() - j,
    {
        append_edge(&mut text, &edges[j]);
        proof {
            assert(edges@.take(j + 1).drop_last() =~= edges@.take(j as int));
            assert(text@ =~= body + edge_lines(edges@.take(j + 1)));
        }
        j += 1;
    }
    text.append("}\n");
    proof {
        assert(nodes@.take(nodes@.len() as int) =~= nodes@);
        assert(edges@.take(edges@.len() as int) =~= edges@);
        assert(text@ =~= document(curly, nodes@, edges@));
    }
    Ok(text)
}

impl Dot {
    /// The notation with curved edges if `curly`, with straight segments if not.
    pub fn new(curly: bool) -> (dot: Dot)
        ensures
            dot.curly() == curly,
    {
        Dot { curly }
    }

    /// Whether edges are drawn as curves.
    pub closed spec fn curly(self) -> bool {
        self.curly
    }
}

impl GraphDisplay for Dot {
    open spec fn notation(&self, nodes: Seq<(usize, GraphNodeType)>, edges: Seq<Edge>) -> Seq<char> {
        document(self.curly(), nodes, edges)
    }

    fn generate_from_graph(&self, graph: &Graph) -> (r: Result<String, Error>) {
        let nodes = graph.node_references();
        let edges = graph.edge_references();
        let r = render(self.curly, &nodes, &edges);
        proof {
            assert(lists_nodes(graph@, nodes@));
            assert(lists_edges(graph@, edges@));
            if r is Ok {
                assert(self.notation(nodes@, edges@) == r->Ok_0@);
            } else {
                let i = choose|i: int| 0 <= i < nodes@.len() && (#[trigger] nodes@[i]).1 is Dummy;
                assert(graph@.has(nodes@[i].0));
            }
        }
        r
    }
}

} // verus!
