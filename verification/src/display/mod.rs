use crate::error::Error;
use crate::graph::Edge;
use crate::graph::Graph;
use crate::graph::GraphNodeType;
use crate::text::decimal;
use crate::text::to_decimal;
use vstd::prelude::*;
use vstd::string::StringExecFns;

pub mod d2;
pub mod dot;
pub mod tikz;

verus! {

/// Where the edges that a graph hands out stand for the edges of `g`: as often as `g`
/// holds an edge, the list holds it.
pub open spec fn lists_edges(g: crate::model::GraphModel, edges: Seq<Edge>) -> bool {
    forall|e: Edge| #[trigger] edges.to_multiset().count(e) == g.edges[e]
}

/// Where the nodes that a graph hands out stand for the nodes of `g`: each once, with
/// its kind, in rising order of the indices.
pub open spec fn lists_nodes(g: crate::model::GraphModel, nodes: Seq<(usize, GraphNodeType)>) -> bool {
    &&& forall|i: int, j: int| 0 <= i < j < nodes.len() ==> nodes[i].0 < nodes[j].0
    &&& forall|i: int|
        0 <= i < nodes.len() ==> g.has(#[trigger] nodes[i].0) && nodes[i].1 == g.nodes[nodes[i].0]
    &&& forall|a: usize| g.has(a) ==> exists|i: int| 0 <= i < nodes.len() && #[trigger] nodes[i].0 == a
}

/// Whether one of the listed nodes is a placeholder.
pub open spec fn any_placeholder(nodes: Seq<(usize, GraphNodeType)>) -> bool {
    exists|i: int| 0 <= i < nodes.len() && (#[trigger] nodes[i]).1 is Dummy
}

/// The name that the node `id` goes by in every notation: `D` and its index.
pub open spec fn name(id: usize) -> Seq<char> {
    "D"@ + decimal(id as nat)
}

/// The name of the node `id`, appended to `text`.
pub(crate) fn append_name(text: &mut String, id: usize)
    ensures
        final(text)@ == old(text)@ + name(id),
{
    text.append("D");
    let digits = to_decimal(id);
    text.append(digits.as_str());
    assert(text@ =~= old(text)@ + name(id));
}

/// `Y` for the branch taken when the decision holds, `N` for the other.
pub open spec fn answer(taken: bool) -> Seq<char> {
    if taken {
        "Y"@
    } else {
        "N"@
    }
}

/// The answer that a branch stands for, appended to `text`.
pub(crate) fn append_answer(text: &mut String, taken: bool)
    ensures
        final(text)@ == old(text)@ + answer(taken),
{
    text.append(
        if taken {
            "Y"
        } else {
            "N"
        },
    );
}

/// A notation for flow graphs.
pub trait GraphDisplay {
    /// What the notation makes of the listed nodes and edges, where no node is a
    /// placeholder.
    spec fn notation(&self, nodes: Seq<(usize, GraphNodeType)>, edges: Seq<Edge>) -> Seq<char>;

    /// The graph in this notation: its nodes in the order of their indices, then its edges.
    /// A graph that still holds a placeholder has no notation.
    fn generate_from_graph(&self, graph: &Graph) -> (r: Result<String, Error>)
        ensures
            match r {
                Ok(text) => exists|nodes: Seq<(usize, GraphNodeType)>, edges: Seq<Edge>|
                    {
                        &&& lists_nodes(graph@, nodes)
                        &&& lists_edges(graph@, edges)
                        &&& !any_placeholder(nodes)
                        &&& #[trigger] self.notation(nodes, edges) == text@
                    },
                Err(e) => e is UnexpectedDummyGraphNode && exists|n: usize|
                    graph@.has(n) && #[trigger] graph@.nodes[n] is Dummy,
            },
    ;
}

/// The notations that flow graphs can be written in.
pub enum GraphDisplayBackend {
    Dot(dot::Dot),
    Tikz(tikz::Tikz),
    D2(d2::D2),
}

impl GraphDisplayBackend {
    /// The notation that is asked for: TikZ if `tikz`, else D2 if `d2`, else Graphviz, with
    /// curved edges if `curly`.
    pub fn select(tikz: bool, d2: bool, curly: bool) -> (backend: GraphDisplayBackend)
        ensures
            tikz ==> backend is Tikz,
            !tikz && d2 ==> backend is D2,
            !tikz && !d2 ==> (backend matches GraphDisplayBackend::Dot(dot) && dot.curly() == curly),
    {
        if tikz {
            GraphDisplayBackend::Tikz(tikz::Tikz::new())
        } else if d2 {
            GraphDisplayBackend::D2(d2::D2::new())
        } else {
            GraphDisplayBackend::Dot(dot::Dot::new(curly))
        }
    }
}

impl GraphDisplay for GraphDisplayBackend {
    open spec fn notation(&self, nodes: Seq<(usize, GraphNodeType)>, edges: Seq<Edge>) -> Seq<char> {
        match self {
            GraphDisplayBackend::Dot(inner) => inner.notation(nodes, edges),
            GraphDisplayBackend::Tikz(inner) => inner.notation(nodes, edges),
            GraphDisplayBackend::D2(inner) => inner.notation(nodes, edges),
        }
    }

    fn generate_from_graph(&self, graph: &Graph) -> (r: Result<String, Error>) {
        let r = match self {
            GraphDisplayBackend::Dot(inner) => inner.generate_from_graph(graph),
            GraphDisplayBackend::Tikz(inner) => inner.generate_from_graph(graph),
            GraphDisplayBackend::D2(inner) => inner.generate_from_graph(graph),
        };
        proof {
            if r is Ok {
                let text = r->Ok_0@;
                match self {
                    GraphDisplayBackend::Dot(inner) => {
                        let (nodes, edges) = choose|
                            nodes: Seq<(usize, GraphNodeType)>,
                            edges: Seq<Edge>,
                        |
                            {
                                &&& lists_nodes(graph@, nodes)
                                &&& lists_edges(graph@, edges)
                                &&& !any_placeholder(nodes)
                                &&& #[trigger] inner.notation(nodes, edges) == text
                            };
                        assert(self.notation(nodes, edges) == text);
                    },
                    GraphDisplayBackend::Tikz(inner) => {
                        let (nodes, edges) = choose|
                            nodes: Seq<(usize, GraphNodeType)>,
                            edges: Seq<Edge>,
                        |
                            {
                                &&& lists_nodes(graph@, nodes)
                                &&& lists_edges(graph@, edges)
                                &&& !any_placeholder(nodes)
                                &&& #[trigger] inner.notation(nodes, edges) == text
                            };
                        assert(self.notation(nodes, edges) == text);
                    },
                    GraphDisplayBackend::D2(inner) => {
                        let (nodes, edges) = choose|
                            nodes: Seq<(usize, GraphNodeType)>,
                            edges: Seq<Edge>,
                        |
                            {
                                &&& lists_nodes(graph@, nodes)
                                &&& lists_edges(graph@, edges)
                                &&& !any_placeholder(nodes)
                                &&& #[trigger] inner.notation(nodes, edges) == text
                            };
                        assert(self.notation(nodes, edges) == text);
                    },
                }
            }
        }
        r
    }
}

} // verus!
