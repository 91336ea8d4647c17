use super::any_placeholder;
use super::lists_edges;
use super::lists_nodes;
use super::GraphDisplay;
use crate::error::Error;
use crate::graph::Edge;
use crate::graph::Graph;
use crate::graph::GraphNodeType;
use crate::tikz::document;
use crate::tikz::from_graph;
use vstd::prelude::*;

verus! {

/// The TikZ notation.
#[derive(Debug, Default)]
pub struct Tikz {}

impl Tikz {
    /// The TikZ notation.
    pub fn new() -> Tikz {
        Tikz {  }
    }
}

impl GraphDisplay for Tikz {
    open spec fn notation(&self, nodes: Seq<(usize, GraphNodeType)>, edges: Seq<Edge>) -> Seq<char> {
        document(nodes, edges)
    }

    fn generate_from_graph(&self, graph: &Graph) -> (r: Result<String, Error>) {
        let r = from_graph(graph, false);
        proof {
            if r is Ok {
                let (nodes, edges) = choose|nodes: Seq<(usize, GraphNodeType)>, edges: Seq<Edge>|
                    {
                        &&& lists_nodes(graph@, nodes)
                        &&& lists_edges(graph@, edges)
                        &&& !any_placeholder(nodes)
                        &&& #[trigger] document(nodes, edges) == r->Ok_0@
                    };
                assert(self.notation(nodes, edges) == r->Ok_0@);
            }
        }
        r
    }
}

} // verus!
