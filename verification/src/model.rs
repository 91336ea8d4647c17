use crate::graph::Edge;
use crate::graph::EdgeType;
use crate::graph::GraphNodeType;
use vstd::prelude::*;

verus! {

/// The mathematical content of a flow graph: which nodes it has, and how often each
/// edge occurs in it. `edges` is total: an edge that is absent is counted zero times.
pub struct GraphModel {
    pub nodes: Map<usize, GraphNodeType>,
    pub edges: Map<Edge, nat>,
}

impl GraphModel {
    /// The graph without nodes and edges.
    pub open spec fn empty() -> GraphModel {
        GraphModel { nodes: Map::empty(), edges: Map::new(|e: Edge| true, |e: Edge| 0nat) }
    }

    /// Finitely many nodes, an edge count for every triple, and no edge without both its
    /// endpoints.
    pub open spec fn wf(self) -> bool {
        &&& self.nodes.dom().finite()
        &&& forall|e: Edge| self.edges.dom().contains(e)
        &&& forall|e: Edge| #[trigger]
            self.edges[e] > 0 ==> self.nodes.dom().contains(e.0) && self.nodes.dom().contains(e.1)
    }

    /// Whether `id` is a node of the graph.
    pub open spec fn has(self, id: usize) -> bool {
        self.nodes.dom().contains(id)
    }

    /// How often the edge from `a` to `b` of kind `w` occurs.
    pub open spec fn count(self, a: usize, b: usize, w: EdgeType) -> nat {
        self.edges[(a, b, w)]
    }

    /// How many edges of any kind lead from `a` to `b`.
    pub open spec fn links(self, a: usize, b: usize) -> nat {
        self.count(a, b, EdgeType::Normal) + self.count(a, b, EdgeType::Branch(true)) + self.count(
            a,
            b,
            EdgeType::Branch(false),
        )
    }

    /// The graph with one more node.
    pub open spec fn add_node(self, id: usize, kind: GraphNodeType) -> GraphModel {
        GraphModel { nodes: self.nodes.insert(id, kind), edges: self.edges }
    }

    /// The graph with one more edge from `a` to `b`.
    pub open spec fn add_edge(self, a: usize, b: usize, w: EdgeType) -> GraphModel {
        GraphModel { nodes: self.nodes, edges: self.edges.insert((a, b, w), self.edges[(a, b, w)] + 1) }
    }

    /// The graph without the node `id` and without the edges that start or end at it.
    pub open spec fn remove_node(self, id: usize) -> GraphModel {
        GraphModel {
            nodes: self.nodes.remove(id),
            edges: Map::new(
                |e: Edge| true,
                |e: Edge|
                    if e.0 == id || e.1 == id {
                        0nat
                    } else {
                        self.edges[e]
                    },
            ),
        }
    }

    /// No edge ends at `id`.
    pub open spec fn no_incoming(self, id: usize) -> bool {
        forall|a: usize, w: EdgeType| #[trigger] self.count(a, id, w) == 0
    }

    /// No edge starts at `id`.
    pub open spec fn no_outgoing(self, id: usize) -> bool {
        forall|b: usize, w: EdgeType| #[trigger] self.count(id, b, w) == 0
    }

    /// Exactly one edge starts at `id`: it leads to `b` and is of kind `w`.
    pub open spec fn sole_exit(self, id: usize, b: usize, w: EdgeType) -> bool {
        &&& self.count(id, b, w) == 1
        &&& forall|c: usize, v: EdgeType| #[trigger]
            self.count(id, c, v) > 0 ==> c == b && v == w
    }

    /// Exactly one edge, of whatever kind, starts at `id`, and it leads to `b`.
    pub open spec fn sole_successor(self, id: usize, b: usize) -> bool {
        &&& self.links(id, b) == 1
        &&& forall|c: usize| c != b ==> #[trigger] self.links(id, c) == 0
    }

    /// Exactly two edges start at `id`: the true branch to `t` and the false branch to `f`.
    pub open spec fn two_exits(self, id: usize, t: usize, f: usize) -> bool {
        &&& self.count(id, t, EdgeType::Branch(true)) == 1
        &&& self.count(id, f, EdgeType::Branch(false)) == 1
        &&& forall|c: usize, v: EdgeType| #[trigger]
            self.count(id, c, v) > 0 ==> (v == EdgeType::Branch(true) && c == t) || (v
                == EdgeType::Branch(false) && c == f)
    }
}

} // verus!
