use crate::model::GraphModel;
use petgraph::stable_graph::NodeIndex;
use petgraph::stable_graph::StableGraph;
use petgraph::visit::EdgeRef;
use petgraph::visit::IntoEdgeReferences;
use petgraph::Directed;
use petgraph::Direction;
use vstd::multiset::Multiset;
use vstd::prelude::*;

verus! {

/// What a node of a flow graph stands for.
#[derive(Debug, PartialEq, Clone)]
pub enum GraphNodeType {
    /// Scaffolding that only exists while a graph is under construction.
    Dummy,
    /// The single entry of the function.
    Begin,
    /// The single exit of the function.
    End,
    /// A plain instruction, with its text.
    Node(String),
    /// A two-way decision, with the text of its condition.
    Choice(String),
}

impl GraphNodeType {
    /// A copy of the kind, text included.
    pub fn duplicate(&self) -> (r: GraphNodeType)
        ensures
            r == *self,
    {
        match self {
            GraphNodeType::Dummy => GraphNodeType::Dummy,
            GraphNodeType::Begin => GraphNodeType::Begin,
            GraphNodeType::End => GraphNodeType::End,
            GraphNodeType::Node(text) => GraphNodeType::Node(text.clone()),
            GraphNodeType::Choice(text) => GraphNodeType::Choice(text.clone()),
        }
    }
}

/// What an edge of a flow graph stands for.
#[derive(Debug, Clone, Copy, PartialEq, Eq, Structural)]
pub enum EdgeType {
    /// Unconditional fall-through.
    Normal,
    /// The branch taken when a decision comes out as the given value.
    Branch(bool),
}

/// A directed edge: source, target, kind.
pub type Edge = (usize, usize, EdgeType);

/// `petgraph::stable_graph::StableGraph`, of which nothing is known but what the
/// functions below say of it.
#[verifier::external_type_specification]
#[verifier::external_body]
#[verifier::reject_recursive_types(N)]
#[verifier::reject_recursive_types(E)]
#[verifier::reject_recursive_types(Ty)]
#[verifier::reject_recursive_types(Ix)]
pub struct ExStableGraph<N, E, Ty, Ix>(StableGraph<N, E, Ty, Ix>);

/// `petgraph::Directed`, the marker of graphs whose edges have a direction.
#[verifier::external_type_specification]
#[verifier::external_body]
pub struct ExDirected(Directed);

/// The live nodes of a stable graph: index to weight.
pub uninterp spec fn graph_nodes(g: StableGraph<GraphNodeType, EdgeType, Directed, usize>) -> Map<
    usize,
    GraphNodeType,
>;

/// The live edges of a stable graph, parallel edges counted as often as they occur.
pub uninterp spec fn graph_edges(
    g: StableGraph<GraphNodeType, EdgeType, Directed, usize>,
) -> Multiset<Edge>;

/// `StableGraph::with_capacity(0, 0)`: the graph it returns holds no node and no edge.
#[verifier::external_body]
fn raw_new() -> (g: StableGraph<GraphNodeType, EdgeType, Directed, usize>)
    ensures
        graph_nodes(g).dom() == Set::<usize>::empty(),
        graph_edges(g).len() == 0,
{
    StableGraph::with_capacity(0, 0)
}

/// `StableGraph::add_node`: the node is stored under an index that was not in use, which is
/// returned; every other node and every edge stays. With `usize` indices the index limit
/// is never reached, so the call does not panic.
#[verifier::external_body]
fn raw_add_node(
    g: &mut StableGraph<GraphNodeType, EdgeType, Directed, usize>,
    weight: GraphNodeType,
) -> (id: usize)
    ensures
        !graph_nodes(*old(g)).dom().contains(id),
        graph_nodes(*final(g)) == graph_nodes(*old(g)).insert(id, weight),
        graph_edges(*final(g)) == graph_edges(*old(g)),
{
    g.add_node(weight).index()
}

/// `StableGraph::add_edge`: one more edge from `a` to `b`, parallel edges allowed; the
/// nodes stay. It panics when an endpoint is no node of the graph, hence the precondition.
#[verifier::external_body]
fn raw_add_edge(
    g: &mut StableGraph<GraphNodeType, EdgeType, Directed, usize>,
    a: usize,
    b: usize,
    weight: EdgeType,
)
    requires
        graph_nodes(*old(g)).dom().contains(a),
        graph_nodes(*old(g)).dom().contains(b),
    ensures
        graph_nodes(*final(g)) == graph_nodes(*old(g)),
        graph_edges(*final(g)) == graph_edges(*old(g)).insert((a, b, weight)),
{
    g.add_edge(NodeIndex::new(a), NodeIndex::new(b), weight);
}

/// `StableGraph::remove_node`: the node leaves together with every edge that starts or ends
/// at it, and nothing else changes. The result tells whether the node was there.
#[verifier::external_body]
fn raw_remove_node(g: &mut StableGraph<GraphNodeType, EdgeType, Directed, usize>, a: usize) -> (was: bool)
    ensures
        was == graph_nodes(*old(g)).dom().contains(a),
        graph_nodes(*final(g)) == graph_nodes(*old(g)).remove(a),
        graph_edges(*final(g)) == graph_edges(*old(g)).filter(|e: Edge| e.0 != a && e.1 != a),
{
    g.remove_node(NodeIndex::new(a)).is_some()
}

/// `StableGraph::node_indices`: the indices of the live nodes, each once, in rising order.
#[verifier::external_body]
fn raw_node_indices(g: &StableGraph<GraphNodeType, EdgeType, Directed, usize>) -> (r: Vec<usize>)
    ensures
        forall|i: int, j: int| 0 <= i < j < r@.len() ==> r@[i] < r@[j],
        forall|i: int| 0 <= i < r@.len() ==> graph_nodes(*g).dom().contains(#[trigger] r@[i]),
        forall|a: usize| graph_nodes(*g).dom().contains(a) ==> r@.contains(a),
{
    g.node_indices().map(|x| x.index()).collect()
}

/// `StableGraph::node_weight`: the weight of the node at `a`, or `None` where no live node
/// has that index.
#[verifier::external_body]
fn raw_node_weight(g: &StableGraph<GraphNodeType, EdgeType, Directed, usize>, a: usize) -> (r: Option<
    &GraphNodeType,
>)
    ensures
        r is Some == graph_nodes(*g).dom().contains(a),
        r matches Some(w) ==> *w == graph_nodes(*g)[a],
{
    g.node_weight(NodeIndex::new(a))
}

/// `StableGraph::edges_directed` with `Direction::Incoming`: the edges that end at `a`, each
/// as its source and kind. A pair occurs in the result as often as the graph holds the edge
/// of that kind from that source to `a`. Nothing is said of their order.
#[verifier::external_body]
fn raw_incoming(g: &StableGraph<GraphNodeType, EdgeType, Directed, usize>, a: usize) -> (r: Vec<
    (usize, EdgeType),
>)
    ensures
        forall|s: usize, w: EdgeType| #[trigger]
            r@.to_multiset().count((s, w)) == graph_edges(*g).count((s, a, w)),
{
    g.edges_directed(NodeIndex::new(a), Direction::Incoming).map(
        |x| (x.source().index(), *x.weight()),
    ).collect()
}

/// `StableGraph::neighbors_directed` with `Direction::Outgoing`: the target of every edge
/// that starts at `a`, so a node occurs as often as edges of any kind lead to it from `a`.
/// Nothing is said of their order.
#[verifier::external_body]
fn raw_successors(g: &StableGraph<GraphNodeType, EdgeType, Directed, usize>, a: usize) -> (r: Vec<usize>)
    ensures
        forall|b: usize| #[trigger]
            r@.to_multiset().count(b) == graph_edges(*g).count((a, b, EdgeType::Normal))
                + graph_edges(*g).count((a, b, EdgeType::Branch(true))) + graph_edges(*g).count(
                (a, b, EdgeType::Branch(false)),
            ),
{
    g.neighbors_directed(NodeIndex::new(a), Direction::Outgoing).map(|x| x.index()).collect()
}

/// `edge_references` of `IntoEdgeReferences`: every live edge as source, target and kind.
/// As a multiset they are the edges of the graph. They come in the order of their edge
/// indices, of which this contract says nothing.
#[verifier::external_body]
fn raw_edge_references(g: &StableGraph<GraphNodeType, EdgeType, Directed, usize>) -> (r: Vec<Edge>)
    ensures
        r@.to_multiset() == graph_edges(*g),
{
    g.edge_references().map(|x| (x.source().index(), x.target().index(), *x.weight())).collect()
}

/// A flow graph: typed nodes under stable indices, and typed directed edges, of which
/// several may run in parallel.
pub struct Graph {
    inner: StableGraph<GraphNodeType, EdgeType, Directed, usize>,
}

impl View for Graph {
    type V = GraphModel;

    closed spec fn view(&self) -> GraphModel {
        GraphModel {
            nodes: graph_nodes(self.inner),
            edges: Map::new(|e: Edge| true, |e: Edge| graph_edges(self.inner).count(e)),
        }
    }
}

impl Graph {
    /// A graph without nodes and edges.
    pub fn new() -> (g: Graph)
        ensures
            g@ == GraphModel::empty(),
            g@.wf(),
    {
        let inner = raw_new();
        assert(graph_nodes(inner) =~= Map::<usize, GraphNodeType>::empty());
        assert forall|e: Edge| graph_edges(inner).count(e) == 0 by {
            vstd::multiset::axiom_count_le_len(graph_edges(inner), e);
        }
        let g = Graph { inner };
        assert(g@.edges =~= GraphModel::empty().edges);
        g
    }

    /// Adds a node of the given kind and returns its index, which no node had before.
    pub fn add_node(&mut self, kind: GraphNodeType) -> (id: usize)
        requires
            old(self)@.wf(),
        ensures
            !old(self)@.has(id),
            final(self)@ == old(self)@.add_node(id, kind),
            final(self)@.wf(),
    {
        let id = raw_add_node(&mut self.inner, kind);
        assert(self@.edges =~= old(self)@.edges);
        id
    }

    /// Adds an edge of kind `w` from `a` to `b`, beside any that are already there.
    pub fn add_edge(&mut self, a: usize, b: usize, w: EdgeType)
        requires
            old(self)@.wf(),
            old(self)@.has(a),
            old(self)@.has(b),
        ensures
            final(self)@ == old(self)@.add_edge(a, b, w),
            final(self)@.wf(),
    {
        raw_add_edge(&mut self.inner, a, b, w);
        assert(self@.edges =~= old(self)@.add_edge(a, b, w).edges);
    }

    /// Removes the node `a` with every edge that starts or ends at it, and tells whether
    /// it was there. Nothing changes where it was not.
    pub fn remove_node(&mut self, a: usize) -> (was: bool)
        requires
            old(self)@.wf(),
        ensures
            was == old(self)@.has(a),
            final(self)@ == old(self)@.remove_node(a),
            final(self)@.wf(),
    {
        let was = raw_remove_node(&mut self.inner, a);
        assert(self@.edges =~= old(self)@.remove_node(a).edges);
        was
    }

    /// The indices of the nodes, each once, in rising order.
    pub fn node_indices(&self) -> (r: Vec<usize>)
        ensures
            forall|i: int, j: int| 0 <= i < j < r@.len() ==> r@[i] < r@[j],
            forall|i: int| 0 <= i < r@.len() ==> self@.has(#[trigger] r@[i]),
            forall|a: usize| self@.has(a) ==> r@.contains(a),
    {
        raw_node_indices(&self.inner)
    }

    /// The kind of the node `a`, or `None` where there is no such node.
    pub fn node_weight(&self, a: usize) -> (r: Option<&GraphNodeType>)
        ensures
            r is Some == self@.has(a),
            r matches Some(w) ==> *w == self@.nodes[a],
    {
        raw_node_weight(&self.inner, a)
    }

    /// The nodes with their kinds, each once, in rising order of the indices.
    pub fn node_references(&self) -> (r: Vec<(usize, GraphNodeType)>)
        ensures
            forall|i: int, j: int| 0 <= i < j < r@.len() ==> r@[i].0 < r@[j].0,
            forall|i: int|
                0 <= i < r@.len() ==> self@.has(#[trigger] r@[i].0) && r@[i].1 == self@.nodes[r@[i].0],
            forall|a: usize| self@.has(a) ==> exists|i: int| 0 <= i < r@.len() && #[trigger] r@[i].0 == a,
    {
        let ids = self.node_indices();
        let mut r: Vec<(usize, GraphNodeType)> = Vec::new();
        let mut i: usize = 0;
        while i < ids.len()
            invariant
                i <= ids.len(),
                r@.len() == i,
                forall|k: int| 0 <= k < i ==> #[trigger] r@[k].0 == ids@[k],
                forall|k: int| 0 <= k < i ==> (#[trigger] r@[k]).1 == self@.nodes[ids@[k]],
                forall|a: int, b: int| 0 <= a < b < ids@.len() ==> ids@[a] < ids@[b],
                forall|k: int| 0 <= k < ids@.len() ==> self@.has(#[trigger] ids@[k]),
                forall|a: usize| self@.has(a) ==> ids@.contains(a),
            decreases ids.len() - i,
        {
            let id = ids[i];
            match self.node_weight(id) {
                Some(kind) => {
                    r.push((id, kind.duplicate()));
                },
                None => {
                    // Not reached: every index that was handed out is a node.
                    assert(false);
                },
            }
            i += 1;
        }
        proof {
            assert forall|a: usize| self@.has(a) implies exists|i: int|
                0 <= i < r@.len() && #[trigger] r@[i].0 == a by {
                assert(ids@.contains(a));
                let k = choose|k: int| 0 <= k < ids@.len() && ids@[k] == a;
                assert(r@[k].0 == a);
            }
        }
        r
    }

    /// The edges that end at `a`, each as its source and kind, in no stated order: a pair
    /// occurs as often as the graph holds that edge.
    pub fn incoming(&self, a: usize) -> (r: Vec<(usize, EdgeType)>)
        ensures
            forall|s: usize, w: EdgeType| #[trigger]
                r@.to_multiset().count((s, w)) == self@.count(s, a, w),
    {
        raw_incoming(&self.inner, a)
    }

    /// The targets of the edges that start at `a`, in no stated order: a node occurs as
    /// often as edges of any kind lead to it from `a`.
    pub fn successors(&self, a: usize) -> (r: Vec<usize>)
        ensures
            forall|b: usize| #[trigger] r@.to_multiset().count(b) == self@.links(a, b),
    {
        raw_successors(&self.inner, a)
    }

    /// Every edge as source, target and kind, in no stated order: a triple occurs as often
    /// as the graph holds that edge.
    pub fn edge_references(&self) -> (r: Vec<Edge>)
        ensures
            forall|e: Edge| #[trigger] r@.to_multiset().count(e) == self@.edges[e],
    {
        raw_edge_references(&self.inner)
    }
}

} // verus!
