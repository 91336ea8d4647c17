use crate::error::Error;
use crate::graph::Edge;
use crate::graph::EdgeType;
use crate::graph::Graph;
use crate::graph::GraphNodeType;
use crate::model::GraphModel;
use vstd::prelude::*;

verus! {

/// The two kinds of node that construction leaves behind and a finished graph lacks.
#[derive(Clone, Copy, Debug, PartialEq, Eq, Structural)]
pub enum Scaffold {
    /// A `Dummy` node.
    Placeholder,
    /// An instruction without text, as an omitted clause of a `for` leaves it.
    EmptyInstruction,
}

/// Whether a node of kind `kind` is scaffolding of the kind `what`.
pub open spec fn is_scaffold(kind: GraphNodeType, what: Scaffold) -> bool {
    match what {
        Scaffold::Placeholder => kind is Dummy,
        Scaffold::EmptyInstruction => kind matches GraphNodeType::Node(text) && text@.len() == 0,
    }
}

impl GraphModel {
    /// `id` is a node, and scaffolding of the kind `what`.
    pub open spec fn candidate(self, id: usize, what: Scaffold) -> bool {
        self.nodes.dom().contains(id) && is_scaffold(self.nodes[id], what)
    }

    /// `id` is the candidate of the smallest index.
    pub open spec fn first_candidate_is(self, id: usize, what: Scaffold) -> bool {
        self.candidate(id, what) && forall|j: usize| j < id ==> !#[trigger] self.candidate(j, what)
    }

    /// There is scaffolding of the kind `what`.
    pub open spec fn has_candidate(self, what: Scaffold) -> bool {
        exists|id: usize| self.candidate(id, what)
    }

    /// The candidate of the smallest index, where there is a candidate.
    pub open spec fn first_candidate(self, what: Scaffold) -> usize {
        choose|id: usize| self.first_candidate_is(id, what)
    }

    /// `id` is a placeholder that no edge leads to.
    pub open spec fn dead(self, id: usize) -> bool {
        self.candidate(id, Scaffold::Placeholder) && self.no_incoming(id)
    }

    /// `id` is the dead placeholder of the smallest index.
    pub open spec fn first_dead_is(self, id: usize) -> bool {
        self.dead(id) && forall|j: usize| j < id ==> !#[trigger] self.dead(j)
    }

    /// There is a dead placeholder.
    pub open spec fn has_dead(self) -> bool {
        exists|id: usize| self.dead(id)
    }

    /// The dead placeholder of the smallest index, where there is one.
    pub open spec fn first_dead(self) -> usize {
        choose|id: usize| self.first_dead_is(id)
    }

    /// Exactly one edge starts at `id`.
    pub open spec fn has_sole_successor(self, id: usize) -> bool {
        exists|b: usize| self.sole_successor(id, b)
    }

    /// Where the one edge that starts at `id` leads, where there is exactly one.
    pub open spec fn the_successor(self, id: usize) -> usize {
        choose|b: usize| self.sole_successor(id, b)
    }

    /// The graph without the node `id`, in which every edge that led to `id` leads to
    /// `next` instead, with its source and kind unchanged. The edges that started at `id`
    /// are gone.
    pub open spec fn spliced(self, id: usize, next: usize) -> GraphModel {
        GraphModel {
            nodes: self.nodes.remove(id),
            edges: Map::new(
                |e: Edge| true,
                |e: Edge|
                    if e.0 == id || e.1 == id {
                        0nat
                    } else if e.1 == next {
                        self.edges[e] + self.edges[(e.0, id, e.2)]
                    } else {
                        self.edges[e]
                    },
            ),
        }
    }

    /// The graph after the dead placeholders have been removed one by one, the one of the
    /// smallest index first, until none is left.
    pub open spec fn pruned(self) -> GraphModel
        decreases self.nodes.dom().len(),
        when self.nodes.dom().finite()
    {
        if self.has_dead() {
            proof {
                self.first_dead_is_dead();
            }
            self.remove_node(self.first_dead()).pruned()
        } else {
            self
        }
    }

    /// The graph after the scaffolding of kind `what` has been spliced out node by node,
    /// the one of the smallest index first, until none is left; or the index of the first
    /// such node that did not have exactly one outgoing edge when its turn came.
    pub open spec fn spliced_all(self, what: Scaffold) -> Result<GraphModel, usize>
        decreases self.nodes.dom().len(),
        when self.nodes.dom().finite()
    {
        if self.has_candidate(what) {
            let id = self.first_candidate(what);
            if self.has_sole_successor(id) {
                proof {
                    self.first_candidate_is_candidate(what);
                }
                self.spliced(id, self.the_successor(id)).spliced_all(what)
            } else {
                Err(id)
            }
        } else {
            Ok(self)
        }
    }

    /// The finished form of a graph: dead placeholders removed, then the other
    /// placeholders spliced out, then the instructions without text.
    pub open spec fn simplified(self) -> Result<GraphModel, usize> {
        match self.pruned().spliced_all(Scaffold::Placeholder) {
            Ok(g) => g.spliced_all(Scaffold::EmptyInstruction),
            Err(id) => Err(id),
        }
    }

    /// Among the candidates there is one of the smallest index, and `first_candidate` is it.
    pub proof fn first_candidate_is_candidate(self, what: Scaffold)
        requires
            self.has_candidate(what),
        ensures
            self.first_candidate_is(self.first_candidate(what), what),
    {
        let some = choose|id: usize| self.candidate(id, what);
        self.least_candidate(some, what);
    }

    /// Below a candidate there is a smallest one.
    proof fn least_candidate(self, bound: usize, what: Scaffold)
        requires
            self.candidate(bound, what),
        ensures
            exists|id: usize| self.first_candidate_is(id, what),
        decreases bound,
    {
        if forall|j: usize| j < bound ==> !#[trigger] self.candidate(j, what) {
            assert(self.first_candidate_is(bound, what));
        } else {
            let j = choose|j: usize| j < bound && self.candidate(j, what);
            self.least_candidate(j, what);
        }
    }

    /// Among the dead placeholders there is one of the smallest index, and `first_dead` is
    /// it.
    pub proof fn first_dead_is_dead(self)
        requires
            self.has_dead(),
        ensures
            self.first_dead_is(self.first_dead()),
    {
        let some = choose|id: usize| self.dead(id);
        self.least_dead(some);
    }

    /// Below a dead placeholder there is a smallest one.
    proof fn least_dead(self, bound: usize)
        requires
            self.dead(bound),
        ensures
            exists|id: usize| self.first_dead_is(id),
        decreases bound,
    {
        if forall|j: usize| j < bound ==> !#[trigger] self.dead(j) {
            assert(self.first_dead_is(bound));
        } else {
            let j = choose|j: usize| j < bound && self.dead(j);
            self.least_dead(j);
        }
    }
}

/// An empty list counts nothing.
proof fn none_counted<T>(s: Seq<T>)
    requires
        s.len() == 0,
    ensures
        forall|x: T| s.to_multiset().count(x) == 0,
{
    s.to_multiset_ensures();
    assert forall|x: T| s.to_multiset().count(x) == 0 by {
        vstd::multiset::axiom_count_le_len(s.to_multiset(), x);
    }
}

/// A list of one item counts that item once and nothing else.
proof fn one_counted<T>(s: Seq<T>)
    requires
        s.len() == 1,
    ensures
        s.to_multiset().count(s[0]) == 1,
        forall|x: T| x != s[0] ==> s.to_multiset().count(x) == 0,
{
    s.to_multiset_ensures();
    assert(s.contains(s[0]));
    vstd::multiset::axiom_count_le_len(s.to_multiset(), s[0]);
    assert forall|x: T| x != s[0] implies s.to_multiset().count(x) == 0 by {
        if s.to_multiset().count(x) > 0 {
            assert(s.contains(x));
        }
    }
}

/// A list that counts one item once and nothing else has one item.
proof fn counted_once_is_one<T>(s: Seq<T>, x: T)
    requires
        s.to_multiset().count(x) == 1,
        forall|y: T| y != x ==> s.to_multiset().count(y) == 0,
    ensures
        s.len() == 1,
{
    s.to_multiset_ensures();
    let single = vstd::multiset::Multiset::<T>::singleton(x);
    assert(s.to_multiset() =~= single);
}

/// Whether a node of this kind is scaffolding of the kind `what`.
fn kind_is_scaffold(kind: &GraphNodeType, what: Scaffold) -> (r: bool)
    ensures
        r == is_scaffold(*kind, what),
{
    match what {
        Scaffold::Placeholder => match kind {
            GraphNodeType::Dummy => true,
            _ => false,
        },
        Scaffold::EmptyInstruction => match kind {
            GraphNodeType::Node(text) => text.as_str().is_empty(),
            _ => false,
        },
    }
}

/// The scaffolding node of kind `what` with the smallest index, if there is any.
pub fn find_candidate(graph: &Graph, what: Scaffold) -> (r: Option<usize>)
    ensures
        r is Some == graph@.has_candidate(what),
        r matches Some(id) ==> id == graph@.first_candidate(what) && graph@.first_candidate_is(
            id,
            what,
        ),
{
    let ids = graph.node_indices();
    let mut i: usize = 0;
    while i < ids.len()
        invariant
            i <= ids.len(),
            forall|k: int| 0 <= k < i ==> !graph@.candidate(#[trigger] ids@[k], what),
            forall|a: int, b: int| 0 <= a < b < ids@.len() ==> ids@[a] < ids@[b],
            forall|k: int| 0 <= k < ids@.len() ==> graph@.has(#[trigger] ids@[k]),
            forall|a: usize| graph@.has(a) ==> ids@.contains(a),
        decreases ids.len() - i,
    {
        let id = ids[i];
        let found = match graph.node_weight(id) {
            Some(kind) => kind_is_scaffold(kind, what),
            None => false,
        };
        if found {
            proof {
                assert forall|j: usize| j < id implies !#[trigger] graph@.candidate(j, what) by {
                    if graph@.candidate(j, what) {
                        assert(ids@.contains(j));
                        let k = choose|k: int| 0 <= k < ids@.len() && ids@[k] == j;
                        assert(k < i);
                    }
                }
                assert(graph@.candidate(id, what));
                graph@.first_candidate_is_candidate(what);
            }
            return Some(id);
        }
        i += 1;
    }
    proof {
        assert forall|id: usize| !graph@.candidate(id, what) by {
            if graph@.candidate(id, what) {
                assert(ids@.contains(id));
            }
        }
    }
    None
}

/// Removes the placeholder of the smallest index among those that no edge leads to, with
/// the edges that start at it, and tells whether there was one.
pub fn remove_zero_in_degree_nodes(graph: &mut Graph) -> (removed: bool)
    requires
        old(graph)@.wf(),
    ensures
        removed == old(graph)@.has_dead(),
        removed ==> final(graph)@ == old(graph)@.remove_node(old(graph)@.first_dead()),
        !removed ==> final(graph)@ == old(graph)@,
        final(graph)@.wf(),
{
    let ids = graph.node_indices();
    let mut i: usize = 0;
    while i < ids.len()
        invariant
            i <= ids.len(),
            graph@ == old(graph)@,
            graph@.wf(),
            forall|k: int| 0 <= k < i ==> !graph@.dead(#[trigger] ids@[k]),
            forall|a: int, b: int| 0 <= a < b < ids@.len() ==> ids@[a] < ids@[b],
            forall|k: int| 0 <= k < ids@.len() ==> graph@.has(#[trigger] ids@[k]),
            forall|a: usize| graph@.has(a) ==> ids@.contains(a),
        decreases ids.len() - i,
    {
        let id = ids[i];
        let placeholder = match graph.node_weight(id) {
            Some(kind) => kind_is_scaffold(kind, Scaffold::Placeholder),
            None => false,
        };
        if placeholder {
            let incoming = graph.incoming(id);
            if incoming.len() == 0 {
                proof {
                    none_counted(incoming@);
                    assert forall|a: usize, w: EdgeType| #[trigger] graph@.count(a, id, w) == 0 by {
                        assert(incoming@.to_multiset().count((a, w)) == graph@.count(a, id, w));
                    }
                    assert(graph@.dead(id));
                    assert forall|j: usize| j < id implies !#[trigger] graph@.dead(j) by {
                        if graph@.dead(j) {
                            assert(ids@.contains(j));
                            let k = choose|k: int| 0 <= k < ids@.len() && ids@[k] == j;
                            assert(k < i);
                        }
                    }
                    graph@.first_dead_is_dead();
                }
                graph.remove_node(id);
                return true;
            } else {
                proof {
                    let first = incoming@[0];
                    incoming@.to_multiset_ensures();
                    assert(incoming@.contains(first));
                    assert(incoming@.to_multiset().count((first.0, first.1)) == graph@.count(
                        first.0,
                        id,
                        first.1,
                    ));
                    assert(!graph@.no_incoming(id));
                }
            }
        }
        i += 1;
    }
    proof {
        assert forall|id: usize| !graph@.dead(id) by {
            if graph@.dead(id) {
                assert(ids@.contains(id));
            }
        }
    }
    false
}

/// Splices out the scaffolding node of kind `what` with the smallest index: every edge
/// that led to it leads to its successor instead, and the node is removed.
///
/// `Ok(false)` says that there is no such node, and then nothing changes. The node must
/// have exactly one outgoing edge: if it has none or several the call fails, names the
/// node and the targets of its outgoing edges, and changes nothing.
pub fn remove_single_node(graph: &mut Graph, what: Scaffold) -> (r: Result<bool, Error>)
    requires
        old(graph)@.wf(),
    ensures
        final(graph)@.wf(),
        match r {
            Ok(done) => {
                let id = old(graph)@.first_candidate(what);
                &&& done == old(graph)@.has_candidate(what)
                &&& !done ==> final(graph)@ == old(graph)@
                &&& done ==> old(graph)@.has_sole_successor(id) && final(graph)@ == old(
                    graph,
                )@.spliced(id, old(graph)@.the_successor(id))
            },
            Err(e) => {
                let id = old(graph)@.first_candidate(what);
                &&& old(graph)@.has_candidate(what)
                &&& !old(graph)@.has_sole_successor(id)
                &&& final(graph)@ == old(graph)@
                &&& e matches Error::UnexpectedOutgoingEdges { node_index, neighbors }
                &&& node_index == id
                &&& forall|b: usize| #[trigger]
                    neighbors@.to_multiset().count(b) == old(graph)@.links(id, b)
            },
        },
{
    let id = match find_candidate(graph, what) {
        Some(id) => id,
        None => {
            return Ok(false);
        },
    };
    let incoming = graph.incoming(id);
    let neighbors = graph.successors(id);
    if neighbors.len() != 1 {
        proof {
            if graph@.has_sole_successor(id) {
                let b = graph@.the_successor(id);
                assert(neighbors@.to_multiset().count(b) == graph@.links(id, b));
                assert forall|c: usize| c != b implies neighbors@.to_multiset().count(c) == 0 by {
                    assert(neighbors@.to_multiset().count(c) == graph@.links(id, c));
                }
                counted_once_is_one(neighbors@, b);
            }
        }
        return Err(Error::UnexpectedOutgoingEdges { node_index: id, neighbors });
    }
    let next = neighbors[0];
    proof {
        one_counted(neighbors@);
        assert(neighbors@.to_multiset().count(next) == graph@.links(id, next));
        assert forall|c: usize| c != next implies #[trigger] graph@.links(id, c) == 0 by {
            assert(neighbors@.to_multiset().count(c) == graph@.links(id, c));
        }
        assert(graph@.sole_successor(id, next));
        assert(graph@.has(next));
        none_counted(incoming@.take(0));
    }
    let mut i: usize = 0;
    while i < incoming.len()
        invariant
            i <= incoming.len(),
            graph@.wf(),
            graph@.nodes == old(graph)@.nodes,
            old(graph)@.wf(),
            old(graph)@.has(next),
            forall|s: usize, w: EdgeType| #[trigger]
                incoming@.to_multiset().count((s, w)) == old(graph)@.count(s, id, w),
            forall|e: Edge| #[trigger]
                graph@.edges[e] == old(graph)@.edges[e] + if e.1 == next {
                    incoming@.take(i as int).to_multiset().count((e.0, e.2))
                } else {
                    0
                },
        decreases incoming.len() - i,
    {
        let (source, kind) = incoming[i];
        proof {
            incoming@.to_multiset_ensures();
            assert(incoming@.contains((source, kind)));
            assert(incoming@.to_multiset().count((source, kind)) == old(graph)@.count(
                source,
                id,
                kind,
            ));
            assert(old(graph)@.edges[(source, id, kind)] > 0);
            assert(incoming@.take(i + 1) =~= incoming@.take(i as int).push((source, kind)));
            vstd::seq_lib::to_multiset_build(incoming@.take(i as int), (source, kind));
        }
        graph.add_edge(source, next, kind);
        i += 1;
    }
    graph.remove_node(id);
    proof {
        assert(incoming@.take(incoming@.len() as int) =~= incoming@);
        assert(graph@.edges =~= old(graph)@.spliced(id, next).edges);
    }
    Ok(true)
}

/// Brings a graph into its finished form: removes the placeholders that nothing leads to,
/// then splices out the remaining placeholders, then the instructions without text.
///
/// It fails when a node that is to be spliced out does not have exactly one outgoing
/// edge, naming that node and the targets of its outgoing edges. A graph that holds
/// neither a placeholder nor an instruction without text is left as it is.
pub fn simplify(graph: &mut Graph) -> (r: Result<(), Error>)
    requires
        old(graph)@.wf(),
    ensures
        final(graph)@.wf(),
        match r {
            Ok(_) => old(graph)@.simplified() == Ok::<GraphModel, usize>(final(graph)@),
            Err(e) => e matches Error::UnexpectedOutgoingEdges { node_index, neighbors }
                && old(graph)@.simplified() == Err::<GraphModel, usize>(node_index),
        },
        old(graph)@.finished() ==> r is Ok && final(graph)@ == old(graph)@,
{
    proof {
        if graph@.finished() {
            graph@.finished_is_fixed();
        }
    }
    loop
        invariant
            graph@.wf(),
            graph@.pruned() == old(graph)@.pruned(),
        ensures
            graph@ == old(graph)@.pruned(),
        decreases graph@.nodes.dom().len(),
    {
        proof {
            if graph@.has_dead() {
                graph@.first_dead_is_dead();
            }
        }
        let removed = remove_zero_in_degree_nodes(graph);
        if !removed {
            break ;
        }
    }
    match splice_out(graph, Scaffold::Placeholder) {
        Ok(_) => {},
        Err(e) => {
            return Err(e);
        },
    }
    splice_out(graph, Scaffold::EmptyInstruction)
}

/// Splices out all the scaffolding of kind `what`, node by node.
fn splice_out(graph: &mut Graph, what: Scaffold) -> (r: Result<(), Error>)
    requires
        old(graph)@.wf(),
    ensures
        final(graph)@.wf(),
        match r {
            Ok(_) => old(graph)@.spliced_all(what) == Ok::<GraphModel, usize>(final(graph)@),
            Err(e) => e matches Error::UnexpectedOutgoingEdges { node_index, neighbors }
                && old(graph)@.spliced_all(what) == Err::<GraphModel, usize>(node_index),
        },
{
    loop
        invariant
            graph@.wf(),
            graph@.spliced_all(what) == old(graph)@.spliced_all(what),
        ensures
            graph@.wf(),
            old(graph)@.spliced_all(what) == Ok::<GraphModel, usize>(graph@),
        decreases graph@.nodes.dom().len(),
    {
        proof {
            if graph@.has_candidate(what) {
                graph@.first_candidate_is_candidate(what);
            }
        }
        match remove_single_node(graph, what) {
            Ok(done) => {
                if !done {
                    break ;
                }
            },
            Err(e) => {
                return Err(e);
            },
        }
    }
    Ok(())
}

} // verus!
